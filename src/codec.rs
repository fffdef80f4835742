use vstd::prelude::*;
use vstd::string::*;

use crate::error::FetchError;

verus! {

/// Whether `c` is a hexadecimal digit, in either case.
pub open spec fn is_hex_digit(c: char) -> bool {
    ('0' <= c && c <= '9') || ('a' <= c && c <= 'f') || ('A' <= c && c <= 'F')
}

/// The value of a hexadecimal digit.
pub open spec fn hex_digit_value(c: char) -> nat {
    if '0' <= c && c <= '9' {
        (c as u32 - '0' as u32) as nat
    } else if 'a' <= c && c <= 'f' {
        (c as u32 - 'a' as u32 + 10) as nat
    } else {
        (c as u32 - 'A' as u32 + 10) as nat
    }
}

/// The number that a string of hexadecimal digits denotes, most significant first.
pub open spec fn hex_value(s: Seq<char>) -> nat
    decreases s.len(),
{
    if s.len() == 0 {
        0
    } else {
        hex_value(s.drop_last()) * 16 + hex_digit_value(s.last())
    }
}

/// The digits of a hexadecimal field: the text after a leading `0x` or `0X`, if any.
pub open spec fn hex_digits_of(s: Seq<char>) -> Seq<char> {
    if s.len() >= 2 && s[0] == '0' && (s[1] == 'x' || s[1] == 'X') {
        s.subrange(2, s.len() as int)
    } else {
        s
    }
}

/// What a hexadecimal field decodes to: its digits must be present, all hexadecimal,
/// and denote a value that fits in 64 bits.
pub open spec fn parse_hex(s: Seq<char>) -> Option<u64> {
    let d = hex_digits_of(s);
    if d.len() > 0 && (forall|i: int| 0 <= i < d.len() ==> is_hex_digit(#[trigger] d[i]))
        && hex_value(d) <= u64::MAX {
        Some(hex_value(d) as u64)
    } else {
        None
    }
}

/// The hexadecimal digit for `d`, in lower case.
pub open spec fn hex_char(d: nat) -> char {
    if d < 10 {
        (d + 48) as char
    } else {
        (d + 87) as char
    }
}

/// The lower-case hexadecimal text of `v`, without leading zeros (`0` for zero).
pub open spec fn hex_text(v: nat) -> Seq<char>
    decreases v,
{
    if v < 16 {
        seq![hex_char(v)]
    } else {
        hex_text(v / 16).push(hex_char(v % 16))
    }
}

/// The decimal digit for `d`.
pub open spec fn dec_char(d: nat) -> char {
    (d + 48) as char
}

/// The decimal text of `v`, without leading zeros (`0` for zero).
pub open spec fn dec_text(v: nat) -> Seq<char>
    decreases v,
{
    if v < 10 {
        seq![dec_char(v)]
    } else {
        dec_text(v / 10).push(dec_char(v % 10))
    }
}

/// Relies on String::push: appends one character to the end of the string.
#[verifier::external_body]
pub(crate) fn push_char(s: &mut String, c: char)
    ensures
        final(s)@ == old(s)@.push(c),
{
    s.push(c)
}

fn digit_value(c: char) -> (r: u64)
    requires
        is_hex_digit(c),
    ensures
        r == hex_digit_value(c),
        r < 16,
{
    if '0' <= c && c <= '9' {
        (c as u32 - '0' as u32) as u64
    } else if 'a' <= c && c <= 'f' {
        (c as u32 - 'a' as u32 + 10) as u64
    } else {
        (c as u32 - 'A' as u32 + 10) as u64
    }
}

fn is_hex_char(c: char) -> (r: bool)
    ensures
        r == is_hex_digit(c),
{
    ('0' <= c && c <= '9') || ('a' <= c && c <= 'f') || ('A' <= c && c <= 'F')
}

fn hex_digit_char(d: u64) -> (c: char)
    requires
        d < 16,
    ensures
        c == hex_char(d as nat),
{
    if d < 10 {
        (d as u8 + 48) as char
    } else {
        (d as u8 + 87) as char
    }
}

/// Appends the lower-case hexadecimal text of `v`.
pub(crate) fn push_hex(s: &mut String, v: u64)
    ensures
        final(s)@ == old(s)@ + hex_text(v as nat),
    decreases v,
{
    if v >= 16 {
        push_hex(s, v / 16);
    }
    let c = hex_digit_char(v % 16);
    push_char(s, c);
    assert(final(s)@ =~= old(s)@ + hex_text(v as nat));
}

/// Appends the decimal text of `v`.
pub(crate) fn push_decimal(s: &mut String, v: u64)
    ensures
        final(s)@ == old(s)@ + dec_text(v as nat),
    decreases v,
{
    if v >= 10 {
        push_decimal(s, v / 10);
    }
    let c = ((v % 10) as u8 + 48) as char;
    push_char(s, c);
    assert(final(s)@ =~= old(s)@ + dec_text(v as nat));
}

/// The decimal text of `v`.
pub fn decimal_string(v: u64) -> (r: String)
    ensures
        r@ == dec_text(v as nat),
{
    let mut s = String::new();
    push_decimal(&mut s, v);
    assert(s@ =~= dec_text(v as nat));
    s
}

/// The hexadecimal text of `v` as a JSON-RPC quantity: `0x` and lower-case digits.
pub fn hex_quantity(v: u64) -> (r: String)
    ensures
        r@ == seq!['0', 'x'] + hex_text(v as nat),
{
    let mut s = String::new();
    push_char(&mut s, '0');
    push_char(&mut s, 'x');
    push_hex(&mut s, v);
    s
}

proof fn lemma_hex_value_prefix(s: Seq<char>, k: int)
    requires
        0 <= k <= s.len(),
    ensures
        hex_value(s.subrange(0, k)) <= hex_value(s),
    decreases s.len(),
{
    if k < s.len() {
        assert(s.drop_last().subrange(0, k) =~= s.subrange(0, k));
        lemma_hex_value_prefix(s.drop_last(), k);
    } else {
        assert(s.subrange(0, k) =~= s);
    }
}

/// Decodes a hexadecimal field, with or without a `0x`/`0X` prefix, into a 64-bit value.
pub fn parse_hex_u64(input: &str) -> (r: Result<u64, FetchError>)
    ensures
        match parse_hex(input@) {
            Some(v) => r == Ok::<u64, FetchError>(v),
            None => r matches Err(FetchError::MalformedHex { text }) && text@ == input@,
        },
{
    let len = input.unicode_len();
    let mut start: usize = 0;
    if len >= 2 && input.get_char(0) == '0' {
        let x = input.get_char(1);
        if x == 'x' || x == 'X' {
            start = 2;
        }
    }
    let ghost d = hex_digits_of(input@);
    assert(d =~= input@.subrange(start as int, len as int));
    if start == len {
        return Err(FetchError::MalformedHex { text: String::from_str(input) });
    }
    let mut acc: u64 = 0;
    let mut i: usize = start;
    assert(d.subrange(0, 0) =~= Seq::<char>::empty());
    while i < len
        invariant
            start <= i <= len,
            len == input@.len(),
            d == input@.subrange(start as int, len as int),
            d == hex_digits_of(input@),
            forall|j: int| 0 <= j < i - start ==> is_hex_digit(#[trigger] d[j]),
            acc == hex_value(d.subrange(0, i - start)),
        decreases len - i,
    {
        let c = input.get_char(i);
        let ghost k = i - start;
        assert(d[k] == c);
        if !is_hex_char(c) {
            assert(!is_hex_digit(d[k]));
            return Err(FetchError::MalformedHex { text: String::from_str(input) });
        }
        assert(d.subrange(0, k + 1).drop_last() =~= d.subrange(0, k));
        if acc > 0x0FFF_FFFF_FFFF_FFFF {
            proof {
                let dv = hex_digit_value(c);
                assert(hex_value(d.subrange(0, k + 1)) == acc * 16 + dv);
                assert(acc * 16 + dv > u64::MAX) by (nonlinear_arith)
                    requires
                        acc > 0x0FFF_FFFF_FFFF_FFFFu64,
                ;
                lemma_hex_value_prefix(d, k + 1);
            }
            return Err(FetchError::MalformedHex { text: String::from_str(input) });
        }
        acc = acc * 16 + digit_value(c);
        i += 1;
    }
    assert(d.subrange(0, len - start) =~= d);
    Ok(acc)
}

proof fn lemma_hex_char_value(d: nat)
    requires
        d < 16,
    ensures
        is_hex_digit(hex_char(d)),
        hex_digit_value(hex_char(d)) == d,
{
    let c = hex_char(d);
    if d < 10 {
        assert(c as u32 == d + 48);
    } else {
        assert(c as u32 == d + 87);
    }
}

proof fn lemma_hex_text_denotes(v: nat)
    ensures
        hex_text(v).len() > 0,
        forall|i: int| 0 <= i < hex_text(v).len() ==> is_hex_digit(#[trigger] hex_text(v)[i]),
        hex_value(hex_text(v)) == v,
    decreases v,
{
    if v >= 16 {
        lemma_hex_text_denotes(v / 16);
        lemma_hex_char_value(v % 16);
        let t = hex_text(v);
        assert(t.drop_last() =~= hex_text(v / 16));
        assert(t.last() == hex_char(v % 16));
        assert(hex_value(t) == hex_value(hex_text(v / 16)) * 16 + hex_digit_value(hex_char(v % 16)));
        assert(v == (v / 16) * 16 + v % 16);
        assert forall|i: int| 0 <= i < t.len() implies is_hex_digit(#[trigger] t[i]) by {
            if i < t.len() - 1 {
                assert(t[i] == hex_text(v / 16)[i]);
            }
        }
    } else {
        lemma_hex_char_value(v);
        assert(hex_text(v).drop_last() =~= Seq::<char>::empty());
        assert(hex_value(hex_text(v)) == hex_value(Seq::<char>::empty()) * 16 + hex_digit_value(hex_char(v)));
    }
}

/// Hexadecimal text round-trips: the lower-case digits of any 64-bit value decode to
/// that value, both bare and behind a `0x` prefix.
pub proof fn lemma_hex_round_trip(v: u64)
    ensures
        parse_hex(hex_text(v as nat)) == Some(v),
        parse_hex(seq!['0', 'x'] + hex_text(v as nat)) == Some(v),
{
    let t = hex_text(v as nat);
    lemma_hex_text_denotes(v as nat);
    if t.len() >= 2 {
        assert(is_hex_digit(t[1]));
    }
    assert(hex_digits_of(t) =~= t);
    assert(hex_digits_of(seq!['0', 'x'] + t) =~= t);
}

/// Malformed hexadecimal text is rejected: no digits after the optional prefix, a
/// character that is not a hexadecimal digit, or a value beyond 64 bits.
pub proof fn lemma_hex_rejects(s: Seq<char>)
    ensures
        hex_digits_of(s).len() == 0 ==> parse_hex(s) is None,
        (exists|i: int| 0 <= i < hex_digits_of(s).len() && !is_hex_digit(#[trigger] hex_digits_of(s)[i]))
            ==> parse_hex(s) is None,
        hex_value(hex_digits_of(s)) > u64::MAX ==> parse_hex(s) is None,
{
}

} // verus!
