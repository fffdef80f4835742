use vstd::prelude::*;
use vstd::string::*;

use crate::codec::{
    dec_text, hex_text, parse_hex, parse_hex_u64, push_char, push_decimal, push_hex,
};
use crate::error::FetchError;
use crate::utc::{format_utc, utc_text};

verus! {

/// The `result` object of an `eth_getBlockByNumber` reply: its two fields as sent,
/// hexadecimal text.
#[derive(Debug)]
pub struct RawBlock {
    pub number: String,
    pub timestamp: String,
}

/// A decoded block: its number, its Unix timestamp and that timestamp as UTC text.
#[derive(Debug)]
pub struct BlockInfo {
    pub number: u64,
    pub timestamp: u64,
    pub timestamp_utc: String,
}

/// What the sequencer asks its driver to do next.
#[derive(Debug)]
pub enum Action {
    /// POST `body` to the endpoint and hand the reply's `result` to `Sequencer::on_reply`.
    Fetch { block_number: u64, body: String },
    /// Every requested block has been printed.
    Finish,
}

/// The block sampled at `offset`: `start + offset * interval`, if that fits in 64 bits.
pub open spec fn block_number_of(start: u64, offset: u64, interval: u64) -> Option<u64> {
    if start + offset * interval <= u64::MAX {
        Some((start + offset * interval) as u64)
    } else {
        None
    }
}

/// The JSON-RPC body that asks for block `n` without its transactions.
pub open spec fn request_text(n: u64) -> Seq<char> {
    "{\"jsonrpc\":\"2.0\",\"id\":"@ + dec_text(n as nat)
        + ",\"method\":\"eth_getBlockByNumber\",\"params\":[\"0x"@ + hex_text(n as nat)
        + "\",false]}"@
}

/// The fields of a reply once decoded: number, timestamp and UTC text, or `None` where
/// a stage of decoding fails.
pub open spec fn decoded(number: Seq<char>, timestamp: Seq<char>) -> Option<(u64, u64, Seq<char>)> {
    match (parse_hex(number), parse_hex(timestamp)) {
        (Some(n), Some(ts)) => match utc_text(ts as int) {
            Some(text) => Some((n, ts, text)),
            None => None,
        },
        _ => None,
    }
}

/// `e` is the error of the first decoding stage that fails: the number, then the
/// timestamp, then its calendar conversion.
pub open spec fn decode_error(number: Seq<char>, timestamp: Seq<char>, e: FetchError) -> bool {
    if parse_hex(number) is None {
        e matches FetchError::MalformedHex { text } && text@ == number
    } else if parse_hex(timestamp) is None {
        e matches FetchError::MalformedHex { text } && text@ == timestamp
    } else {
        e matches FetchError::InvalidTimestamp { secs } && Some(secs) == parse_hex(timestamp)
    }
}

/// The seconds since the previous sampled block: empty on the first row, and never
/// below zero when timestamps go backwards.
pub open spec fn delta_text(timestamp: u64, previous: Option<u64>) -> Seq<char> {
    match previous {
        None => Seq::<char>::empty(),
        Some(p) => dec_text(
            if timestamp >= p {
                (timestamp - p) as nat
            } else {
                0
            },
        ),
    }
}

/// One CSV row: `number,timestamp,utc,delta`.
pub open spec fn row_text(number: u64, timestamp: u64, utc: Seq<char>, previous: Option<u64>) -> Seq<
    char,
> {
    dec_text(number as nat) + seq![','] + dec_text(timestamp as nat) + seq![','] + utc + seq![',']
        + delta_text(timestamp, previous)
}

/// The block number for `offset`, or `ArithmeticOverflow` where it exceeds 64 bits.
pub fn block_number_at(start: u64, offset: u64, interval: u64) -> (r: Result<u64, FetchError>)
    ensures
        match block_number_of(start, offset, interval) {
            Some(n) => r == Ok::<u64, FetchError>(n),
            None => r matches Err(FetchError::ArithmeticOverflow { offset: o }) && o == offset,
        },
{
    match offset.checked_mul(interval) {
        Some(step) => match start.checked_add(step) {
            Some(n) => Ok(n),
            None => Err(FetchError::ArithmeticOverflow { offset }),
        },
        None => {
            assert(start + offset * interval > u64::MAX) by (nonlinear_arith)
                requires
                    offset * interval > u64::MAX,
            ;
            Err(FetchError::ArithmeticOverflow { offset })
        },
    }
}

/// The JSON-RPC request body for block `block_number`, its full transactions left out.
pub fn request_body(block_number: u64) -> (r: String)
    ensures
        r@ == request_text(block_number),
{
    let mut s = String::new();
    s.append("{\"jsonrpc\":\"2.0\",\"id\":");
    push_decimal(&mut s, block_number);
    s.append(",\"method\":\"eth_getBlockByNumber\",\"params\":[\"0x");
    push_hex(&mut s, block_number);
    s.append("\",false]}");
    assert(s@ =~= request_text(block_number));
    s
}

/// Decodes the two hexadecimal fields of a reply and renders the timestamp as UTC text.
pub fn decode_block(raw: &RawBlock) -> (r: Result<BlockInfo, FetchError>)
    ensures
        match decoded(raw.number@, raw.timestamp@) {
            Some((n, ts, text)) => r matches Ok(info) && info.number == n && info.timestamp == ts
                && info.timestamp_utc@ == text,
            None => r matches Err(e) && decode_error(raw.number@, raw.timestamp@, e),
        },
        parse_hex(raw.number@) is Some && parse_hex(raw.timestamp@) is Some
            && parse_hex(raw.timestamp@).unwrap() <= 253402300799 ==> r is Ok,
{
    let number = match parse_hex_u64(raw.number.as_str()) {
        Ok(v) => v,
        Err(e) => return Err(e),
    };
    let timestamp = match parse_hex_u64(raw.timestamp.as_str()) {
        Ok(v) => v,
        Err(e) => return Err(e),
    };
    match format_utc(timestamp) {
        Ok(timestamp_utc) => Ok(BlockInfo { number, timestamp, timestamp_utc }),
        Err(e) => Err(e),
    }
}

/// Renders a decoded block as a CSV row; the delta column is empty without a previous
/// timestamp, and saturates at zero.
pub fn csv_row(info: &BlockInfo, previous: Option<u64>) -> (r: String)
    ensures
        r@ == row_text(info.number, info.timestamp, info.timestamp_utc@, previous),
{
    let mut s = String::new();
    push_decimal(&mut s, info.number);
    push_char(&mut s, ',');
    push_decimal(&mut s, info.timestamp);
    push_char(&mut s, ',');
    s.append(info.timestamp_utc.as_str());
    push_char(&mut s, ',');
    match previous {
        Some(p) => {
            let delta = info.timestamp.saturating_sub(p);
            push_decimal(&mut s, delta);
        },
        None => {},
    }
    assert(s@ =~= row_text(info.number, info.timestamp, info.timestamp_utc@, previous));
    s
}

/// The state of a run: which offset comes next and the timestamp of the last row.
#[derive(Debug, Clone, Copy, PartialEq, Eq)]
pub struct Sequencer {
    pub start_block: u64,
    pub block_count: u64,
    pub block_interval: u64,
    pub offset: u64,
    pub previous: Option<u64>,
}

impl Sequencer {
    /// Offsets stay within the count, and a previous timestamp exists exactly once a
    /// row has been produced.
    pub open spec fn wf(&self) -> bool {
        &&& self.offset <= self.block_count
        &&& (self.previous is None <==> self.offset == 0)
    }

    /// Every requested block has been handled.
    pub open spec fn finished(&self) -> bool {
        self.offset >= self.block_count
    }

    /// The state before the first request.
    pub open spec fn initial(start_block: u64, block_count: u64, block_interval: u64) -> Sequencer {
        Sequencer { start_block, block_count, block_interval, offset: 0, previous: None }
    }

    /// The state after a row with timestamp `timestamp`.
    pub open spec fn advanced(self, timestamp: u64) -> Sequencer {
        Sequencer { offset: (self.offset + 1) as u64, previous: Some(timestamp), ..self }
    }

    /// A run of `block_count` blocks from `start_block`, `block_interval` apart.
    pub fn new(start_block: u64, block_count: u64, block_interval: u64) -> (r: Sequencer)
        ensures
            r == Sequencer::initial(start_block, block_count, block_interval),
            r.wf(),
    {
        Sequencer { start_block, block_count, block_interval, offset: 0, previous: None }
    }

    /// Whether every requested block has been handled.
    pub fn is_finished(&self) -> (r: bool)
        ensures
            r == self.finished(),
    {
        self.offset >= self.block_count
    }

    /// The next step: the request for the block at the current offset, or the end of
    /// the run.
    pub fn next_action(&self) -> (r: Result<Action, FetchError>)
        ensures
            self.finished() ==> r matches Ok(Action::Finish),
            !self.finished() ==> match block_number_of(
                self.start_block,
                self.offset,
                self.block_interval,
            ) {
                Some(n) => r matches Ok(Action::Fetch { block_number, body }) && block_number == n
                    && body@ == request_text(n),
                None => r matches Err(FetchError::ArithmeticOverflow { offset }) && offset
                    == self.offset,
            },
    {
        if self.offset >= self.block_count {
            return Ok(Action::Finish);
        }
        match block_number_at(self.start_block, self.offset, self.block_interval) {
            Ok(block_number) => Ok(Action::Fetch { block_number, body: request_body(block_number) }),
            Err(e) => Err(e),
        }
    }

    /// Takes the reply for the current block: `None` where the node sent no block.
    /// On success returns the block's CSV row and moves to the next offset; on an
    /// error the state is left as it was and the run ends.
    pub fn on_reply(&mut self, reply: Option<RawBlock>) -> (r: Result<String, FetchError>)
        requires
            old(self).wf(),
            !old(self).finished(),
        ensures
            final(self).wf(),
            match block_number_of(old(self).start_block, old(self).offset, old(self).block_interval) {
                None => r matches Err(FetchError::ArithmeticOverflow { offset }) && offset == old(
                    self,
                ).offset && *final(self) == *old(self),
                Some(n) => match reply {
                    None => r matches Err(FetchError::BlockNotFound { block }) && block == n
                        && *final(self) == *old(self),
                    Some(raw) => match decoded(raw.number@, raw.timestamp@) {
                        None => r matches Err(e) && decode_error(raw.number@, raw.timestamp@, e)
                            && *final(self) == *old(self),
                        Some((number, ts, text)) => r matches Ok(row) && row@ == row_text(
                            number,
                            ts,
                            text,
                            old(self).previous,
                        ) && *final(self) == old(self).advanced(ts),
                    },
                },
            },
    {
        let block = match block_number_at(self.start_block, self.offset, self.block_interval) {
            Ok(n) => n,
            Err(e) => return Err(e),
        };
        let raw = match reply {
            Some(raw) => raw,
            None => return Err(FetchError::BlockNotFound { block }),
        };
        let info = match decode_block(&raw) {
            Ok(info) => info,
            Err(e) => return Err(e),
        };
        let row = csv_row(&info, self.previous);
        self.offset = self.offset + 1;
        self.previous = Some(info.timestamp);
        Ok(row)
    }
}

/// A run of zero blocks is finished before its first request, whatever its start and
/// interval: it asks for nothing and prints no row.
pub proof fn lemma_empty_run_finishes(start_block: u64, block_interval: u64)
    ensures
        Sequencer::initial(start_block, 0, block_interval).wf(),
        Sequencer::initial(start_block, 0, block_interval).finished(),
{
}

/// The first row of a run has an empty delta column: before any row there is no previous
/// timestamp, and a row without one ends in the comma that opens the delta column.
pub proof fn lemma_first_row_delta_empty(s: Sequencer, number: u64, timestamp: u64, utc: Seq<char>)
    requires
        s.wf(),
        s.offset == 0,
    ensures
        s.previous is None,
        delta_text(timestamp, s.previous) == Seq::<char>::empty(),
        row_text(number, timestamp, utc, s.previous) == dec_text(number as nat) + seq![',']
            + dec_text(timestamp as nat) + seq![','] + utc + seq![','],
{
    assert(row_text(number, timestamp, utc, s.previous) =~= dec_text(number as nat) + seq![',']
        + dec_text(timestamp as nat) + seq![','] + utc + seq![',']);
}

/// A timestamp that does not increase on the previous one gives a delta of `0`.
pub proof fn lemma_delta_clamps_to_zero(timestamp: u64, previous: u64)
    requires
        timestamp <= previous,
    ensures
        delta_text(timestamp, Some(previous)) == seq!['0'],
{
    assert(dec_text(0) =~= seq!['0']);
}

/// Rows come in the order of the requests: with a positive interval, a later offset
/// samples a strictly higher block.
pub proof fn lemma_block_numbers_ascend(start: u64, i: u64, j: u64, interval: u64)
    requires
        i < j,
        interval > 0,
        block_number_of(start, j, interval) is Some,
    ensures
        block_number_of(start, i, interval) is Some,
        block_number_of(start, i, interval).unwrap() < block_number_of(start, j, interval).unwrap(),
{
    assert(i * interval < j * interval) by (nonlinear_arith)
        requires
            i < j,
            interval > 0,
    ;
}

} // verus!
