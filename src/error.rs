use vstd::prelude::*;
use vstd::string::*;

use crate::codec::{dec_text, push_decimal};

verus! {

/// Why fetching and formatting a block failed; each run stops at the first of these.
#[derive(Debug)]
pub enum FetchError {
    /// The HTTP exchange failed or answered with a non-success status.
    Transport { message: String },
    /// The node replied with no block at the requested height.
    BlockNotFound { block: u64 },
    /// A numeric field was not valid hexadecimal text of a 64-bit value.
    MalformedHex { text: String },
    /// The timestamp lies outside the representable calendar range.
    InvalidTimestamp { secs: u64 },
    /// The block number for this offset does not fit in 64 bits.
    ArithmeticOverflow { offset: u64 },
}

/// The one-line description of an error: the stage that failed and the value it failed on.
pub open spec fn error_text(e: FetchError) -> Seq<char> {
    match e {
        FetchError::Transport { message } => "transport error: "@ + message@,
        FetchError::BlockNotFound { block } => "block not found for requested number "@ + dec_text(
            block as nat,
        ),
        FetchError::MalformedHex { text } => "malformed hexadecimal field: "@ + text@,
        FetchError::InvalidTimestamp { secs } => "invalid block timestamp "@ + dec_text(secs as nat),
        FetchError::ArithmeticOverflow { offset } => "block number overflows 64 bits at offset "@
            + dec_text(offset as nat),
    }
}

impl FetchError {
    /// A one-line description of the error, naming the stage that failed and the value
    /// that it failed on.
    pub fn message(&self) -> (r: String)
        ensures
            r@ == error_text(*self),
    {
        let mut s = String::new();
        match self {
            FetchError::Transport { message } => {
                s.append("transport error: ");
                s.append(message.as_str());
            },
            FetchError::BlockNotFound { block } => {
                s.append("block not found for requested number ");
                push_decimal(&mut s, *block);
            },
            FetchError::MalformedHex { text } => {
                s.append("malformed hexadecimal field: ");
                s.append(text.as_str());
            },
            FetchError::InvalidTimestamp { secs } => {
                s.append("invalid block timestamp ");
                push_decimal(&mut s, *secs);
            },
            FetchError::ArithmeticOverflow { offset } => {
                s.append("block number overflows 64 bits at offset ");
                push_decimal(&mut s, *offset);
            },
        }
        assert(s@ =~= error_text(*self));
        s
    }
}

} // verus!
