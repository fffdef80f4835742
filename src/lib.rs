// Block timestamp sampling over Ethereum JSON-RPC, verified with Verus.
//
// `codec` decodes and renders hexadecimal and decimal text, `utc` renders Unix
// timestamps as UTC calendar text, and `fetch` holds the sequencer that decides
// which block to request next and turns each reply into a CSV row.

pub mod codec;
pub mod error;
pub mod fetch;
pub mod utc;

pub use codec::{decimal_string, hex_quantity, parse_hex_u64};
pub use error::FetchError;
pub use fetch::{
    block_number_at, csv_row, decode_block, request_body, Action, BlockInfo, RawBlock, Sequencer,
};
pub use utc::{format_civil, format_utc, CivilTime};
