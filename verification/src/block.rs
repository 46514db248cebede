//! Assembling the block-height answer from the node's reply.
//!
//! The query keeps partial information even on the degraded path: a missing
//! (or non-string) `result` field falls back to the raw form `"0x0"`, and a
//! raw form that does not parse keeps its text while the numeric value
//! defaults to 0. Nothing here fails; degraded input degrades the answer.

use vstd::prelude::*;
use crate::hex::{hex_to_u64, hex_to_u64_chars};

verus! {

/// What one block-height query reports: the raw hexadecimal form as the node
/// sent it, the parsed height, and the configured chain label.
pub struct BlockHeightResult {
    pub raw_hex: String,
    pub value: u64,
    pub chain_label: String,
}

/// The numeric height a raw string yields: its base-16 parse, or 0 when it
/// cannot be parsed.
pub open spec fn height_of(raw: Seq<char>) -> u64 {
    match hex_to_u64_chars(raw) {
        Some(v) => v,
        None => 0,
    }
}

/// Builds the result of one query. `result` is the `result` field of the
/// node's reply when it held a string, `None` when the field was missing or
/// held something else; then the raw form defaults to `"0x0"`. The value is
/// the parse of the raw form, 0 when it is unparsable, and the raw form is
/// surfaced unchanged either way.
pub fn block_height_result(result: Option<String>, chain_label: String) -> (r: BlockHeightResult)
    ensures
        match result {
            Some(s) => r.raw_hex@ == s@,
            None => r.raw_hex@ == "0x0"@,
        },
        r.value == height_of(r.raw_hex@),
        r.chain_label@ == chain_label@,
{
    let raw_hex: String = match result {
        Some(s) => s,
        None => "0x0".to_owned(),
    };
    let value: u64 = match hex_to_u64(raw_hex.as_str()) {
        Some(v) => v,
        None => 0,
    };
    BlockHeightResult { raw_hex, value, chain_label }
}

} // verus!
