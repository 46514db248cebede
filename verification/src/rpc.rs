//! The JSON-RPC request envelope that every probe and query sends.
//!
//! Both the latency probe and the block-height query round-trip the same
//! fixed JSON-RPC 2.0 request: the block-number method with an empty
//! parameter list and a fixed request id. The envelope is a constant; the
//! caller POSTs it as the request body.

use vstd::prelude::*;

verus! {

/// The request body: jsonrpc 2.0, the block-number method, no parameters,
/// request id 1.
pub open spec fn rpc_request_body_spec() -> Seq<char> {
    "{\"jsonrpc\":\"2.0\",\"method\":\"eth_blockNumber\",\"params\":[],\"id\":1}"@
}

/// The request envelope, as the exact text to send.
pub fn rpc_request_body() -> (r: &'static str)
    ensures
        r@ == rpc_request_body_spec(),
{
    "{\"jsonrpc\":\"2.0\",\"method\":\"eth_blockNumber\",\"params\":[],\"id\":1}"
}

} // verus!
