//! Requests addressed to the tracker itself.

use vstd::prelude::*;

verus! {

/// A decoded request: its method name and its raw parameter text.
pub struct RequestMessage {
    pub method: String,
    pub params: String,
}

/// The fields of an initialize request that the tracker reads.
pub struct InitializeRequest {
    pub jsonrpc: String,
    pub id: u32,
    pub method: String,
}

/// The tracker returns no reply of its own to an initialize request; the
/// transport layer answers it.
#[allow(unused_variables)]
pub fn initialize(message: &RequestMessage) -> (r: Option<String>)
    ensures
        r is None,
{
    None
}

} // verus!
