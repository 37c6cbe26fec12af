//! What is told of each connection to those who watch.

use vstd::prelude::*;

verus! {

/// How a connection through an egress went.
#[derive(Debug, Clone, PartialEq, Eq)]
pub enum OutboundEvent {
    Connected { host: String, outbound: String, delay_mills: usize, request_time_mills: u64 },
    Error {
        host: String,
        outbound: String,
        delay_mills: usize,
        request_time_mills: u64,
        error: String,
    },
}

} // verus!
