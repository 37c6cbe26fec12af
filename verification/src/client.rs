//! What a client keeps about its tunnel server and its traffic.

use vstd::prelude::*;
use crate::protocol_config::Config;

verus! {

/// The tunnel server that a client sends its requests to.
pub type UpstreamConfiguration = Config;

/// The traffic of a client so far.
#[derive(Debug, Clone, PartialEq, Eq)]
pub struct Statistic {
    pub bytes_sent: usize,
    pub bytes_received: usize,
    /// How long the last connections took to open, in milliseconds.
    pub last_delays: Vec<u64>,
}

impl Default for Statistic {
    fn default() -> (s: Statistic)
        ensures
            s.bytes_sent == 0,
            s.bytes_received == 0,
            s.last_delays@.len() == 0,
    {
        Statistic { bytes_sent: 0, bytes_received: 0, last_delays: Vec::new() }
    }
}

} // verus!
