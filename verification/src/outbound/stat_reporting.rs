//! An egress that tells how each of its connections went.

use vstd::prelude::*;
use crate::stats_server::OutboundEvent;

verus! {

/// The egress `inner` under the name that its events carry.
pub struct StatReportingOutbound<O> {
    pub name: String,
    pub inner: O,
}

impl<O> StatReportingOutbound<O> {
    /// The event for a connection to `host` that was asked for at
    /// `request_time_mills` and took `delay_mills` to stand or to fail with
    /// `error`.
    pub fn report(
        &self,
        host: String,
        delay_mills: usize,
        request_time_mills: u64,
        error: Option<String>,
    ) -> (event: OutboundEvent)
        ensures
            match error {
                None => event matches OutboundEvent::Connected {
                    host: h,
                    outbound,
                    delay_mills: d,
                    request_time_mills: t,
                } && h == host && outbound@ == self.name@ && d == delay_mills && t
                    == request_time_mills,
                Some(e) => event matches OutboundEvent::Error {
                    host: h,
                    outbound,
                    delay_mills: d,
                    request_time_mills: t,
                    error: msg,
                } && h == host && outbound@ == self.name@ && d == delay_mills && t
                    == request_time_mills && msg == e,
            },
    {
        match error {
            None => OutboundEvent::Connected {
                host,
                outbound: self.name.clone(),
                delay_mills,
                request_time_mills,
            },
            Some(error) => OutboundEvent::Error {
                host,
                outbound: self.name.clone(),
                delay_mills,
                request_time_mills,
                error,
            },
        }
    }
}

} // verus!
