//! The step before the routing tree: looking the host name up, so that
//! rules on addresses get their chance.

use vstd::prelude::*;
use crate::outbound::{OutboundHost, OutboundRequest};

verus! {

/// Resolves the host of a request before `inner` sees it.
pub struct ResolvingIPOutbound<O> {
    pub inner: O,
}

impl<O> ResolvingIPOutbound<O> {
    /// The name to look up for `req`, where its host is not resolved yet.
    pub fn name_to_resolve<'a>(&self, req: &'a OutboundRequest) -> (name: Option<&'a str>)
        ensures
            match name {
                Some(n) => req@.host is Domain && n@ == req@.host.host(),
                None => req@.host is Resolved,
            },
    {
        match &req.host {
            OutboundHost::Domain(d) => Some(d.as_str()),
            OutboundHost::Resolved { .. } => None,
        }
    }

    /// The request as `inner` gets it, once the lookup has answered
    /// `found`: the host carries the answer, nothing else changes. A failed
    /// lookup is the answer `None`.
    pub fn send(&self, req: OutboundRequest, found: Option<u32>) -> (out: OutboundRequest)
        ensures
            out@.host == req@.host.resolved_with(found),
            out.port == req.port,
            out.tls == req.tls,
            out.initial_plaintext@ == req.initial_plaintext@,
    {
        let OutboundRequest { host, port, tls, initial_plaintext } = req;
        let (host, _) = host.resolved(found);
        OutboundRequest { host, port, tls, initial_plaintext }
    }
}

} // verus!
