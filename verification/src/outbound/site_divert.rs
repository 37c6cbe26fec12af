//! A fork in the routing tree that looks at the host name.

use vstd::prelude::*;
use crate::outbound::either::EitherOutbound;
use crate::outbound::{OutboundRequest, SiteRule};

verus! {

/// Sends a request through `outbound_a` where there is one and the rule
/// holds of the request's host name, else through `outbound_b`.
pub struct SiteDivertOutbound<O1, O2, F> {
    pub outbound_a: Option<O1>,
    pub outbound_b: O2,
    pub should_use_a: F,
}

impl<O1, O2, F: SiteRule> SiteDivertOutbound<O1, O2, F> {
    /// Whether a request goes through `outbound_a`.
    pub open spec fn takes_a(&self, req: OutboundRequest) -> bool {
        self.outbound_a is Some && self.should_use_a.holds(req@.host.host())
    }

    /// The egress for `req`.
    pub fn select(&self, req: &OutboundRequest) -> (choice: EitherOutbound<&O1, &O2>)
        ensures
            match choice {
                EitherOutbound::Left(a) => self.takes_a(*req) && self.outbound_a == Some(*a),
                EitherOutbound::Right(b) => !self.takes_a(*req) && *b == self.outbound_b,
            },
    {
        match &self.outbound_a {
            Some(a) => {
                if self.should_use_a.test(req.host.host()) {
                    return EitherOutbound::Left(a);
                }
            },
            None => {},
        }
        EitherOutbound::Right(&self.outbound_b)
    }
}

} // verus!
