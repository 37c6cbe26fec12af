//! What the router hands to an egress, and the kinds of egress.

use vstd::prelude::*;

pub mod cn;
pub mod direct;
pub mod either;
pub mod http;
pub mod ip_divert;
pub mod protocol;
pub mod resolving_ip;
pub mod site_divert;
pub mod stat_reporting;

verus! {

/// Where a connection goes: a name, or a name with the address that a
/// lookup has found for it, if it found one. Addresses are IPv4, as numbers.
#[derive(Debug, Clone, PartialEq, Eq)]
pub enum OutboundHost {
    Domain(String),
    Resolved { domain: String, ip: Option<u32> },
}

/// The content of an [`OutboundHost`].
pub enum OutboundHostView {
    Domain(Seq<char>),
    Resolved { domain: Seq<char>, ip: Option<u32> },
}

impl View for OutboundHost {
    type V = OutboundHostView;

    open spec fn view(&self) -> OutboundHostView {
        match *self {
            OutboundHost::Domain(d) => OutboundHostView::Domain(d@),
            OutboundHost::Resolved { domain, ip } => OutboundHostView::Resolved { domain: domain@, ip },
        }
    }
}

impl OutboundHostView {
    /// The name.
    pub open spec fn host(self) -> Seq<char> {
        match self {
            OutboundHostView::Domain(d) => d,
            OutboundHostView::Resolved { domain, .. } => domain,
        }
    }

    /// The address, where a lookup has found one.
    pub open spec fn ip(self) -> Option<u32> {
        match self {
            OutboundHostView::Domain(_) => None,
            OutboundHostView::Resolved { ip, .. } => ip,
        }
    }

    /// The host once a lookup has answered `found`: a host that was
    /// resolved before stays as it was.
    pub open spec fn resolved_with(self, found: Option<u32>) -> OutboundHostView {
        match self {
            OutboundHostView::Domain(d) => OutboundHostView::Resolved { domain: d, ip: found },
            OutboundHostView::Resolved { .. } => self,
        }
    }
}

impl OutboundHost {
    /// The name.
    pub fn host(&self) -> (name: &str)
        ensures
            name@ == self@.host(),
    {
        match self {
            OutboundHost::Domain(d) => d.as_str(),
            OutboundHost::Resolved { domain, .. } => domain.as_str(),
        }
    }

    /// The address, where a lookup has found one.
    pub fn ip(&self) -> (ip: Option<u32>)
        ensures
            ip == self@.ip(),
    {
        match self {
            OutboundHost::Domain(_) => None,
            OutboundHost::Resolved { ip, .. } => *ip,
        }
    }

    /// Whether the name has yet to be looked up.
    pub fn needs_lookup(&self) -> (yes: bool)
        ensures
            yes == (self@ is Domain),
    {
        match self {
            OutboundHost::Domain(_) => true,
            OutboundHost::Resolved { .. } => false,
        }
    }

    /// Takes the answer `found` of a lookup of the name and returns the
    /// address to use. A host that was resolved before keeps its address.
    pub fn resolved(self, found: Option<u32>) -> (out: (OutboundHost, Option<u32>))
        ensures
            out.0@ == self@.resolved_with(found),
            out.1 == self@.resolved_with(found).ip(),
    {
        match self {
            OutboundHost::Domain(domain) => (OutboundHost::Resolved { domain, ip: found }, found),
            OutboundHost::Resolved { domain, ip } => (OutboundHost::Resolved { domain, ip }, ip),
        }
    }
}

/// One connection to make.
#[derive(Debug, Clone, PartialEq, Eq)]
pub struct OutboundRequest {
    pub host: OutboundHost,
    pub port: u16,
    pub tls: bool,
    pub initial_plaintext: Vec<u8>,
}

/// The content of an [`OutboundRequest`].
pub struct OutboundRequestView {
    pub host: OutboundHostView,
    pub port: u16,
    pub tls: bool,
    pub initial_plaintext: Seq<u8>,
}

impl View for OutboundRequest {
    type V = OutboundRequestView;

    open spec fn view(&self) -> OutboundRequestView {
        OutboundRequestView {
            host: self.host@,
            port: self.port,
            tls: self.tls,
            initial_plaintext: self.initial_plaintext@,
        }
    }
}

/// A rule on the address of a request.
pub trait IpRule {
    /// Whether the rule holds of an address, or of the lack of one.
    spec fn holds(&self, ip: Option<u32>) -> bool;

    fn test(&self, ip: Option<u32>) -> (yes: bool)
        ensures
            yes == self.holds(ip),
    ;
}

/// A rule on the host name of a request.
pub trait SiteRule {
    /// Whether the rule holds of a name.
    spec fn holds(&self, host: Seq<char>) -> bool;

    fn test(&self, host: &str) -> (yes: bool)
        ensures
            yes == self.holds(host@),
    ;
}

} // verus!
