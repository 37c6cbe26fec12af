//! The egress that connects straight to the destination.

use vstd::prelude::*;
use crate::outbound::{OutboundHost, OutboundRequest};

verus! {

/// The time a direct connection may take to open, in seconds, by default.
pub const DEFAULT_CONNECTION_TIMEOUT_SECS: u64 = 10;

/// Connects straight to the destination.
#[derive(Debug, Clone, Copy, PartialEq, Eq, Structural)]
pub struct DirectOutbound {
    pub connection_timeout_secs: u64,
}

/// What to dial.
#[derive(Debug, PartialEq, Eq)]
pub enum DialTarget {
    /// The address that the name was resolved to.
    Ip(u32),
    /// The name, for the system to resolve.
    Domain(String),
}

/// How a direct connection is made.
#[derive(Debug, PartialEq, Eq)]
pub struct DirectPlan {
    pub target: DialTarget,
    pub port: u16,
    pub timeout_secs: u64,
    /// The name to present in a TLS handshake, where one is made.
    pub tls_server_name: Option<String>,
    /// What to write once the connection stands.
    pub initial_plaintext: Vec<u8>,
}

impl DirectOutbound {
    pub fn default() -> (d: DirectOutbound)
        ensures
            d.connection_timeout_secs == DEFAULT_CONNECTION_TIMEOUT_SECS,
    {
        DirectOutbound { connection_timeout_secs: DEFAULT_CONNECTION_TIMEOUT_SECS }
    }

    /// How to serve `req`: dial the address where the host was resolved to
    /// one, else the name; with TLS, present the name, never the address;
    /// port, TLS flag and first payload are the request's own.
    pub fn send(&self, req: OutboundRequest) -> (plan: DirectPlan)
        ensures
            plan.port == req.port,
            plan.timeout_secs == self.connection_timeout_secs,
            plan.initial_plaintext@ == req.initial_plaintext@,
            match req@.host.ip() {
                Some(ip) => plan.target == DialTarget::Ip(ip),
                None => plan.target matches DialTarget::Domain(d) && d@ == req@.host.host(),
            },
            match plan.tls_server_name {
                Some(name) => req.tls && name@ == req@.host.host(),
                None => !req.tls,
            },
    {
        let OutboundRequest { host, port, tls, initial_plaintext } = req;
        let (domain, ip) = match host {
            OutboundHost::Domain(d) => (d, None),
            OutboundHost::Resolved { domain, ip } => (domain, ip),
        };
        match ip {
            Some(ip) => DirectPlan {
                target: DialTarget::Ip(ip),
                port,
                timeout_secs: self.connection_timeout_secs,
                tls_server_name: if tls { Some(domain) } else { None },
                initial_plaintext,
            },
            None => {
                let name = if tls { Some(domain.clone()) } else { None };
                DirectPlan {
                    target: DialTarget::Domain(domain),
                    port,
                    timeout_secs: self.connection_timeout_secs,
                    tls_server_name: name,
                    initial_plaintext,
                }
            },
        }
    }
}

} // verus!
