//! The SOCKS5 handshake as the relay sees it, and the connection that a
//! SOCKS5 request asks for.

use vstd::prelude::*;
use vstd::string::StringExecFns;
use crate::handshaker::Handshaker;
use crate::outbound::{OutboundHost, OutboundHostView, OutboundRequest};
use crate::socks_stream::{IpAddress, ProxyRequest, ProxyRequestView, SocksHandshake, success_reply};
use crate::text::{decimal_text, hex_text, push_decimal_text, push_hex_text};

verus! {

/// An IPv4 address in dotted decimal.
pub open spec fn ipv4_text(ip: Seq<u8>) -> Seq<char> {
    decimal_text(ip[0] as nat) + seq!['.'] + decimal_text(ip[1] as nat) + seq!['.'] + decimal_text(
        ip[2] as nat,
    ) + seq!['.'] + decimal_text(ip[3] as nat)
}

/// Group `i` of an IPv6 address: two bytes in network order.
pub open spec fn ipv6_group(ip: Seq<u8>, i: int) -> nat {
    (ip[2 * i] as nat) * 256 + ip[2 * i + 1] as nat
}

/// The first `n` groups of an IPv6 address in hexadecimal, colons between.
pub open spec fn ipv6_groups_text(ip: Seq<u8>, n: int) -> Seq<char>
    decreases n,
{
    if n <= 0 {
        Seq::empty()
    } else if n == 1 {
        hex_text(ipv6_group(ip, 0))
    } else {
        ipv6_groups_text(ip, n - 1) + seq![':'] + hex_text(ipv6_group(ip, n - 1))
    }
}

/// An IPv6 address as its eight groups in hexadecimal, none left out.
pub open spec fn ipv6_text(ip: Seq<u8>) -> Seq<char> {
    ipv6_groups_text(ip, 8)
}

/// The host that a SOCKS5 request names: the domain, or the address as a literal.
pub open spec fn spec_host_text(request: ProxyRequestView) -> Seq<char> {
    match request {
        ProxyRequestView::WithDomain(domain, _) => domain,
        ProxyRequestView::WithIpv4(ip, _) => ipv4_text(ip),
        ProxyRequestView::WithIpv6(ip, _) => ipv6_text(ip),
    }
}

/// The port that a SOCKS5 request names.
pub open spec fn spec_port(request: ProxyRequestView) -> u16 {
    match request {
        ProxyRequestView::WithDomain(_, port) => port,
        ProxyRequestView::WithIpv4(_, port) => port,
        ProxyRequestView::WithIpv6(_, port) => port,
    }
}

/// Writes an IPv4 address in dotted decimal.
pub fn format_ipv4(ip: &[u8; 4]) -> (text: String)
    ensures
        text@ == ipv4_text(ip@),
{
    proof {
        reveal_strlit(".");
    }
    let mut text = String::new();
    push_decimal_text(&mut text, ip[0] as usize);
    text.append(".");
    push_decimal_text(&mut text, ip[1] as usize);
    text.append(".");
    push_decimal_text(&mut text, ip[2] as usize);
    text.append(".");
    push_decimal_text(&mut text, ip[3] as usize);
    assert(text@ =~= ipv4_text(ip@));
    text
}

/// Writes an IPv6 address as eight groups in hexadecimal.
pub fn format_ipv6(ip: &[u8; 16]) -> (text: String)
    ensures
        text@ == ipv6_text(ip@),
{
    let mut text = String::new();
    let mut i: usize = 0;
    while i < 8
        invariant
            0 <= i <= 8,
            text@ == ipv6_groups_text(ip@, i as int),
        decreases 8 - i,
    {
        if i > 0 {
            proof {
                reveal_strlit(":");
            }
            text.append(":");
        }
        let group: usize = (ip[2 * i] as usize) * 256 + ip[2 * i + 1] as usize;
        assert(group == ipv6_group(ip@, i as int));
        push_hex_text(&mut text, group);
        assert(text@ =~= ipv6_groups_text(ip@, i + 1));
        i += 1;
    }
    text
}

impl ProxyRequest {
    /// The connection that the request asks for: to the named host, or to
    /// the address written as a literal; without TLS, with nothing to send
    /// first.
    pub fn into_outbound_request(self) -> (req: OutboundRequest)
        ensures
            req@.host == OutboundHostView::Domain(spec_host_text(self@)),
            req.port == spec_port(self@),
            !req.tls,
            req.initial_plaintext@.len() == 0,
    {
        let (host, port) = match self {
            ProxyRequest::WithDomain(domain, port) => (domain, port),
            ProxyRequest::WithIP(IpAddress::V4(ip), port) => (format_ipv4(&ip), port),
            ProxyRequest::WithIP(IpAddress::V6(ip), port) => (format_ipv6(&ip), port),
        };
        OutboundRequest {
            host: OutboundHost::Domain(host),
            port,
            tls: false,
            initial_plaintext: Vec::new(),
        }
    }
}

/// A SOCKS5 handshake whose request has been read.
#[derive(Debug, Clone, Copy, PartialEq, Eq, Structural)]
pub struct SocksProxyHandshaker;

impl Handshaker for SocksProxyHandshaker {
    /// Success, bound to `0.0.0.0:0`.
    open spec fn ok_reply(&self) -> Seq<u8> {
        success_reply()
    }

    /// Nothing: the connection is closed silently.
    open spec fn err_reply(&self, msg: Seq<u8>) -> Seq<u8> {
        Seq::empty()
    }

    open spec fn reads_initial_data(&self) -> bool {
        true
    }

    fn can_read_initial_data(&self) -> (yes: bool) {
        true
    }

    fn respond_ok(&self) -> (reply: Vec<u8>) {
        SocksHandshake::respond_ok()
    }

    fn respond_err(&self, msg: &str) -> (reply: Vec<u8>) {
        SocksHandshake::respond_err(msg)
    }
}

} // verus!
