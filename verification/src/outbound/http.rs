//! The egress through an upstream HTTP proxy.

use vstd::prelude::*;
use vstd::string::StringSliceAdditionalSpecFns;
use vstd::utf8::encode_utf8;
use crate::http_util::HttpResponseHead;
use crate::outbound::OutboundRequest;
use crate::text::{decimal, push_all, push_decimal};

verus! {

/// An HTTP proxy to connect through.
#[derive(Debug, Clone, PartialEq, Eq)]
pub struct HttpProxyOutbound {
    pub host: String,
    pub port: u16,
    pub tls: bool,
}

/// Why the upstream proxy gives no tunnel.
#[derive(Debug, Clone, Copy, PartialEq, Eq, Structural)]
pub enum HttpProxyRefusal {
    /// The proxy answered with a status other than 200.
    NotOk,
}

/// The CONNECT request for `target:target_port`, sent to the proxy at
/// `proxy:proxy_port`.
pub open spec fn spec_connect_request(
    target: Seq<u8>,
    target_port: u16,
    proxy: Seq<u8>,
    proxy_port: u16,
) -> Seq<u8> {
    "CONNECT ".spec_bytes() + target + ":".spec_bytes() + decimal(target_port as nat)
        + " HTTP/1.1\r\nHost: ".spec_bytes() + proxy + ":".spec_bytes() + decimal(
        proxy_port as nat,
    ) + "\r\n\r\n".spec_bytes()
}

impl HttpProxyOutbound {
    /// The CONNECT request that asks the proxy for a tunnel to the
    /// destination of `req`.
    pub fn connect_request(&self, req: &OutboundRequest) -> (text: Vec<u8>)
        ensures
            text@ == spec_connect_request(
                encode_utf8(req@.host.host()),
                req.port,
                encode_utf8(self.host@),
                self.port,
            ),
    {
        let mut text: Vec<u8> = Vec::new();
        push_all(&mut text, "CONNECT ".as_bytes());
        push_all(&mut text, req.host.host().as_bytes());
        push_all(&mut text, ":".as_bytes());
        push_decimal(&mut text, req.port as usize);
        push_all(&mut text, " HTTP/1.1\r\nHost: ".as_bytes());
        push_all(&mut text, self.host.as_str().as_bytes());
        push_all(&mut text, ":".as_bytes());
        push_decimal(&mut text, self.port as usize);
        push_all(&mut text, "\r\n\r\n".as_bytes());
        text
    }

    /// Whether the proxy's answer grants the tunnel: only status 200 does.
    pub fn check_response(head: &HttpResponseHead) -> (res: Result<(), HttpProxyRefusal>)
        ensures
            res is Ok <==> head@.code == Some(200u16),
    {
        match head.code {
            Some(200) => Ok(()),
            _ => Err(HttpProxyRefusal::NotOk),
        }
    }
}

} // verus!
