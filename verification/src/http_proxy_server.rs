//! The HTTP proxy handshake: reading the client's request and answering it.

use vstd::prelude::*;
use vstd::string::StringSliceAdditionalSpecFns;
use crate::handshaker::Handshaker;
use crate::http_proxy::{ProxyRequest, ProxyRequestError, spec_proxy_request};
use crate::http_util::{HeadError, HeadParse, HeadReader, HeadStep, MAX_HEAD_SIZE, httparse_request};
use crate::text::{decimal, push_all, push_decimal};

verus! {

/// The text of an error response with status `code` and body `msg`.
pub open spec fn spec_error_response(code: u16, msg: Seq<u8>) -> Seq<u8> {
    "HTTP/1.1 ".spec_bytes() + decimal(code as nat) + " Internal Error\r\n".spec_bytes()
        + "Content-Type: text/plain\r\n".spec_bytes()
        + "Content-Length: ".spec_bytes() + decimal(msg.len()) + "\r\n\r\n".spec_bytes() + msg
}

/// The text that tells a CONNECT client that its tunnel stands.
pub open spec fn connection_established() -> Seq<u8> {
    "HTTP/1.1 200 Connection Established\r\n\r\n".spec_bytes()
}

/// Writes an error response with status `code` and the plain-text body `msg`.
pub fn construct_error_http_response(code: u16, msg: &str) -> (response: Vec<u8>)
    ensures
        response@ == spec_error_response(code, msg.spec_bytes()),
{
    let body = msg.as_bytes();
    let mut out: Vec<u8> = Vec::new();
    push_all(&mut out, "HTTP/1.1 ".as_bytes());
    push_decimal(&mut out, code as usize);
    push_all(&mut out, " Internal Error\r\n".as_bytes());
    push_all(&mut out, "Content-Type: text/plain\r\n".as_bytes());
    push_all(&mut out, "Content-Length: ".as_bytes());
    push_decimal(&mut out, body.len());
    push_all(&mut out, "\r\n\r\n".as_bytes());
    push_all(&mut out, body);
    out
}

/// Why an HTTP proxy handshake fails.
#[derive(Debug, Clone, Copy, PartialEq, Eq, Structural)]
pub enum HttpProxyError {
    /// No request head could be read.
    Head(HeadError),
    /// The head asks for nothing the proxy can do.
    Request(ProxyRequestError),
}

/// What to do after a read.
#[derive(Debug, PartialEq, Eq)]
pub enum HttpProxyStep {
    /// Read again.
    NeedMore,
    /// The request, the handshake to answer it with, and the bytes read
    /// past the head.
    Accepted(ProxyRequest, HttpProxyHandshaker, Vec<u8>),
    /// Give up.
    Failed(HttpProxyError),
}

/// An HTTP proxy handshake whose request has been read.
#[derive(Debug, Clone, Copy, PartialEq, Eq, Structural)]
pub struct HttpProxyHandshaker {
    /// Whether the client asked for a tunnel with CONNECT.
    pub is_tunnel: bool,
}

impl HttpProxyHandshaker {
    /// Takes in what a read has brought; once the head is whole, reads the
    /// request out of it.
    pub fn accept(reader: &mut HeadReader, bytes: &[u8]) -> (step: HttpProxyStep)
        ensures
            ({
                let data = old(reader).filled() + bytes@;
                if bytes@.len() == 0 {
                    step == HttpProxyStep::Failed(HttpProxyError::Head(HeadError::ConnectionClosed))
                } else {
                    match httparse_request(data) {
                        HeadParse::Complete(head, n) => if n <= data.len() {
                            match spec_proxy_request(head) {
                                Ok(v) => {
                                    &&& step matches HttpProxyStep::Accepted(request, hs, remnant)
                                    &&& request@ == v
                                    &&& hs.is_tunnel == (v is Socket)
                                    &&& remnant@ =~= data.skip(n as int)
                                },
                                Err(e) => step == HttpProxyStep::Failed(HttpProxyError::Request(e)),
                            }
                        } else {
                            step == HttpProxyStep::Failed(HttpProxyError::Head(HeadError::InvalidHead))
                        },
                        HeadParse::Partial => if data.len() >= MAX_HEAD_SIZE {
                            step == HttpProxyStep::Failed(
                                HttpProxyError::Head(HeadError::HeadTooLarge),
                            )
                        } else {
                            step == HttpProxyStep::NeedMore && final(reader).filled() == data
                        },
                        HeadParse::Invalid => step == HttpProxyStep::Failed(
                            HttpProxyError::Head(HeadError::InvalidHead),
                        ),
                    }
                }
            }),
    {
        match reader.accept_request(bytes) {
            HeadStep::NeedMore => HttpProxyStep::NeedMore,
            HeadStep::Failed(e) => HttpProxyStep::Failed(HttpProxyError::Head(e)),
            HeadStep::Done(head, remnant) => match ProxyRequest::from_head(&head) {
                Ok(request) => {
                    let is_tunnel = request.can_read_initial_data();
                    HttpProxyStep::Accepted(request, HttpProxyHandshaker { is_tunnel }, remnant)
                },
                Err(e) => HttpProxyStep::Failed(HttpProxyError::Request(e)),
            },
        }
    }
}

impl Handshaker for HttpProxyHandshaker {
    /// A tunnel is acknowledged; a forwarded request is answered by the
    /// origin server alone.
    open spec fn ok_reply(&self) -> Seq<u8> {
        if self.is_tunnel {
            connection_established()
        } else {
            Seq::empty()
        }
    }

    open spec fn err_reply(&self, msg: Seq<u8>) -> Seq<u8> {
        spec_error_response(500, msg)
    }

    open spec fn reads_initial_data(&self) -> bool {
        self.is_tunnel
    }

    fn can_read_initial_data(&self) -> (yes: bool) {
        self.is_tunnel
    }

    fn respond_ok(&self) -> (reply: Vec<u8>) {
        let mut reply: Vec<u8> = Vec::new();
        if self.is_tunnel {
            push_all(&mut reply, "HTTP/1.1 200 Connection Established\r\n\r\n".as_bytes());
        }
        reply
    }

    fn respond_err(&self, msg: &str) -> (reply: Vec<u8>) {
        construct_error_http_response(500, msg)
    }
}

} // verus!
