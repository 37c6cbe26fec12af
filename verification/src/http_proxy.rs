//! What an HTTP proxy client asks for, read from the head of its request.

use vstd::prelude::*;
use vstd::string::StringSliceAdditionalSpecFns;
use vstd::slice::{slice_subrange, slice_to_vec};
use vstd::utf8::{decode_utf8, valid_utf8};
use crate::http_util::{HeaderView, HttpHeader, HttpRequestHead, RequestHeadView, header_views};
use crate::text::{bytes_eq_ignore_ascii_case, eq_ignore_ascii_case, find_byte, index_of, parse_u16, push_all, spec_parse_u16, string_from_utf8};
use crate::outbound::{OutboundHost, OutboundHostView, OutboundRequest};
use crate::uri::{ParsedUrl, UrlView, option_url_view, parse_url, url_parse};

verus! {

/// A plain HTTP request to forward: where to, and the request rewritten for
/// the origin server.
#[derive(Debug, PartialEq, Eq)]
pub struct ProxyRequestHttp {
    pub host: String,
    pub port: u16,
    pub tls: bool,
    pub payload: Vec<u8>,
}

/// A tunnel to open.
#[derive(Debug, PartialEq, Eq)]
pub struct ProxyRequestSocket {
    pub host: String,
    pub port: u16,
}

/// What the client asks for.
#[derive(Debug, PartialEq, Eq)]
pub enum ProxyRequest {
    Http(ProxyRequestHttp),
    Socket(ProxyRequestSocket),
}

/// The content of a [`ProxyRequest`].
pub enum ProxyRequestView {
    Http { host: Seq<char>, port: u16, tls: bool, payload: Seq<u8> },
    Socket { host: Seq<char>, port: u16 },
}

impl View for ProxyRequest {
    type V = ProxyRequestView;

    open spec fn view(&self) -> ProxyRequestView {
        match *self {
            ProxyRequest::Http(r) => ProxyRequestView::Http {
                host: r.host@,
                port: r.port,
                tls: r.tls,
                payload: r.payload@,
            },
            ProxyRequest::Socket(r) => ProxyRequestView::Socket { host: r.host@, port: r.port },
        }
    }
}

/// Why a proxy request is refused.
#[derive(Debug, Clone, Copy, PartialEq, Eq, Structural)]
pub enum ProxyRequestError {
    /// The request line has no method.
    MissingMethod,
    /// The request line has no target.
    MissingPath,
    /// The target of a CONNECT is not `host:port`.
    InvalidTarget,
    /// The port of a CONNECT is no port number.
    InvalidPort,
    /// The target is no absolute URL.
    InvalidUrl,
    /// The URL has no host.
    MissingHost,
    /// The URL names no port and its scheme has none of its own.
    MissingPort,
    /// The scheme is neither `http` nor `https`.
    UnsupportedScheme,
    /// The request line has no version.
    MissingVersion,
    /// The version is none of HTTP/1.0, HTTP/1.1, HTTP/2.0.
    UnsupportedVersion,
}

/// The end of the request line for a minor version.
pub open spec fn spec_version_text(version: u8) -> Option<Seq<u8>> {
    if version == 1 {
        Some(" HTTP/1.1\r\n".spec_bytes())
    } else if version == 0 {
        Some(" HTTP/1.0\r\n".spec_bytes())
    } else if version == 2 {
        Some(" HTTP/2.0\r\n".spec_bytes())
    } else {
        None
    }
}

/// The header lines, each ended by CRLF.
pub open spec fn header_lines(headers: Seq<HeaderView>) -> Seq<u8>
    decreases headers.len(),
{
    if headers.len() == 0 {
        Seq::empty()
    } else {
        header_lines(headers.drop_last()) + headers.last().name + ": ".spec_bytes()
            + headers.last().value + "\r\n".spec_bytes()
    }
}

/// The `?` and the query, where the URL has one.
pub open spec fn query_part(query: Option<Seq<u8>>) -> Seq<u8> {
    match query {
        Some(q) => "?".spec_bytes() + q,
        None => Seq::empty(),
    }
}

/// The request in origin form: the method, the path and query of the URL
/// without scheme and authority, the version, the headers as they came, and
/// the empty line.
pub open spec fn spec_payload(
    method: Seq<u8>,
    url: UrlView,
    version_text: Seq<u8>,
    headers: Seq<HeaderView>,
) -> Seq<u8> {
    method + " ".spec_bytes() + url.path + query_part(url.query) + version_text + header_lines(
        headers,
    ) + "\r\n".spec_bytes()
}

/// What a CONNECT to `target` asks for.
pub open spec fn spec_connect_target(target: Seq<u8>) -> Result<ProxyRequestView, ProxyRequestError> {
    let colon = index_of(target, 0x3a);
    if colon >= target.len() || !valid_utf8(target.take(colon)) {
        Err(ProxyRequestError::InvalidTarget)
    } else {
        match spec_parse_u16(target.skip(colon + 1)) {
            None => Err(ProxyRequestError::InvalidPort),
            Some(port) => Ok(
                ProxyRequestView::Socket { host: decode_utf8(target.take(colon)), port },
            ),
        }
    }
}

/// What a request for the absolute URL `url` asks for.
pub open spec fn spec_http_target(head: RequestHeadView, url: Option<UrlView>) -> Result<
    ProxyRequestView,
    ProxyRequestError,
> {
    match url {
        None => if head.method is None {
            Err(ProxyRequestError::MissingMethod)
        } else {
            Err(ProxyRequestError::InvalidUrl)
        },
        Some(u) => {
            let tls = eq_ignore_ascii_case(u.scheme, "https".spec_bytes());
            if head.method is None {
                Err(ProxyRequestError::MissingMethod)
            } else if u.host is None {
                Err(ProxyRequestError::MissingHost)
            } else if u.port is None {
                Err(ProxyRequestError::MissingPort)
            } else if !tls && !eq_ignore_ascii_case(u.scheme, "http".spec_bytes()) {
                Err(ProxyRequestError::UnsupportedScheme)
            } else if head.version is None {
                Err(ProxyRequestError::MissingVersion)
            } else if spec_version_text(head.version->0) is None {
                Err(ProxyRequestError::UnsupportedVersion)
            } else {
                Ok(
                    ProxyRequestView::Http {
                        host: u.host->0,
                        port: u.port->0,
                        tls,
                        payload: spec_payload(
                            head.method->0,
                            u,
                            spec_version_text(head.version->0)->0,
                            head.headers,
                        ),
                    },
                )
            }
        },
    }
}

/// What a request head asks of the proxy: a tunnel for CONNECT, else the
/// forwarding of a request for an absolute URL.
pub open spec fn spec_proxy_request(head: RequestHeadView) -> Result<ProxyRequestView, ProxyRequestError> {
    if head.method is None {
        Err(ProxyRequestError::MissingMethod)
    } else if head.path is None {
        Err(ProxyRequestError::MissingPath)
    } else if eq_ignore_ascii_case(head.method->0, "CONNECT".spec_bytes()) {
        spec_connect_target(head.path->0)
    } else if !valid_utf8(head.path->0) {
        Err(ProxyRequestError::InvalidUrl)
    } else {
        spec_http_target(head, url_parse(decode_utf8(head.path->0)))
    }
}

/// Whether an exec result says what a specification says.
pub open spec fn proxy_result_matches(
    got: Result<ProxyRequest, ProxyRequestError>,
    want: Result<ProxyRequestView, ProxyRequestError>,
) -> bool {
    match (got, want) {
        (Ok(r), Ok(v)) => r@ == v,
        (Err(e), Err(f)) => e == f,
        _ => false,
    }
}

fn push_header_lines(out: &mut Vec<u8>, headers: &Vec<HttpHeader>)
    ensures
        final(out)@ == old(out)@ + header_lines(header_views(headers@)),
{
    let ghost all = header_views(headers@);
    let mut i: usize = 0;
    assert(all.take(0) =~= Seq::<HeaderView>::empty());
    assert(out@ =~= old(out)@ + header_lines(all.take(0)));
    while i < headers.len()
        invariant
            0 <= i <= headers@.len(),
            all == header_views(headers@),
            out@ == old(out)@ + header_lines(all.take(i as int)),
        decreases headers@.len() - i,
    {
        let ghost before = out@;
        push_all(out, headers[i].name.as_slice());
        push_all(out, ": ".as_bytes());
        push_all(out, headers[i].value.as_slice());
        push_all(out, "\r\n".as_bytes());
        proof {
            let next = all.take(i + 1);
            assert(next.drop_last() =~= all.take(i as int));
            assert(next.last() == all[i as int]);
            assert(out@ =~= old(out)@ + header_lines(next));
        }
        i += 1;
    }
    assert(all.take(i as int) =~= all);
}

impl ProxyRequest {
    /// The connection that the request asks for: a tunnel carries nothing
    /// yet, a forwarded request is itself the first payload.
    pub fn into_outbound_request(self) -> (req: OutboundRequest)
        ensures
            match self@ {
                ProxyRequestView::Socket { host, port } => {
                    &&& req@.host == OutboundHostView::Domain(host)
                    &&& req.port == port
                    &&& !req.tls
                    &&& req.initial_plaintext@.len() == 0
                },
                ProxyRequestView::Http { host, port, tls, payload } => {
                    &&& req@.host == OutboundHostView::Domain(host)
                    &&& req.port == port
                    &&& req.tls == tls
                    &&& req.initial_plaintext@ == payload
                },
            },
    {
        match self {
            ProxyRequest::Socket(ProxyRequestSocket { host, port }) => OutboundRequest {
                host: OutboundHost::Domain(host),
                port,
                tls: false,
                initial_plaintext: Vec::new(),
            },
            ProxyRequest::Http(ProxyRequestHttp { host, port, tls, payload }) => OutboundRequest {
                host: OutboundHost::Domain(host),
                port,
                tls,
                initial_plaintext: payload,
            },
        }
    }

    /// Whether the relay may read the client's first payload before it
    /// dials: a tunnel carries none yet, a forwarded request is one.
    pub fn can_read_initial_data(&self) -> (yes: bool)
        ensures
            yes == (self@ is Socket),
    {
        match self {
            ProxyRequest::Socket(_) => true,
            ProxyRequest::Http(_) => false,
        }
    }

    /// Reads the target of a CONNECT: `host:port`.
    pub fn from_connect_target(target: &[u8]) -> (res: Result<ProxyRequest, ProxyRequestError>)
        ensures
            proxy_result_matches(res, spec_connect_target(target@)),
    {
        let colon = match find_byte(target, 0x3a) {
            Some(i) => i,
            None => { return Err(ProxyRequestError::InvalidTarget); },
        };
        let name = slice_to_vec(slice_subrange(target, 0, colon));
        assert(name@ =~= target@.take(colon as int));
        let host = match string_from_utf8(name) {
            Some(h) => h,
            None => { return Err(ProxyRequestError::InvalidTarget); },
        };
        let end = target.len();
        let port_text = slice_subrange(target, colon + 1, end);
        assert(port_text@ =~= target@.skip(colon + 1));
        match parse_u16(port_text) {
            Some(port) => Ok(ProxyRequest::Socket(ProxyRequestSocket { host, port })),
            None => Err(ProxyRequestError::InvalidPort),
        }
    }

    /// Builds the request to forward from the head and the parts of its
    /// URL: where to connect, and the request in origin form.
    pub fn from_url(head: &HttpRequestHead, url: Option<ParsedUrl>) -> (res: Result<
        ProxyRequest,
        ProxyRequestError,
    >)
        ensures
            proxy_result_matches(res, spec_http_target(head@, option_url_view(url))),
    {
        let method = match &head.method {
            Some(m) => m,
            None => { return Err(ProxyRequestError::MissingMethod); },
        };
        let url = match url {
            Some(u) => u,
            None => { return Err(ProxyRequestError::InvalidUrl); },
        };
        let ghost view = url@;
        let tls = bytes_eq_ignore_ascii_case(url.scheme.as_slice(), "https".as_bytes());
        let plain = bytes_eq_ignore_ascii_case(url.scheme.as_slice(), "http".as_bytes());
        let ParsedUrl { scheme, host, port, path, query, password } = url;
        let host = match host {
            Some(h) => h,
            None => { return Err(ProxyRequestError::MissingHost); },
        };
        let port = match port {
            Some(p) => p,
            None => { return Err(ProxyRequestError::MissingPort); },
        };
        if !tls && !plain {
            return Err(ProxyRequestError::UnsupportedScheme);
        }
        let version = match head.version {
            Some(v) => v,
            None => { return Err(ProxyRequestError::MissingVersion); },
        };
        let version_text = if version == 1 {
            " HTTP/1.1\r\n"
        } else if version == 0 {
            " HTTP/1.0\r\n"
        } else if version == 2 {
            " HTTP/2.0\r\n"
        } else {
            return Err(ProxyRequestError::UnsupportedVersion);
        };
        let mut payload: Vec<u8> = Vec::new();
        push_all(&mut payload, method.as_slice());
        push_all(&mut payload, " ".as_bytes());
        push_all(&mut payload, path.as_slice());
        let ghost before = payload@;
        match &query {
            Some(q) => {
                push_all(&mut payload, "?".as_bytes());
                push_all(&mut payload, q.as_slice());
            },
            None => {},
        }
        assert(payload@ =~= before + query_part(view.query));
        push_all(&mut payload, version_text.as_bytes());
        push_header_lines(&mut payload, &head.headers);
        push_all(&mut payload, "\r\n".as_bytes());
        Ok(ProxyRequest::Http(ProxyRequestHttp { host, port, tls, payload }))
    }

    /// Reads what the head of a proxy request asks for.
    pub fn from_head(head: &HttpRequestHead) -> (res: Result<ProxyRequest, ProxyRequestError>)
        ensures
            proxy_result_matches(res, spec_proxy_request(head@)),
    {
        let method = match &head.method {
            Some(m) => m,
            None => { return Err(ProxyRequestError::MissingMethod); },
        };
        let path = match &head.path {
            Some(p) => p,
            None => { return Err(ProxyRequestError::MissingPath); },
        };
        if bytes_eq_ignore_ascii_case(method.as_slice(), "CONNECT".as_bytes()) {
            return Self::from_connect_target(path.as_slice());
        }
        let target = match string_from_utf8(slice_to_vec(path.as_slice())) {
            Some(t) => t,
            None => { return Err(ProxyRequestError::InvalidUrl); },
        };
        let url = parse_url(target.as_str());
        Self::from_url(head, url)
    }
}

} // verus!
