//! The handshake in disguise: one HTTP/1.1 request and one response that
//! read as a WebSocket upgrade and carry the sealed inner messages.

use vstd::prelude::*;
use vstd::string::StringSliceAdditionalSpecFns;
use vstd::utf8::{decode_utf8, encode_utf8, valid_utf8};
use vstd::slice::{slice_subrange, slice_to_vec};
use crate::http_util::{HeaderView, HttpHeaderExt, HttpRequestHead, HttpResponseHead, RequestHeadView, ResponseHeadView, spec_header_value};
use crate::key_util::{random_index, sha1, sha1_digest};
use crate::protocol;
use crate::protocol::{ProtocolError, SLASH, base64_decode, base64_encode, base64url_decode, base64url_encode, lemma_without_slashes_concat, max_payload, spec_decode_path, spec_open, without_slashes};
use crate::text::{bytes_eq_ignore_ascii_case, eq_ignore_ascii_case, push_all, string_from_utf8};

verus! {

/// A request to the tunnel server with what its disguise needs.
#[derive(Debug, PartialEq)]
pub struct Request {
    pub request: protocol::Request,
    pub websocket_key: Vec<u8>,
    pub host: String,
}

/// A response of the tunnel server with the key that it answers.
#[derive(Debug, PartialEq)]
pub struct Response {
    pub response: protocol::Response,
    pub websocket_key: Vec<u8>,
}

/// What the server reads out of a disguised request: the archived inner
/// request, the WebSocket key, and the `Host` header.
#[derive(Debug, PartialEq, Eq)]
pub struct ParsedRequest {
    pub archived: Vec<u8>,
    pub websocket_key: Vec<u8>,
    pub host: String,
}

/// The content of a [`ParsedRequest`].
pub struct ParsedRequestView {
    pub archived: Seq<u8>,
    pub websocket_key: Seq<u8>,
    pub host: Seq<char>,
}

impl View for ParsedRequest {
    type V = ParsedRequestView;

    open spec fn view(&self) -> ParsedRequestView {
        ParsedRequestView {
            archived: self.archived@,
            websocket_key: self.websocket_key@,
            host: self.host@,
        }
    }
}

/// What the client reads out of a disguised response: the archived inner
/// response and the bytes of the accept key.
#[derive(Debug, PartialEq, Eq)]
pub struct ParsedResponse {
    pub archived: Vec<u8>,
    pub websocket_key: Vec<u8>,
}

/// Why a disguised message is refused.
#[derive(Debug, Clone, Copy, PartialEq, Eq, Structural)]
pub enum CamoError {
    /// The request line has no target.
    MissingPath,
    /// The sealed payload does not decode or open.
    Sealed(ProtocolError),
    /// No `Upgrade: websocket` header.
    MissingUpgrade,
    /// No `Sec-WebSocket-Key` header that is base64.
    MissingWebsocketKey,
    /// No `X-Cache-Result` header.
    MissingResult,
    /// The `X-Cache-Result` header is not base64.
    InvalidResult,
    /// No `Sec-WebSocket-Accept` header.
    MissingAccept,
    /// The `Sec-WebSocket-Accept` header is not base64.
    InvalidAccept,
}

/// How many bytes of the sealed text go into the request line.
pub const PATH_LIMIT: usize = 25;

/// The number of methods to draw from.
pub const METHOD_COUNT: usize = 4;

/// The number of user agents to draw from.
pub const USER_AGENT_COUNT: usize = 5;

/// The methods a request is sent with.
pub open spec fn spec_method(i: int) -> Seq<u8> {
    if i == 0 {
        "GET".spec_bytes()
    } else if i == 1 {
        "POST".spec_bytes()
    } else if i == 2 {
        "PATCH".spec_bytes()
    } else {
        "PUT".spec_bytes()
    }
}

/// The browsers a request pretends to come from.
pub open spec fn spec_user_agent(i: int) -> Seq<u8> {
    if i == 0 {
        "Mozilla/5.0 (Windows NT 10.0; Win64; x64) AppleWebKit/537.36 (KHTML, like Gecko) Chrome/139.0.0.0 Safari/537.36".spec_bytes()
    } else if i == 1 {
        "Mozilla/5.0 (Macintosh; Intel Mac OS X 10_15_7) AppleWebKit/537.36 (KHTML, like Gecko) Chrome/139.0.0.0 Safari/537.36".spec_bytes()
    } else if i == 2 {
        "Mozilla/5.0 (Windows NT 10.0; Win64; x64) AppleWebKit/537.36 (KHTML, like Gecko) Chrome/138.0.0.0 Safari/537.36".spec_bytes()
    } else if i == 3 {
        "Mozilla/5.0 (Macintosh; Intel Mac OS X 10_15_7) AppleWebKit/537.36 (KHTML, like Gecko) Chrome/138.0.0.0 Safari/537.36".spec_bytes()
    } else {
        "Mozilla/5.0 (Windows NT 10.0; Win64; x64; rv:141.0) Gecko/20100101 Firefox/141.0".spec_bytes()
    }
}

/// Method number `i`.
pub fn method(i: usize) -> (text: &'static str)
    requires
        i < METHOD_COUNT,
    ensures
        text.spec_bytes() == spec_method(i as int),
{
    if i == 0 {
        "GET"
    } else if i == 1 {
        "POST"
    } else if i == 2 {
        "PATCH"
    } else {
        "PUT"
    }
}

/// User agent number `i`.
pub fn user_agent(i: usize) -> (text: &'static str)
    requires
        i < USER_AGENT_COUNT,
    ensures
        text.spec_bytes() == spec_user_agent(i as int),
{
    if i == 0 {
        "Mozilla/5.0 (Windows NT 10.0; Win64; x64) AppleWebKit/537.36 (KHTML, like Gecko) Chrome/139.0.0.0 Safari/537.36"
    } else if i == 1 {
        "Mozilla/5.0 (Macintosh; Intel Mac OS X 10_15_7) AppleWebKit/537.36 (KHTML, like Gecko) Chrome/139.0.0.0 Safari/537.36"
    } else if i == 2 {
        "Mozilla/5.0 (Windows NT 10.0; Win64; x64) AppleWebKit/537.36 (KHTML, like Gecko) Chrome/138.0.0.0 Safari/537.36"
    } else if i == 3 {
        "Mozilla/5.0 (Macintosh; Intel Mac OS X 10_15_7) AppleWebKit/537.36 (KHTML, like Gecko) Chrome/138.0.0.0 Safari/537.36"
    } else {
        "Mozilla/5.0 (Windows NT 10.0; Win64; x64; rv:141.0) Gecko/20100101 Firefox/141.0"
    }
}

/// The part of the sealed text that goes into the request line.
pub open spec fn path_part(sealed: Seq<u8>) -> Seq<u8> {
    if sealed.len() <= PATH_LIMIT {
        sealed
    } else {
        sealed.take(PATH_LIMIT as int)
    }
}

/// The part of the sealed text that goes into the overflow header.
pub open spec fn overflow_part(sealed: Seq<u8>) -> Seq<u8> {
    if sealed.len() <= PATH_LIMIT {
        Seq::empty()
    } else {
        sealed.skip(PATH_LIMIT as int)
    }
}

/// The overflow header line, where there is an overflow.
pub open spec fn overflow_line(sealed: Seq<u8>) -> Seq<u8> {
    if overflow_part(sealed).len() > 0 {
        "Authorization: ".spec_bytes() + overflow_part(sealed) + "\r\n".spec_bytes()
    } else {
        Seq::empty()
    }
}

/// The text of a disguised request.
pub open spec fn spec_request_text(
    method: Seq<u8>,
    sealed: Seq<u8>,
    host: Seq<u8>,
    key_text: Seq<u8>,
    agent: Seq<u8>,
) -> Seq<u8> {
    method + " /".spec_bytes() + path_part(sealed) + " HTTP/1.1\r\n".spec_bytes()
        + "Host: ".spec_bytes() + host + "\r\n".spec_bytes()
        + "Upgrade: websocket\r\n".spec_bytes()
        + "Connection: Upgrade\r\n".spec_bytes()
        + "Sec-WebSocket-Version: 14\r\n".spec_bytes()
        + "Sec-WebSocket-Key: ".spec_bytes() + key_text + "\r\n".spec_bytes()
        + overflow_line(sealed)
        + "User-Agent: ".spec_bytes() + agent + "\r\n".spec_bytes()
        + "\r\n".spec_bytes()
}

/// The identifier that the accept key is derived with.
pub open spec fn websocket_guid() -> Seq<u8> {
    "258EAFA5-E914-47DA-95CA-C5AB0DC85B11".spec_bytes()
}

/// The accept key that answers a WebSocket key, as text.
pub open spec fn spec_accept_text(websocket_key: Seq<u8>) -> Seq<u8> {
    base64url_encode(sha1(websocket_key + websocket_guid()))
}

/// The text of a disguised response.
pub open spec fn spec_response_text(accept_text: Seq<u8>, result_text: Seq<u8>) -> Seq<u8> {
    "HTTP/1.1 101 Switching Protocols\r\n".spec_bytes()
        + "Upgrade: websocket\r\n".spec_bytes()
        + "Connection: Upgrade\r\n".spec_bytes()
        + "Sec-WebSocket-Accept: ".spec_bytes() + accept_text + "\r\n".spec_bytes()
        + "X-Cache-Result: ".spec_bytes() + result_text + "\r\n".spec_bytes()
        + "\r\n".spec_bytes()
}

/// Writes a disguised request around the sealed text `sealed`.
pub fn encode_request(method: &str, sealed: &[u8], host: &str, key_text: &[u8], agent: &str) -> (out: Vec<u8>)
    ensures
        out@ == spec_request_text(
            method.spec_bytes(),
            sealed@,
            host.spec_bytes(),
            key_text@,
            agent.spec_bytes(),
        ),
{
    let mut out: Vec<u8> = Vec::new();
    let cut = if sealed.len() <= PATH_LIMIT { sealed.len() } else { PATH_LIMIT };
    let path = slice_subrange(sealed, 0, cut);
    let overflow = slice_subrange(sealed, cut, sealed.len());
    assert(path@ =~= path_part(sealed@));
    assert(overflow@ =~= overflow_part(sealed@));
    push_all(&mut out, method.as_bytes());
    push_all(&mut out, " /".as_bytes());
    push_all(&mut out, path);
    push_all(&mut out, " HTTP/1.1\r\n".as_bytes());
    push_all(&mut out, "Host: ".as_bytes());
    push_all(&mut out, host.as_bytes());
    push_all(&mut out, "\r\n".as_bytes());
    push_all(&mut out, "Upgrade: websocket\r\n".as_bytes());
    push_all(&mut out, "Connection: Upgrade\r\n".as_bytes());
    push_all(&mut out, "Sec-WebSocket-Version: 14\r\n".as_bytes());
    push_all(&mut out, "Sec-WebSocket-Key: ".as_bytes());
    push_all(&mut out, key_text);
    push_all(&mut out, "\r\n".as_bytes());
    let ghost before = out@;
    if overflow.len() > 0 {
        push_all(&mut out, "Authorization: ".as_bytes());
        push_all(&mut out, overflow);
        push_all(&mut out, "\r\n".as_bytes());
        assert(out@ =~= before + overflow_line(sealed@));
    } else {
        assert(out@ =~= before + overflow_line(sealed@));
    }
    push_all(&mut out, "User-Agent: ".as_bytes());
    push_all(&mut out, agent.as_bytes());
    push_all(&mut out, "\r\n".as_bytes());
    push_all(&mut out, "\r\n".as_bytes());
    out
}

/// Writes a disguised response around the two header texts.
pub fn encode_response(accept_text: &[u8], result_text: &[u8]) -> (out: Vec<u8>)
    ensures
        out@ == spec_response_text(accept_text@, result_text@),
{
    let mut out: Vec<u8> = Vec::new();
    push_all(&mut out, "HTTP/1.1 101 Switching Protocols\r\n".as_bytes());
    push_all(&mut out, "Upgrade: websocket\r\n".as_bytes());
    push_all(&mut out, "Connection: Upgrade\r\n".as_bytes());
    push_all(&mut out, "Sec-WebSocket-Accept: ".as_bytes());
    push_all(&mut out, accept_text);
    push_all(&mut out, "\r\n".as_bytes());
    push_all(&mut out, "X-Cache-Result: ".as_bytes());
    push_all(&mut out, result_text);
    push_all(&mut out, "\r\n".as_bytes());
    push_all(&mut out, "\r\n".as_bytes());
    out
}

/// The overflow that a request carries: the value of its `Authorization`
/// header, or nothing.
pub open spec fn spec_overflow(headers: Seq<HeaderView>) -> Seq<u8> {
    match spec_header_value(headers, "Authorization".spec_bytes()) {
        Some(v) => v,
        None => Seq::empty(),
    }
}

/// Whether the headers ask for an upgrade to `websocket`, in any case.
pub open spec fn spec_has_upgrade(headers: Seq<HeaderView>) -> bool {
    match spec_header_value(headers, "upgrade".spec_bytes()) {
        Some(v) => eq_ignore_ascii_case(v, "websocket".spec_bytes()),
        None => false,
    }
}

/// The bytes of the header `name`, read as base64.
pub open spec fn spec_base64_header(headers: Seq<HeaderView>, name: Seq<u8>) -> Option<Seq<u8>> {
    match spec_header_value(headers, name) {
        Some(v) => base64url_decode(v),
        None => None,
    }
}

/// The `Host` header as text, or the empty text where there is none or it
/// is not UTF-8.
pub open spec fn spec_host(headers: Seq<HeaderView>) -> Seq<char> {
    match spec_header_value(headers, "Host".spec_bytes()) {
        Some(v) => if valid_utf8(v) {
            decode_utf8(v)
        } else {
            Seq::empty()
        },
        None => Seq::empty(),
    }
}

/// What a disguised request holds, or why it is refused. The sealed text is
/// the request target followed by the overflow header; the seal is opened
/// before the headers are looked at.
pub open spec fn spec_parse_request(head: RequestHeadView, key: Seq<u8>) -> Result<
    ParsedRequestView,
    CamoError,
> {
    match head.path {
        None => Err(CamoError::MissingPath),
        Some(path) => match spec_decode_path(key, path + spec_overflow(head.headers)) {
            Err(e) => Err(CamoError::Sealed(e)),
            Ok(archived) => if !spec_has_upgrade(head.headers) {
                Err(CamoError::MissingUpgrade)
            } else {
                match spec_base64_header(head.headers, "Sec-WebSocket-Key".spec_bytes()) {
                    None => Err(CamoError::MissingWebsocketKey),
                    Some(websocket_key) => Ok(
                        ParsedRequestView {
                            archived,
                            websocket_key,
                            host: spec_host(head.headers),
                        },
                    ),
                }
            },
        },
    }
}

/// What a disguised response holds, or why it is refused. Both headers are
/// decoded before the seal is opened.
pub open spec fn spec_parse_response(head: ResponseHeadView, key: Seq<u8>) -> Result<
    (Seq<u8>, Seq<u8>),
    CamoError,
> {
    match spec_header_value(head.headers, "X-Cache-Result".spec_bytes()) {
        None => Err(CamoError::MissingResult),
        Some(text) => match base64url_decode(text) {
            None => Err(CamoError::InvalidResult),
            Some(sealed) => match spec_header_value(
                head.headers,
                "Sec-WebSocket-Accept".spec_bytes(),
            ) {
                None => Err(CamoError::MissingAccept),
                Some(accept) => match base64url_decode(accept) {
                    None => Err(CamoError::InvalidAccept),
                    Some(websocket_key) => match spec_open(key, sealed) {
                        Err(e) => Err(CamoError::Sealed(e)),
                        Ok(archived) => Ok((archived, websocket_key)),
                    },
                },
            },
        },
    }
}

/// A sealed text cut into request target and overflow decodes as the whole.
pub proof fn lemma_cut_text_decodes(key: Seq<u8>, sealed: Seq<u8>)
    ensures
        spec_decode_path(key, seq![SLASH] + path_part(sealed) + overflow_part(sealed))
            == spec_decode_path(key, sealed),
{
    let slash = seq![SLASH];
    assert(path_part(sealed) + overflow_part(sealed) =~= sealed);
    assert(slash + path_part(sealed) + overflow_part(sealed) =~= slash + sealed);
    lemma_without_slashes_concat(slash, sealed);
    reveal_with_fuel(without_slashes, 2);
    assert(slash.drop_last() =~= Seq::<u8>::empty());
    assert(without_slashes(slash) =~= Seq::<u8>::empty());
    assert(Seq::<u8>::empty() + without_slashes(sealed) =~= without_slashes(sealed));
}

/// A head that carries a sealed text as a disguised request does, cut into
/// request target and overflow header, with the upgrade header and a key,
/// reads back as what was sealed and the key.
pub proof fn lemma_request_reads_back(
    head: RequestHeadView,
    key: Seq<u8>,
    sealed: Seq<u8>,
    archived: Seq<u8>,
    websocket_key: Seq<u8>,
)
    requires
        spec_decode_path(key, sealed) == Ok::<Seq<u8>, ProtocolError>(archived),
        head.path == Some(seq![SLASH] + path_part(sealed)),
        spec_overflow(head.headers) == overflow_part(sealed),
        spec_has_upgrade(head.headers),
        spec_base64_header(head.headers, "Sec-WebSocket-Key".spec_bytes()) == Some(websocket_key),
    ensures
        spec_parse_request(head, key) == Ok::<ParsedRequestView, CamoError>(
            ParsedRequestView { archived, websocket_key, host: spec_host(head.headers) },
        ),
{
    lemma_cut_text_decodes(key, sealed);
}

/// A head that carries a seal and an accept key as a disguised response
/// does reads back as what was sealed and the bytes of the accept key.
pub proof fn lemma_response_reads_back(
    head: ResponseHeadView,
    key: Seq<u8>,
    sealed: Seq<u8>,
    archived: Seq<u8>,
    accept: Seq<u8>,
)
    requires
        spec_open(key, sealed) == Ok::<Seq<u8>, ProtocolError>(archived),
        spec_base64_header(head.headers, "X-Cache-Result".spec_bytes()) == Some(sealed),
        spec_base64_header(head.headers, "Sec-WebSocket-Accept".spec_bytes()) == Some(accept),
    ensures
        spec_parse_response(head, key) == Ok::<(Seq<u8>, Seq<u8>), CamoError>((archived, accept)),
{
}

impl Request {
    /// Reads a disguised request: opens the sealed text under
    /// `encrypt_key`, then asks for the upgrade header and the WebSocket key.
    pub fn parse(head: &HttpRequestHead, encrypt_key: &[u8; 32]) -> (res: Result<ParsedRequest, CamoError>)
        ensures
            match (res, spec_parse_request(head@, encrypt_key@)) {
                (Ok(got), Ok(want)) => got@ == want,
                (Err(e), Err(f)) => e == f,
                _ => false,
            },
    {
        let path = match &head.path {
            Some(p) => p,
            None => { return Err(CamoError::MissingPath); },
        };
        let mut sealed_text: Vec<u8> = Vec::new();
        push_all(&mut sealed_text, path.as_slice());
        match head.headers.get_header_value("Authorization") {
            Some(v) => push_all(&mut sealed_text, v),
            None => {},
        }
        assert(sealed_text@ =~= path@ + spec_overflow(head@.headers));
        let archived =
            match protocol::Request::deserialize_from_url_path_segments(sealed_text.as_slice(), encrypt_key) {
            Ok(a) => a,
            Err(e) => { return Err(CamoError::Sealed(e)); },
        };
        let upgrade = match head.headers.get_header_value("upgrade") {
            Some(v) => bytes_eq_ignore_ascii_case(v, "websocket".as_bytes()),
            None => false,
        };
        if !upgrade {
            return Err(CamoError::MissingUpgrade);
        }
        let websocket_key = match head.headers.get_header_value("Sec-WebSocket-Key") {
            Some(v) => match base64_decode(v) {
                Some(k) => k,
                None => { return Err(CamoError::MissingWebsocketKey); },
            },
            None => { return Err(CamoError::MissingWebsocketKey); },
        };
        let host = match head.headers.get_header_value("Host") {
            Some(v) => match string_from_utf8(slice_to_vec(v)) {
                Some(h) => h,
                None => String::new(),
            },
            None => String::new(),
        };
        Ok(ParsedRequest { archived, websocket_key, host })
    }

    /// Writes the disguised request: the archived inner request sealed
    /// under `encrypt_key`, a method and a user agent drawn at random.
    /// Whatever is drawn, the sealed text in it decodes to the archive.
    pub fn send_over_http(&self, archived_request: &[u8], encrypt_key: &[u8; 32]) -> (res: Result<
        Vec<u8>,
        ProtocolError,
    >)
        ensures
            res is Err <==> archived_request@.len() > max_payload() || self.websocket_key@.len()
                > usize::MAX / 2,
            res is Err ==> res == Err::<Vec<u8>, ProtocolError>(ProtocolError::PayloadTooLarge),
            res matches Ok(text) ==> exists|m: int, a: int, sealed: Seq<u8>|
                {
                    &&& 0 <= m < METHOD_COUNT
                    &&& 0 <= a < USER_AGENT_COUNT
                    &&& spec_decode_path(encrypt_key@, sealed) == Ok::<Seq<u8>, ProtocolError>(
                        archived_request@,
                    )
                    &&& text@ == #[trigger] spec_request_text(
                        spec_method(m),
                        sealed,
                        encode_utf8(self.host@),
                        base64url_encode(self.websocket_key@),
                        spec_user_agent(a),
                    )
                },
    {
        if self.websocket_key.len() > usize::MAX / 2 {
            return Err(ProtocolError::PayloadTooLarge);
        }
        let sealed =
            match protocol::Request::serialize_as_url_path_segments(archived_request, encrypt_key) {
            Ok(s) => s,
            Err(e) => { return Err(e); },
        };
        let m = random_index(0, METHOD_COUNT);
        let a = random_index(0, USER_AGENT_COUNT);
        let key_text = base64_encode(self.websocket_key.as_slice());
        let text = encode_request(
            method(m),
            sealed.as_slice(),
            self.host.as_str(),
            key_text.as_slice(),
            user_agent(a),
        );
        assert(text@ == spec_request_text(
            spec_method(m as int),
            sealed@,
            encode_utf8(self.host@),
            base64url_encode(self.websocket_key@),
            spec_user_agent(a as int),
        ));
        Ok(text)
    }
}

impl Response {
    /// Reads a disguised response: decodes the result header and the accept
    /// header, then opens the seal under `encrypt_key`.
    pub fn parse(head: &HttpResponseHead, encrypt_key: &[u8; 32]) -> (res: Result<
        ParsedResponse,
        CamoError,
    >)
        ensures
            match (res, spec_parse_response(head@, encrypt_key@)) {
                (Ok(got), Ok(want)) => got.archived@ == want.0 && got.websocket_key@ == want.1,
                (Err(e), Err(f)) => e == f,
                _ => false,
            },
    {
        let sealed = match head.headers.get_header_value("X-Cache-Result") {
            Some(v) => match base64_decode(v) {
                Some(s) => s,
                None => { return Err(CamoError::InvalidResult); },
            },
            None => { return Err(CamoError::MissingResult); },
        };
        let websocket_key = match head.headers.get_header_value("Sec-WebSocket-Accept") {
            Some(v) => match base64_decode(v) {
                Some(k) => k,
                None => { return Err(CamoError::InvalidAccept); },
            },
            None => { return Err(CamoError::MissingAccept); },
        };
        match protocol::Response::deserialize(sealed.as_slice(), encrypt_key) {
            Ok(archived) => Ok(ParsedResponse { archived, websocket_key }),
            Err(e) => Err(CamoError::Sealed(e)),
        }
    }

    /// Writes the disguised response: the archived inner response sealed
    /// under `encrypt_key`, and the accept key that answers
    /// `self.websocket_key`. Whatever nonce is drawn, the result header
    /// decodes to a seal that opens to the archive.
    pub fn send_over_http(&self, archived_response: &[u8], encrypt_key: &[u8; 32]) -> (res: Result<
        Vec<u8>,
        ProtocolError,
    >)
        ensures
            res is Err <==> archived_response@.len() > max_payload(),
            res is Err ==> res == Err::<Vec<u8>, ProtocolError>(ProtocolError::PayloadTooLarge),
            res matches Ok(text) ==> exists|sealed: Seq<u8>|
                {
                    &&& spec_open(encrypt_key@, sealed) == Ok::<Seq<u8>, ProtocolError>(
                        archived_response@,
                    )
                    &&& text@ == spec_response_text(
                        spec_accept_text(self.websocket_key@),
                        #[trigger] base64url_encode(sealed),
                    )
                    &&& base64url_decode(base64url_encode(sealed)) == Some(sealed)
                },
    {
        if archived_response.len() > usize::MAX / 4 - 40 {
            return Err(ProtocolError::PayloadTooLarge);
        }
        let sealed = match protocol::Response::serialize(archived_response, encrypt_key) {
            Ok(s) => s,
            Err(e) => { return Err(e); },
        };
        let result_text = base64_encode(sealed.as_slice());
        let mut keyed: Vec<u8> = Vec::new();
        push_all(&mut keyed, self.websocket_key.as_slice());
        push_all(&mut keyed, "258EAFA5-E914-47DA-95CA-C5AB0DC85B11".as_bytes());
        let digest = sha1_digest(keyed.as_slice());
        let accept_text = base64_encode(digest.as_slice());
        let text = encode_response(accept_text.as_slice(), result_text.as_slice());
        assert(text@ == spec_response_text(
            spec_accept_text(self.websocket_key@),
            base64url_encode(sealed@),
        ));
        Ok(text)
    }
}

} // verus!
