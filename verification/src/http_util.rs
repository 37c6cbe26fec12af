//! HTTP heads: what a parsed head holds, how a header is looked up, and how
//! the bytes of a head are gathered from successive reads.

use vstd::prelude::*;
use vstd::string::StringSliceAdditionalSpecFns;
use vstd::slice::slice_to_vec;
use crate::text::{bytes_eq_ignore_ascii_case, eq_ignore_ascii_case};

verus! {

/// One header line: its name and the bytes of its value.
#[derive(Debug, Clone, PartialEq, Eq)]
pub struct HttpHeader {
    pub name: Vec<u8>,
    pub value: Vec<u8>,
}

/// The content of a header.
pub struct HeaderView {
    pub name: Seq<u8>,
    pub value: Seq<u8>,
}

impl View for HttpHeader {
    type V = HeaderView;

    open spec fn view(&self) -> HeaderView {
        HeaderView { name: self.name@, value: self.value@ }
    }
}

/// The contents of a list of headers.
pub open spec fn header_views(headers: Seq<HttpHeader>) -> Seq<HeaderView> {
    Seq::new(headers.len(), |i: int| headers[i]@)
}

/// The content of an optional text.
pub open spec fn option_view(text: Option<Vec<u8>>) -> Option<Seq<u8>> {
    match text {
        Some(t) => Some(t@),
        None => None,
    }
}

/// The head of a request: the request line and the headers.
#[derive(Debug, Clone, PartialEq, Eq)]
pub struct HttpRequestHead {
    pub method: Option<Vec<u8>>,
    pub path: Option<Vec<u8>>,
    /// The minor version: 1 for `HTTP/1.1`.
    pub version: Option<u8>,
    pub headers: Vec<HttpHeader>,
}

/// The content of a request head.
pub struct RequestHeadView {
    pub method: Option<Seq<u8>>,
    pub path: Option<Seq<u8>>,
    pub version: Option<u8>,
    pub headers: Seq<HeaderView>,
}

impl View for HttpRequestHead {
    type V = RequestHeadView;

    open spec fn view(&self) -> RequestHeadView {
        RequestHeadView {
            method: option_view(self.method),
            path: option_view(self.path),
            version: self.version,
            headers: header_views(self.headers@),
        }
    }
}

/// The head of a response: the status line and the headers.
#[derive(Debug, Clone, PartialEq, Eq)]
pub struct HttpResponseHead {
    /// The minor version: 1 for `HTTP/1.1`.
    pub version: Option<u8>,
    pub code: Option<u16>,
    pub reason: Option<Vec<u8>>,
    pub headers: Vec<HttpHeader>,
}

/// The content of a response head.
pub struct ResponseHeadView {
    pub version: Option<u8>,
    pub code: Option<u16>,
    pub reason: Option<Seq<u8>>,
    pub headers: Seq<HeaderView>,
}

impl View for HttpResponseHead {
    type V = ResponseHeadView;

    open spec fn view(&self) -> ResponseHeadView {
        ResponseHeadView {
            version: self.version,
            code: self.code,
            reason: option_view(self.reason),
            headers: header_views(self.headers@),
        }
    }
}

/// What the parser makes of the bytes read so far.
#[derive(Debug, PartialEq, Eq)]
pub enum HeadParse<H> {
    /// A whole head, and the offset at which the body starts.
    Complete(H, usize),
    /// The bytes may be the start of a head.
    Partial,
    /// The bytes are no head.
    Invalid,
}

/// The most headers a head may carry.
pub const MAX_HEADERS: usize = 32;

/// What `httparse` makes of `data` as a request with up to 32 headers.
pub uninterp spec fn httparse_request(data: Seq<u8>) -> HeadParse<RequestHeadView>;

/// What `httparse` makes of `data` as a response with up to 32 headers.
pub uninterp spec fn httparse_response(data: Seq<u8>) -> HeadParse<ResponseHeadView>;

/// Whether a parsed request says what the named result says.
pub open spec fn request_parse_matches(
    got: HeadParse<HttpRequestHead>,
    want: HeadParse<RequestHeadView>,
) -> bool {
    match (got, want) {
        (HeadParse::Complete(h, n), HeadParse::Complete(v, m)) => h@ == v && n == m,
        (HeadParse::Partial, HeadParse::Partial) => true,
        (HeadParse::Invalid, HeadParse::Invalid) => true,
        _ => false,
    }
}

/// Whether a parsed response says what the named result says.
pub open spec fn response_parse_matches(
    got: HeadParse<HttpResponseHead>,
    want: HeadParse<ResponseHeadView>,
) -> bool {
    match (got, want) {
        (HeadParse::Complete(h, n), HeadParse::Complete(v, m)) => h@ == v && n == m,
        (HeadParse::Partial, HeadParse::Partial) => true,
        (HeadParse::Invalid, HeadParse::Invalid) => true,
        _ => false,
    }
}

/// A header from its parts.
pub fn header_from(name: &str, value: &[u8]) -> (header: HttpHeader)
    ensures
        header@ == (HeaderView { name: name.spec_bytes(), value: value@ }),
{
    HttpHeader { name: slice_to_vec(name.as_bytes()), value: slice_to_vec(value) }
}

/// The bytes of a text.
pub fn text_bytes(text: &str) -> (bytes: Vec<u8>)
    ensures
        bytes@ == text.spec_bytes(),
{
    slice_to_vec(text.as_bytes())
}

/// `httparse::Request::parse` on `data`, with room for 32 headers: a whole
/// head with the offset of the body, or the news that `data` is only the
/// start of one, or that it is none.
#[verifier::external_body]
pub(crate) fn parse_request_head(data: &[u8]) -> (res: HeadParse<HttpRequestHead>)
    ensures
        request_parse_matches(res, httparse_request(data@)),
{
    let mut slots = [httparse::EMPTY_HEADER; 32];
    let mut request = httparse::Request::new(&mut slots);
    let status = request.parse(data);
    let headers = request.headers.iter().map(|h| header_from(h.name, h.value)).collect();
    let (method, path) = (request.method.map(text_bytes), request.path.map(text_bytes));
    match status {
        Ok(httparse::Status::Complete(len)) => HeadParse::Complete(
            HttpRequestHead { method, path, version: request.version, headers },
            len,
        ),
        Ok(httparse::Status::Partial) => HeadParse::Partial,
        Err(_) => HeadParse::Invalid,
    }
}

/// `httparse::Response::parse` on `data`, with room for 32 headers: a whole
/// head with the offset of the body, or the news that `data` is only the
/// start of one, or that it is none.
#[verifier::external_body]
pub(crate) fn parse_response_head(data: &[u8]) -> (res: HeadParse<HttpResponseHead>)
    ensures
        response_parse_matches(res, httparse_response(data@)),
{
    let mut slots = [httparse::EMPTY_HEADER; 32];
    let mut response = httparse::Response::new(&mut slots);
    let status = response.parse(data);
    let headers = response.headers.iter().map(|h| header_from(h.name, h.value)).collect();
    let (version, code, reason) = (response.version, response.code, response.reason.map(text_bytes));
    match status {
        Ok(httparse::Status::Complete(len)) => HeadParse::Complete(
            HttpResponseHead { version, code, reason, headers },
            len,
        ),
        Ok(httparse::Status::Partial) => HeadParse::Partial,
        Err(_) => HeadParse::Invalid,
    }
}

/// The value of the first header whose name is `name`, letters read
/// without case.
pub open spec fn spec_header_value(headers: Seq<HeaderView>, name: Seq<u8>) -> Option<Seq<u8>>
    decreases headers.len(),
{
    if headers.len() == 0 {
        None
    } else if eq_ignore_ascii_case(headers[0].name, name) {
        Some(headers[0].value)
    } else {
        spec_header_value(headers.drop_first(), name)
    }
}

/// Looking headers up by name.
pub trait HttpHeaderExt {
    /// The headers looked in.
    spec fn headers(&self) -> Seq<HeaderView>;

    /// The value of the first header called `name`, letters read without case.
    fn get_header_value(&self, name: &str) -> (value: Option<&[u8]>)
        ensures
            match value {
                Some(v) => spec_header_value(self.headers(), name.spec_bytes()) == Some(v@),
                None => spec_header_value(self.headers(), name.spec_bytes()) is None,
            },
    ;
}

impl HttpHeaderExt for Vec<HttpHeader> {
    open spec fn headers(&self) -> Seq<HeaderView> {
        header_views(self@)
    }

    fn get_header_value(&self, name: &str) -> (value: Option<&[u8]>) {
        let wanted = name.as_bytes();
        let ghost all = header_views(self@);
        let mut i: usize = 0;
        assert(all.skip(0) =~= all);
        while i < self.len()
            invariant
                0 <= i <= self@.len(),
                all == header_views(self@),
                wanted@ == name.spec_bytes(),
                spec_header_value(all, wanted@) == spec_header_value(all.skip(i as int), wanted@),
            decreases self@.len() - i,
        {
            assert(all.skip(i as int)[0] == all[i as int]);
            assert(all.skip(i as int).drop_first() =~= all.skip(i + 1));
            if bytes_eq_ignore_ascii_case(self[i].name.as_slice(), wanted) {
                return Some(self[i].value.as_slice());
            }
            i += 1;
        }
        None
    }
}

/// The size of the buffer that a head is first read into.
pub const INITIAL_HEAD_BUFFER: usize = 256;

/// The most bytes a head may take.
pub const MAX_HEAD_SIZE: usize = 65536;

/// Why no head was read.
#[derive(Debug, Clone, Copy, PartialEq, Eq, Structural)]
pub enum HeadError {
    /// The peer closed the connection before the head ended.
    ConnectionClosed,
    /// The head does not end within 64 KiB.
    HeadTooLarge,
    /// The bytes are no HTTP head.
    InvalidHead,
}

/// What to do after a read.
#[derive(Debug, PartialEq, Eq)]
pub enum HeadStep<H> {
    /// Read again, at most `read_capacity` bytes.
    NeedMore,
    /// The head, and the bytes that were read past its end.
    Done(H, Vec<u8>),
    /// Give up.
    Failed(HeadError),
}

/// The size of the buffer once `filled` bytes are in it: 256 bytes, doubled
/// each time it is full, up to 64 KiB.
pub open spec fn buffer_size(filled: nat) -> nat {
    if filled < 256 {
        256
    } else if filled < 512 {
        512
    } else if filled < 1024 {
        1024
    } else if filled < 2048 {
        2048
    } else if filled < 4096 {
        4096
    } else if filled < 8192 {
        8192
    } else if filled < 16384 {
        16384
    } else if filled < 32768 {
        32768
    } else {
        65536
    }
}

/// The bytes of a head as they come in, read after read.
pub struct HeadReader {
    filled: Vec<u8>,
}

impl HeadReader {
    /// The bytes read so far.
    pub closed spec fn filled(&self) -> Seq<u8> {
        self.filled@
    }

    pub fn new() -> (reader: HeadReader)
        ensures
            reader.filled() == Seq::<u8>::empty(),
    {
        HeadReader { filled: Vec::new() }
    }

    /// The bytes read so far.
    pub fn filled_buf(&self) -> (bytes: &[u8])
        ensures
            bytes@ == self.filled(),
    {
        self.filled.as_slice()
    }

    /// How many bytes the next read may bring: what is free in the buffer.
    pub fn read_capacity(&self) -> (room: usize)
        ensures
            room == if self.filled().len() < MAX_HEAD_SIZE {
                buffer_size(self.filled().len()) - self.filled().len()
            } else {
                0
            },
    {
        let len = self.filled.len();
        let mut size: usize = INITIAL_HEAD_BUFFER;
        while len >= size && size < MAX_HEAD_SIZE
            invariant
                size == 256 || size == 512 || size == 1024 || size == 2048 || size == 4096 || size
                    == 8192 || size == 16384 || size == 32768 || size == 65536,
                size > 256 ==> len >= size / 2,
            decreases MAX_HEAD_SIZE - size,
        {
            size = size * 2;
        }
        if len >= size {
            0
        } else {
            size - len
        }
    }

    /// Takes in `bytes`, what a read has brought; an empty read means that
    /// the peer has closed. Nothing is parsed yet.
    pub fn accept(&mut self, bytes: &[u8]) -> (open: bool)
        ensures
            open == (bytes@.len() > 0),
            final(self).filled() == old(self).filled() + bytes@,
    {
        self.filled.extend_from_slice(bytes);
        bytes.len() > 0
    }

    /// What a parse of all bytes read so far means for the reader: a head
    /// within the limit ends the reading, and what was read after the head is
    /// handed out; a partial head asks for more unless the limit is reached.
    pub fn conclude<H>(&mut self, parsed: HeadParse<H>) -> (step: HeadStep<H>)
        ensures
            ({
                let data = old(self).filled();
                match parsed {
                    HeadParse::Complete(head, n) => if n <= data.len() {
                        &&& step matches HeadStep::Done(h, remnant)
                        &&& h == head
                        &&& remnant@ =~= data.skip(n as int)
                    } else {
                        step == HeadStep::<H>::Failed(HeadError::InvalidHead)
                    },
                    HeadParse::Partial => if data.len() >= MAX_HEAD_SIZE {
                        step == HeadStep::<H>::Failed(HeadError::HeadTooLarge)
                    } else {
                        step == HeadStep::<H>::NeedMore && final(self).filled() == data
                    },
                    HeadParse::Invalid => step == HeadStep::<H>::Failed(HeadError::InvalidHead),
                }
            }),
    {
        match parsed {
            HeadParse::Complete(head, n) => {
                if n <= self.filled.len() {
                    let remnant = self.filled.split_off(n);
                    HeadStep::Done(head, remnant)
                } else {
                    HeadStep::Failed(HeadError::InvalidHead)
                }
            },
            HeadParse::Partial => {
                if self.filled.len() >= MAX_HEAD_SIZE {
                    HeadStep::Failed(HeadError::HeadTooLarge)
                } else {
                    HeadStep::NeedMore
                }
            },
            HeadParse::Invalid => HeadStep::Failed(HeadError::InvalidHead),
        }
    }

    /// Takes in what a read has brought and looks for a request head in all
    /// that has been read.
    pub fn accept_request(&mut self, bytes: &[u8]) -> (step: HeadStep<HttpRequestHead>)
        ensures
            ({
                let data = old(self).filled() + bytes@;
                if bytes@.len() == 0 {
                    step == HeadStep::<HttpRequestHead>::Failed(HeadError::ConnectionClosed)
                } else {
                    match httparse_request(data) {
                        HeadParse::Complete(head, n) => if n <= data.len() {
                            &&& step matches HeadStep::Done(h, remnant)
                            &&& h@ == head
                            &&& remnant@ =~= data.skip(n as int)
                        } else {
                            step == HeadStep::<HttpRequestHead>::Failed(HeadError::InvalidHead)
                        },
                        HeadParse::Partial => if data.len() >= MAX_HEAD_SIZE {
                            step == HeadStep::<HttpRequestHead>::Failed(HeadError::HeadTooLarge)
                        } else {
                            step == HeadStep::<HttpRequestHead>::NeedMore && final(self).filled()
                                == data
                        },
                        HeadParse::Invalid => step == HeadStep::<HttpRequestHead>::Failed(
                            HeadError::InvalidHead,
                        ),
                    }
                }
            }),
    {
        if !self.accept(bytes) {
            return HeadStep::Failed(HeadError::ConnectionClosed);
        }
        let parsed = parse_request_head(self.filled.as_slice());
        self.conclude(parsed)
    }

    /// Takes in what a read has brought and looks for a response head in
    /// all that has been read.
    pub fn accept_response(&mut self, bytes: &[u8]) -> (step: HeadStep<HttpResponseHead>)
        ensures
            ({
                let data = old(self).filled() + bytes@;
                if bytes@.len() == 0 {
                    step == HeadStep::<HttpResponseHead>::Failed(HeadError::ConnectionClosed)
                } else {
                    match httparse_response(data) {
                        HeadParse::Complete(head, n) => if n <= data.len() {
                            &&& step matches HeadStep::Done(h, remnant)
                            &&& h@ == head
                            &&& remnant@ =~= data.skip(n as int)
                        } else {
                            step == HeadStep::<HttpResponseHead>::Failed(HeadError::InvalidHead)
                        },
                        HeadParse::Partial => if data.len() >= MAX_HEAD_SIZE {
                            step == HeadStep::<HttpResponseHead>::Failed(HeadError::HeadTooLarge)
                        } else {
                            step == HeadStep::<HttpResponseHead>::NeedMore && final(self).filled()
                                == data
                        },
                        HeadParse::Invalid => step == HeadStep::<HttpResponseHead>::Failed(
                            HeadError::InvalidHead,
                        ),
                    }
                }
            }),
    {
        if !self.accept(bytes) {
            return HeadStep::Failed(HeadError::ConnectionClosed);
        }
        let parsed = parse_response_head(self.filled.as_slice());
        self.conclude(parsed)
    }
}

} // verus!
