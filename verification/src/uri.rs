//! URLs, as far as the proxy reads them.

use vstd::prelude::*;
use crate::http_util::{option_view, text_bytes};

verus! {

/// The parts of a URL.
#[derive(Debug, PartialEq, Eq)]
pub struct ParsedUrl {
    pub scheme: Vec<u8>,
    pub host: Option<String>,
    /// The port, or the scheme's own where the URL names none.
    pub port: Option<u16>,
    pub path: Vec<u8>,
    pub query: Option<Vec<u8>>,
    pub password: Option<String>,
}

/// The content of a [`ParsedUrl`].
pub struct UrlView {
    pub scheme: Seq<u8>,
    pub host: Option<Seq<char>>,
    pub port: Option<u16>,
    pub path: Seq<u8>,
    pub query: Option<Seq<u8>>,
    pub password: Option<Seq<char>>,
}

/// The content of an optional string.
pub open spec fn option_text(text: Option<String>) -> Option<Seq<char>> {
    match text {
        Some(t) => Some(t@),
        None => None,
    }
}

impl View for ParsedUrl {
    type V = UrlView;

    open spec fn view(&self) -> UrlView {
        UrlView {
            scheme: self.scheme@,
            host: option_text(self.host),
            port: self.port,
            path: self.path@,
            query: option_view(self.query),
            password: option_text(self.password),
        }
    }
}

/// What the `url` crate reads in a text: the parts of the URL, if it is one.
pub uninterp spec fn url_parse(text: Seq<char>) -> Option<UrlView>;

/// The content of an optional URL.
pub open spec fn option_url_view(url: Option<ParsedUrl>) -> Option<UrlView> {
    match url {
        Some(u) => Some(u@),
        None => None,
    }
}

/// Whether a parsed URL says what the named result says.
pub open spec fn url_matches(got: Option<ParsedUrl>, want: Option<UrlView>) -> bool {
    match (got, want) {
        (Some(u), Some(v)) => u@ == v,
        (None, None) => true,
        _ => false,
    }
}

/// `url::Url::parse` on `text`, and of the URL its `scheme`, `host_str`,
/// `port_or_known_default`, `path`, `query` and `password`.
#[verifier::external_body]
pub(crate) fn parse_url(text: &str) -> (res: Option<ParsedUrl>)
    ensures
        url_matches(res, url_parse(text@)),
{
    let url = url::Url::parse(text).ok()?;
    Some(ParsedUrl {
        scheme: text_bytes(url.scheme()),
        host: url.host_str().map(String::from),
        port: url.port_or_known_default(),
        path: text_bytes(url.path()),
        query: url.query().map(text_bytes),
        password: url.password().map(String::from),
    })
}

} // verus!
