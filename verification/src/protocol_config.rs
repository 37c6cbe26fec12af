//! How a tunnel server is configured: by a URL that names it and carries
//! the pre-shared key as its password.

use vstd::prelude::*;
use vstd::string::StringSliceAdditionalSpecFns;
use vstd::utf8::encode_utf8;
use crate::key_util::{derive_password, sha256};
use crate::text::bytes_eq;
use crate::uri::{ParsedUrl, UrlView, option_url_view, parse_url, url_parse};

verus! {

/// A tunnel server: where it is, the key shared with it, and whether it is
/// reached over TLS.
#[derive(Debug, Clone, PartialEq, Eq)]
pub struct Config {
    pub host: String,
    pub port: u16,
    pub key: [u8; 32],
    pub tls: bool,
}

/// The content of a [`Config`].
pub struct ConfigView {
    pub host: Seq<char>,
    pub port: u16,
    pub key: Seq<u8>,
    pub tls: bool,
}

impl View for Config {
    type V = ConfigView;

    open spec fn view(&self) -> ConfigView {
        ConfigView { host: self.host@, port: self.port, key: self.key@, tls: self.tls }
    }
}

/// Why a text configures no server.
#[derive(Debug, Clone, Copy, PartialEq, Eq, Structural)]
pub enum ConfigError {
    /// The text is no URL.
    InvalidUrl,
    /// The URL has no host.
    MissingHost,
    /// The URL names no port and its scheme has none of its own.
    MissingPort,
    /// The URL has no password.
    MissingKey,
    /// The scheme is neither `http` nor `https`.
    UnsupportedScheme,
}

/// The server that a URL configures: its host and port, the SHA-256 digest
/// of its password as the key, TLS for `https` and none for `http`.
pub open spec fn spec_config(url: Option<UrlView>) -> Result<ConfigView, ConfigError> {
    match url {
        None => Err(ConfigError::InvalidUrl),
        Some(u) => if u.host is None {
            Err(ConfigError::MissingHost)
        } else if u.port is None {
            Err(ConfigError::MissingPort)
        } else if u.password is None {
            Err(ConfigError::MissingKey)
        } else if u.scheme != "http".spec_bytes() && u.scheme != "https".spec_bytes() {
            Err(ConfigError::UnsupportedScheme)
        } else {
            Ok(
                ConfigView {
                    host: u.host->0,
                    port: u.port->0,
                    key: sha256(encode_utf8(u.password->0)),
                    tls: u.scheme == "https".spec_bytes(),
                },
            )
        },
    }
}

/// Whether an exec result says what a specification says.
pub open spec fn config_result_matches(
    got: Result<Config, ConfigError>,
    want: Result<ConfigView, ConfigError>,
) -> bool {
    match (got, want) {
        (Ok(c), Ok(v)) => c@ == v,
        (Err(e), Err(f)) => e == f,
        _ => false,
    }
}

impl Config {
    /// The server that the parts of a URL configure.
    pub fn try_from(url: Option<ParsedUrl>) -> (res: Result<Config, ConfigError>)
        ensures
            config_result_matches(res, spec_config(option_url_view(url))),
    {
        let url = match url {
            Some(u) => u,
            None => { return Err(ConfigError::InvalidUrl); },
        };
        let plain = bytes_eq(url.scheme.as_slice(), "http".as_bytes());
        let tls = bytes_eq(url.scheme.as_slice(), "https".as_bytes());
        let ParsedUrl { scheme, host, port, path, query, password } = url;
        let host = match host {
            Some(h) => h,
            None => { return Err(ConfigError::MissingHost); },
        };
        let port = match port {
            Some(p) => p,
            None => { return Err(ConfigError::MissingPort); },
        };
        let password = match password {
            Some(p) => p,
            None => { return Err(ConfigError::MissingKey); },
        };
        if !plain && !tls {
            return Err(ConfigError::UnsupportedScheme);
        }
        let key = derive_password(password.as_str());
        Ok(Config { host, port, key, tls })
    }

    /// The server that `s` configures, a URL of the form
    /// `http(s)://:<key>@host:port`.
    pub fn from_str(s: &str) -> (res: Result<Config, ConfigError>)
        ensures
            config_result_matches(res, spec_config(url_parse(s@))),
    {
        Self::try_from(parse_url(s))
    }
}

} // verus!
