//! Core of a TCP tunnelling proxy: the sealed handshake codec and its HTTP
//! disguise, the two per-direction stream ciphers, the GeoIP table, the inbound
//! request parsers and the routing and relay decisions, all free of I/O.

pub mod cipher_select;
pub mod client;
pub mod counted_stream;
pub mod dns_divert;
pub mod dns_model;
pub mod either_stream;
pub mod encrypt_stream;
pub mod geoip;
pub mod handshaker;
pub mod http_protocol;
pub mod http_proxy;
pub mod http_proxy_server;
pub mod http_stream;
pub mod http_util;
pub mod key_util;
pub mod outbound;
pub mod protocol;
pub mod protocol_config;
pub mod proxy_handlers;
pub mod resolver;
pub mod selector_outbound;
pub mod server;
pub mod socks_proxy_server;
pub mod socks_stream;
pub mod stats_outbound;
pub mod stats_server;
pub mod text;
pub mod time_util;
pub mod uri;
