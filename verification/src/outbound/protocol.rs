//! The egress through the tunnel, on the client's side: the request that
//! is sent to the tunnel server and what is made of its answer.

use vstd::prelude::*;
use crate::cipher_select::{port_cipher_kinds, select_cipher_based_on_port};
use crate::encrypt_stream::{CipherStream, Configuration, StreamState};
use crate::http_protocol;
use crate::key_util::random_vec;
use crate::outbound::{OutboundHost, OutboundRequest};
use crate::protocol;
use crate::protocol_config::Config;
use crate::time_util::now_epoch_seconds;

verus! {

/// How many random bytes make a WebSocket key.
pub const WEBSOCKET_KEY_SIZE: usize = 16;

/// The egress through the tunnel server that `0` configures.
#[derive(Debug, Clone, PartialEq, Eq)]
pub struct ProtocolOutbound(pub Config);

impl ProtocolOutbound {
    /// The request to send for `req` with the given ciphers, key and time:
    /// the destination, TLS flag and first payload are those of `req`, the
    /// outer host is the tunnel server's.
    pub fn build_request(
        &self,
        req: OutboundRequest,
        client_send_cipher: Configuration,
        server_send_cipher: Configuration,
        websocket_key: Vec<u8>,
        timestamp_epoch_seconds: u64,
    ) -> (out: http_protocol::Request)
        ensures
            out.request.host@ == req@.host.host(),
            out.request.port == req.port,
            out.request.tls == req.tls,
            out.request.initial_plaintext@ == req.initial_plaintext@,
            out.request.client_send_cipher == client_send_cipher,
            out.request.server_send_cipher == server_send_cipher,
            out.request.timestamp_epoch_seconds == timestamp_epoch_seconds,
            out.websocket_key@ == websocket_key@,
            out.host@ == self.0.host@,
    {
        let OutboundRequest { host, port, tls, initial_plaintext } = req;
        let host = match host {
            OutboundHost::Domain(d) => d,
            OutboundHost::Resolved { domain, .. } => domain,
        };
        http_protocol::Request {
            request: protocol::Request {
                host,
                port,
                tls,
                client_send_cipher,
                server_send_cipher,
                initial_plaintext,
                timestamp_epoch_seconds,
            },
            websocket_key,
            host: self.0.host.clone(),
        }
    }

    /// The request to send for `req`: ciphers picked by the destination
    /// port with fresh keys, a fresh WebSocket key, the time of the clock.
    pub fn send(&self, req: OutboundRequest) -> (out: http_protocol::Request)
        ensures
            out.request.host@ == req@.host.host(),
            out.request.port == req.port,
            out.request.tls == req.tls,
            out.request.initial_plaintext@ == req.initial_plaintext@,
            (out.request.client_send_cipher.kind(), out.request.server_send_cipher.kind())
                == port_cipher_kinds(req.port),
            out.request.client_send_cipher.wf(),
            out.request.server_send_cipher.wf(),
            out.websocket_key@.len() == WEBSOCKET_KEY_SIZE,
            out.host@ == self.0.host@,
    {
        let (client_send_cipher, server_send_cipher) = select_cipher_based_on_port(req.port);
        self.build_request(
            req,
            client_send_cipher,
            server_send_cipher,
            random_vec(WEBSOCKET_KEY_SIZE),
            now_epoch_seconds(),
        )
    }

    /// What the server's answer means: the bytes that the stream starts
    /// with, or the message that the connection fails with.
    pub fn accept(response: protocol::Response) -> (res: Result<Vec<u8>, String>)
        ensures
            match response {
                protocol::Response::Success { initial_response, .. } => res == Ok::<Vec<u8>, String>(
                    initial_response,
                ),
                protocol::Response::Error { msg, .. } => res == Err::<Vec<u8>, String>(msg),
            },
    {
        match response {
            protocol::Response::Success { initial_response, .. } => Ok(initial_response),
            protocol::Response::Error { msg, .. } => Err(msg),
        }
    }

    /// The cipher layer over the connection to the server: the client
    /// writes under the cipher it sends with and reads under the server's.
    pub fn cipher_stream<S>(stream: S, request: &protocol::Request) -> (cs: CipherStream<S>)
        ensures
            cs.stream() == stream,
            cs.encrypt_state()@ == StreamState::initial(request.client_send_cipher),
            cs.decrypt_state()@ == StreamState::initial(request.server_send_cipher),
    {
        CipherStream::new(stream, &request.client_send_cipher, &request.server_send_cipher)
    }
}

} // verus!
