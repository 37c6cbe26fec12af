//! The tunnel server's side of a connection: what it does with a request
//! and how it answers.

use vstd::prelude::*;
use vstd::string::StringSliceAdditionalSpecFns;
use crate::encrypt_stream::{CipherStream, Configuration, StreamState};
use crate::protocol;
use crate::text::push_all;

verus! {

/// The most bytes of the upstream's first answer that are captured.
pub const UPSTREAM_READ_LIMIT: usize = 4096;

/// How long the upstream's first answer is waited for, in milliseconds.
pub const UPSTREAM_READ_TIMEOUT_MS: u64 = 500;

/// What a client is sent whose request does not parse or open, so that a
/// probe learns nothing.
pub open spec fn not_found_text() -> Seq<u8> {
    "HTTP/1.1 404 Not Found\r\n\r\n".spec_bytes()
}

/// The response to a request that does not parse or open.
pub fn not_found_response() -> (text: Vec<u8>)
    ensures
        text@ == not_found_text(),
{
    let mut text: Vec<u8> = Vec::new();
    push_all(&mut text, "HTTP/1.1 404 Not Found\r\n\r\n".as_bytes());
    text
}

/// How the upstream is reached and what is done once it is.
#[derive(Debug, PartialEq, Eq)]
pub struct UpstreamPlan {
    pub host: String,
    pub port: u16,
    /// Whether to make a TLS handshake, with `host` as the server name.
    pub tls: bool,
    /// What to write once the connection stands.
    pub initial_plaintext: Vec<u8>,
    /// The most bytes to read after that.
    pub read_limit: usize,
    /// How long to wait for them, in milliseconds.
    pub read_timeout_ms: u64,
}

/// How dialing the upstream went.
#[derive(Debug, PartialEq, Eq)]
pub enum UpstreamOutcome {
    /// The connection stands; these bytes came back in time, maybe none.
    Connected(Vec<u8>),
    /// No connection, for this reason.
    Failed(String),
}

/// What to do next.
#[derive(Debug, PartialEq)]
pub enum ServerAction {
    /// Send the 404 text and close.
    RefuseAndClose(Vec<u8>),
    /// Reach the upstream as planned.
    Dial(UpstreamPlan),
    /// Send `response` in disguise, with the accept key for
    /// `websocket_key`, then copy bytes between upstream and tunnel.
    RespondAndSplice { response: protocol::Response, websocket_key: Vec<u8> },
    /// Send `response` in disguise, then close.
    RespondAndClose { response: protocol::Response, websocket_key: Vec<u8> },
}

/// A connection whose request has been opened.
pub struct ServerSession {
    client_send_cipher: Configuration,
    server_send_cipher: Configuration,
    websocket_key: Vec<u8>,
}

impl ServerSession {
    pub closed spec fn client_send_cipher(&self) -> Configuration {
        self.client_send_cipher
    }

    pub closed spec fn server_send_cipher(&self) -> Configuration {
        self.server_send_cipher
    }

    pub closed spec fn websocket_key(&self) -> Seq<u8> {
        self.websocket_key@
    }

    /// Takes the request of a new connection, or the news that none could
    /// be read: a request sets dialing to its destination going, anything
    /// else is answered like a page that does not exist.
    pub fn handle_connection(request: Option<(protocol::Request, Vec<u8>)>) -> (out: (
        Option<ServerSession>,
        ServerAction,
    ))
        ensures
            match request {
                None => {
                    &&& out.0 is None
                    &&& out.1 matches ServerAction::RefuseAndClose(text)
                    &&& text@ == not_found_text()
                },
                Some((req, key)) => {
                    &&& out.0 matches Some(session)
                    &&& session.client_send_cipher() == req.client_send_cipher
                    &&& session.server_send_cipher() == req.server_send_cipher
                    &&& session.websocket_key() == key@
                    &&& out.1 matches ServerAction::Dial(plan)
                    &&& plan.host == req.host
                    &&& plan.port == req.port
                    &&& plan.tls == req.tls
                    &&& plan.initial_plaintext == req.initial_plaintext
                    &&& plan.read_limit == UPSTREAM_READ_LIMIT
                    &&& plan.read_timeout_ms == UPSTREAM_READ_TIMEOUT_MS
                },
            },
    {
        match request {
            None => (None, ServerAction::RefuseAndClose(not_found_response())),
            Some((req, websocket_key)) => {
                let protocol::Request {
                    host,
                    port,
                    tls,
                    client_send_cipher,
                    server_send_cipher,
                    initial_plaintext,
                    timestamp_epoch_seconds,
                } = req;
                (
                    Some(ServerSession { client_send_cipher, server_send_cipher, websocket_key }),
                    ServerAction::Dial(
                        UpstreamPlan {
                            host,
                            port,
                            tls,
                            initial_plaintext,
                            read_limit: UPSTREAM_READ_LIMIT,
                            read_timeout_ms: UPSTREAM_READ_TIMEOUT_MS,
                        },
                    ),
                )
            },
        }
    }

    /// The answer to the client once dialing has ended at `timestamp`: what
    /// the upstream sent first, at most `UPSTREAM_READ_LIMIT` bytes of it,
    /// or why there is no upstream.
    pub fn respond(&self, outcome: UpstreamOutcome, timestamp: u64) -> (action: ServerAction)
        ensures
            match outcome {
                UpstreamOutcome::Connected(data) => {
                    &&& action matches ServerAction::RespondAndSplice { response, websocket_key }
                    &&& websocket_key@ == self.websocket_key()
                    &&& response matches protocol::Response::Success {
                        initial_response,
                        timestamp_epoch_seconds,
                    }
                    &&& timestamp_epoch_seconds == timestamp
                    &&& initial_response@ == if data@.len() <= UPSTREAM_READ_LIMIT {
                        data@
                    } else {
                        data@.take(UPSTREAM_READ_LIMIT as int)
                    }
                },
                UpstreamOutcome::Failed(msg) => {
                    &&& action matches ServerAction::RespondAndClose { response, websocket_key }
                    &&& websocket_key@ == self.websocket_key()
                    &&& response == (protocol::Response::Error {
                        msg,
                        timestamp_epoch_seconds: timestamp,
                    })
                },
            },
    {
        let websocket_key = self.websocket_key.clone();
        match outcome {
            UpstreamOutcome::Connected(data) => {
                let mut initial_response = data;
                if initial_response.len() > UPSTREAM_READ_LIMIT {
                    initial_response.truncate(UPSTREAM_READ_LIMIT);
                }
                ServerAction::RespondAndSplice {
                    response: protocol::Response::Success {
                        initial_response,
                        timestamp_epoch_seconds: timestamp,
                    },
                    websocket_key,
                }
            },
            UpstreamOutcome::Failed(msg) => ServerAction::RespondAndClose {
                response: protocol::Response::Error { msg, timestamp_epoch_seconds: timestamp },
                websocket_key,
            },
        }
    }

    /// The cipher layer over the connection to the client, the mirror of
    /// the client's: the server writes under the cipher it sends with and
    /// reads under the client's.
    pub fn cipher_stream<S>(&self, stream: S) -> (cs: CipherStream<S>)
        ensures
            cs.stream() == stream,
            cs.encrypt_state()@ == StreamState::initial(self.server_send_cipher()),
            cs.decrypt_state()@ == StreamState::initial(self.client_send_cipher()),
    {
        CipherStream::new(stream, &self.server_send_cipher, &self.client_send_cipher)
    }
}

} // verus!
