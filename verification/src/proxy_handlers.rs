//! The relay of one accepted connection: when the client is answered, when
//! its first payload is read, when the way out is opened, and when bytes
//! start to flow.

use vstd::prelude::*;
use vstd::string::StringSliceAdditionalSpecFns;
use vstd::utf8::encode_utf8;
use vstd::slice::slice_subrange;
use vstd::string::StringExecFns;
use crate::handshaker::Handshaker;
use crate::outbound::OutboundRequest;

verus! {

/// The most bytes of first payload that are read before dialing.
pub const INITIAL_READ_LIMIT: usize = 4096;

/// How long the first payload is waited for, in milliseconds.
pub const INITIAL_READ_TIMEOUT_MS: u64 = 200;

/// How long dialing may take once the first payload was read, in seconds.
pub const DIAL_TIMEOUT_SECS: u64 = 50;

/// Where a relay stands.
#[derive(Debug, Clone, Copy, PartialEq, Eq, Structural)]
pub enum RelayPhase {
    /// The client was answered; its first payload is awaited.
    ReadingInitialData,
    /// The way out is being opened; the client was answered before.
    DialingAnswered,
    /// The way out is being opened; the client has no answer yet.
    DialingUnanswered,
    /// Bytes flow both ways.
    Splicing,
    /// The session is over.
    Closed,
}

/// What has happened.
#[derive(Debug, PartialEq, Eq)]
pub enum RelayEvent {
    /// The bounded read returned these bytes; none if the time ran out.
    InitialData(Vec<u8>),
    /// The bounded read failed.
    InitialReadFailed,
    /// The way out stands.
    Dialed,
    /// The way out could not be opened, for this reason.
    DialFailed(String),
    /// One side of the splice has ended or failed.
    SpliceEnded,
}

/// What to do next.
#[derive(Debug, PartialEq, Eq)]
pub enum RelayAction {
    /// Send `reply` to the client, then read at most `limit` bytes from
    /// it, waiting at most `timeout_ms`.
    AnswerThenRead { reply: Vec<u8>, limit: usize, timeout_ms: u64 },
    /// Open the way out for `request`, within `timeout_secs` if given.
    Dial { request: OutboundRequest, timeout_secs: Option<u64> },
    /// Send `reply` to the client, then copy bytes both ways.
    AnswerThenSplice { reply: Vec<u8> },
    /// Copy bytes both ways.
    Splice,
    /// Send `reply` to the client, then close.
    AnswerThenClose { reply: Vec<u8> },
    /// Close.
    Close,
}

/// The text that a client is given when dialing fails.
pub open spec fn dial_error_text(reason: Seq<char>) -> Seq<char> {
    "Error sending upstream: "@ + reason
}

/// The relay of one connection after its handshake `HS` has produced a request.
pub struct Relay<HS> {
    handshaker: HS,
    phase: RelayPhase,
    request: Option<OutboundRequest>,
}

impl<HS> Relay<HS> {
    /// While the first payload is awaited a request waits with it.
    #[verifier::type_invariant]
    spec fn request_waits(self) -> bool {
        self.phase == RelayPhase::ReadingInitialData ==> self.request is Some
    }
}

impl<HS: Handshaker> Relay<HS> {
    pub closed spec fn handshaker(&self) -> HS {
        self.handshaker
    }

    pub closed spec fn phase(&self) -> RelayPhase {
        self.phase
    }

    /// The request that waits for the first payload.
    pub closed spec fn pending(&self) -> Option<OutboundRequest> {
        self.request
    }


    /// Starts the relay of `request`. A client that may send payload first
    /// is answered at once and read from before the way out is opened; any
    /// other client gets its answer when the way out stands.
    pub fn start(handshaker: HS, request: OutboundRequest) -> (out: (Relay<HS>, RelayAction))
        ensures
            out.0.handshaker() == handshaker,
            if handshaker.reads_initial_data() {
                &&& out.0.phase() == RelayPhase::ReadingInitialData
                &&& out.0.pending() == Some(request)
                &&& out.1 matches RelayAction::AnswerThenRead { reply, limit, timeout_ms }
                &&& reply@ == handshaker.ok_reply()
                &&& limit == INITIAL_READ_LIMIT
                &&& timeout_ms == INITIAL_READ_TIMEOUT_MS
            } else {
                &&& out.0.phase() == RelayPhase::DialingUnanswered
                &&& out.1 == (RelayAction::Dial { request, timeout_secs: None })
            },
    {
        if handshaker.can_read_initial_data() {
            let reply = handshaker.respond_ok();
            (
                Relay { handshaker, phase: RelayPhase::ReadingInitialData, request: Some(request) },
                RelayAction::AnswerThenRead {
                    reply,
                    limit: INITIAL_READ_LIMIT,
                    timeout_ms: INITIAL_READ_TIMEOUT_MS,
                },
            )
        } else {
            (
                Relay { handshaker, phase: RelayPhase::DialingUnanswered, request: None },
                RelayAction::Dial { request, timeout_secs: None },
            )
        }
    }

    /// Takes what has happened and says what to do next. The first payload,
    /// at most `INITIAL_READ_LIMIT` bytes of it, is added to what the request
    /// sends first, and the way out is opened within `DIAL_TIMEOUT_SECS`; a
    /// client that was not answered yet is answered when dialing ends;
    /// whatever else happens ends the session.
    pub fn on_event(self, event: RelayEvent) -> (out: (Relay<HS>, RelayAction))
        ensures
            out.0.handshaker() == self.handshaker(),
            match (self.phase(), event) {
                (RelayPhase::ReadingInitialData, RelayEvent::InitialData(data)) => {
                    let before = self.pending()->0;
                    let taken = if data@.len() <= INITIAL_READ_LIMIT {
                        data@
                    } else {
                        data@.take(INITIAL_READ_LIMIT as int)
                    };
                    &&& self.pending() is Some
                    &&& out.0.phase() == RelayPhase::DialingAnswered
                    &&& out.1 matches RelayAction::Dial { request, timeout_secs }
                    &&& timeout_secs == Some(DIAL_TIMEOUT_SECS)
                    &&& request@.host == before@.host
                    &&& request.port == before.port
                    &&& request.tls == before.tls
                    &&& request.initial_plaintext@ == before.initial_plaintext@ + taken
                },
                (RelayPhase::DialingAnswered, RelayEvent::Dialed) => {
                    &&& out.0.phase() == RelayPhase::Splicing
                    &&& out.1 == RelayAction::Splice
                },
                (RelayPhase::DialingUnanswered, RelayEvent::Dialed) => {
                    &&& out.0.phase() == RelayPhase::Splicing
                    &&& out.1 matches RelayAction::AnswerThenSplice { reply }
                    &&& reply@ == self.handshaker().ok_reply()
                },
                (RelayPhase::DialingUnanswered, RelayEvent::DialFailed(reason)) => {
                    &&& out.0.phase() == RelayPhase::Closed
                    &&& out.1 matches RelayAction::AnswerThenClose { reply }
                    &&& reply@ == self.handshaker().err_reply(
                        encode_utf8(dial_error_text(reason@)),
                    )
                },
                _ => {
                    &&& out.0.phase() == RelayPhase::Closed
                    &&& out.1 == RelayAction::Close
                },
            },
    {
        proof {
            use_type_invariant(&self);
        }
        let Relay { handshaker, phase, request } = self;
        match (phase, event) {
            (RelayPhase::ReadingInitialData, RelayEvent::InitialData(data)) => {
                let mut request = request.unwrap();
                let n = if data.len() <= INITIAL_READ_LIMIT { data.len() } else { INITIAL_READ_LIMIT };
                let taken = slice_subrange(data.as_slice(), 0, n);
                assert(taken@ =~= if data@.len() <= INITIAL_READ_LIMIT {
                    data@
                } else {
                    data@.take(INITIAL_READ_LIMIT as int)
                });
                request.initial_plaintext.extend_from_slice(taken);
                (
                    Relay { handshaker, phase: RelayPhase::DialingAnswered, request: None },
                    RelayAction::Dial { request, timeout_secs: Some(DIAL_TIMEOUT_SECS) },
                )
            },
            (RelayPhase::DialingAnswered, RelayEvent::Dialed) => (
                Relay { handshaker, phase: RelayPhase::Splicing, request: None },
                RelayAction::Splice,
            ),
            (RelayPhase::DialingUnanswered, RelayEvent::Dialed) => {
                let reply = handshaker.respond_ok();
                (
                    Relay { handshaker, phase: RelayPhase::Splicing, request: None },
                    RelayAction::AnswerThenSplice { reply },
                )
            },
            (RelayPhase::DialingUnanswered, RelayEvent::DialFailed(reason)) => {
                let mut text = String::new();
                text.append("Error sending upstream: ");
                text.append(reason.as_str());
                assert(text@ =~= dial_error_text(reason@));
                let reply = handshaker.respond_err(text.as_str());
                (
                    Relay { handshaker, phase: RelayPhase::Closed, request: None },
                    RelayAction::AnswerThenClose { reply },
                )
            },
            _ => (Relay { handshaker, phase: RelayPhase::Closed, request: None }, RelayAction::Close),
        }
    }
}

} // verus!
