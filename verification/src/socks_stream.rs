//! The SOCKS5 preamble, parsed from the bytes received so far.
//!
//! Nothing here reads or writes: the caller feeds the bytes it has and sends
//! what [`SocksHandshake::advance`] asks it to send.

use vstd::prelude::*;
use vstd::slice::{slice_subrange, slice_to_vec};
use vstd::utf8::{decode_utf8, valid_utf8};
use crate::text::string_from_utf8;

verus! {

/// The reply to the greeting: version 5, method "no authentication".
pub open spec fn method_selection_reply() -> Seq<u8> {
    seq![5u8, 0u8]
}

/// The reply to an accepted request: success, bound to `0.0.0.0:0`.
pub open spec fn success_reply() -> Seq<u8> {
    seq![5u8, 0u8, 0u8, 1u8, 0u8, 0u8, 0u8, 0u8, 0u8, 0u8]
}

/// Why a preamble is refused.
#[derive(Debug, Clone, Copy, PartialEq, Eq, Structural)]
pub enum SocksError {
    /// The greeting does not start with version 5.
    UnsupportedGreetingVersion,
    /// The client does not offer the method "no authentication".
    NoSupportedAuthMethod,
    /// The request does not start with version 5.
    UnsupportedRequestVersion,
    /// The command is not CONNECT.
    UnsupportedCommand,
    /// The reserved byte is not zero.
    InvalidReservedByte,
    /// The address type is none of IPv4, domain name, IPv6.
    UnsupportedAddressType(u8),
    /// The domain name is not valid UTF-8.
    InvalidDomain,
}

/// An IP address as its bytes in network order.
#[derive(Debug, Clone, Copy, PartialEq, Eq)]
pub enum IpAddress {
    V4([u8; 4]),
    V6([u8; 16]),
}

/// Where the client wants to connect.
#[derive(Debug, PartialEq, Eq)]
pub enum ProxyRequest {
    WithDomain(String, u16),
    WithIP(IpAddress, u16),
}

/// The mathematical content of a [`ProxyRequest`].
pub enum ProxyRequestView {
    WithDomain(Seq<char>, u16),
    WithIpv4(Seq<u8>, u16),
    WithIpv6(Seq<u8>, u16),
}

impl View for ProxyRequest {
    type V = ProxyRequestView;

    open spec fn view(&self) -> ProxyRequestView {
        match *self {
            ProxyRequest::WithDomain(domain, port) => ProxyRequestView::WithDomain(domain@, port),
            ProxyRequest::WithIP(IpAddress::V4(ip), port) => ProxyRequestView::WithIpv4(ip@, port),
            ProxyRequest::WithIP(IpAddress::V6(ip), port) => ProxyRequestView::WithIpv6(ip@, port),
        }
    }
}

/// What a parser makes of the bytes received so far.
pub enum Step<T> {
    /// The bytes are a proper prefix of a message: more are needed.
    Incomplete,
    /// A message stands at the start of the bytes and takes this many of them.
    Complete(T, usize),
    /// No message can start with these bytes.
    Failed(SocksError),
}

/// A port in network byte order.
pub open spec fn port_of(hi: u8, lo: u8) -> u16 {
    (hi as int * 256 + lo as int) as u16
}

/// The greeting: version, number of methods, the methods.
pub open spec fn spec_parse_greeting(buf: Seq<u8>) -> Step<()> {
    if buf.len() == 0 {
        Step::Incomplete
    } else if buf[0] != 5 {
        Step::Failed(SocksError::UnsupportedGreetingVersion)
    } else if buf.len() < 2 || buf.len() < 2 + buf[1] {
        Step::Incomplete
    } else if !buf.subrange(2, 2 + buf[1]).contains(0u8) {
        Step::Failed(SocksError::NoSupportedAuthMethod)
    } else {
        Step::Complete((), (2 + buf[1]) as usize)
    }
}

/// The address and port that follow the four fixed bytes of a request.
pub open spec fn spec_parse_address(buf: Seq<u8>) -> Step<ProxyRequestView> {
    let kind = buf[3];
    if kind == 1 {
        if buf.len() < 10 {
            Step::Incomplete
        } else {
            Step::Complete(
                ProxyRequestView::WithIpv4(buf.subrange(4, 8), port_of(buf[8], buf[9])),
                10,
            )
        }
    } else if kind == 3 {
        if buf.len() < 5 || buf.len() < 5 + buf[4] {
            Step::Incomplete
        } else {
            let end = 5 + buf[4];
            let name = buf.subrange(5, end);
            if !valid_utf8(name) {
                Step::Failed(SocksError::InvalidDomain)
            } else if buf.len() < end + 2 {
                Step::Incomplete
            } else {
                Step::Complete(
                    ProxyRequestView::WithDomain(
                        decode_utf8(name),
                        port_of(buf[end], buf[end + 1]),
                    ),
                    (end + 2) as usize,
                )
            }
        }
    } else if kind == 4 {
        if buf.len() < 22 {
            Step::Incomplete
        } else {
            Step::Complete(
                ProxyRequestView::WithIpv6(buf.subrange(4, 20), port_of(buf[20], buf[21])),
                22,
            )
        }
    } else {
        Step::Failed(SocksError::UnsupportedAddressType(kind))
    }
}

/// The request: version 5, command CONNECT, a zero byte, then the address.
/// Each byte is judged as soon as it is there.
pub open spec fn spec_parse_request(buf: Seq<u8>) -> Step<ProxyRequestView> {
    if buf.len() < 1 {
        Step::Incomplete
    } else if buf[0] != 5 {
        Step::Failed(SocksError::UnsupportedRequestVersion)
    } else if buf.len() < 2 {
        Step::Incomplete
    } else if buf[1] != 1 {
        Step::Failed(SocksError::UnsupportedCommand)
    } else if buf.len() < 3 {
        Step::Incomplete
    } else if buf[2] != 0 {
        Step::Failed(SocksError::InvalidReservedByte)
    } else if buf.len() < 4 {
        Step::Incomplete
    } else {
        spec_parse_address(buf)
    }
}

/// What is made of the bytes received does not change when more arrive:
/// a greeting or a fault that was found stays found.
pub proof fn lemma_greeting_stable(buf: Seq<u8>, more: Seq<u8>)
    requires
        !(spec_parse_greeting(buf) is Incomplete),
    ensures
        spec_parse_greeting(buf + more) == spec_parse_greeting(buf),
{
    let all = buf + more;
    assert(all[0] == buf[0]);
    if buf[0] == 5 {
        assert(all[1] == buf[1]);
        assert(all.subrange(2, 2 + buf[1]) =~= buf.subrange(2, 2 + buf[1]));
    }
}

/// What is made of the bytes received does not change when more arrive:
/// a request or a fault that was found stays found.
pub proof fn lemma_request_stable(buf: Seq<u8>, more: Seq<u8>)
    requires
        !(spec_parse_request(buf) is Incomplete),
    ensures
        spec_parse_request(buf + more) == spec_parse_request(buf),
{
    let all = buf + more;
    assert forall|i: int| 0 <= i < buf.len() implies all[i] == buf[i] by {}
    if buf.len() >= 4 && buf[0] == 5 && buf[1] == 1 && buf[2] == 0 {
        let kind = buf[3];
        if kind == 1 {
            assert(all.subrange(4, 8) =~= buf.subrange(4, 8));
        } else if kind == 3 {
            let end = 5 + buf[4];
            assert(all.subrange(5, end) =~= buf.subrange(5, end));
        } else if kind == 4 {
            assert(all.subrange(4, 20) =~= buf.subrange(4, 20));
        }
    }
}

/// Whether an exec result says what the specification says.
pub open spec fn request_step_matches(got: Step<ProxyRequest>, want: Step<ProxyRequestView>) -> bool {
    match (got, want) {
        (Step::Incomplete, Step::Incomplete) => true,
        (Step::Complete(r, n), Step::Complete(v, m)) => r@ == v && n == m,
        (Step::Failed(e), Step::Failed(f)) => e == f,
        _ => false,
    }
}

fn read_port(buf: &[u8], at: usize) -> (port: u16)
    requires
        at + 1 < buf@.len(),
    ensures
        port == port_of(buf@[at as int], buf@[at + 1]),
{
    let hi: u16 = buf[at] as u16;
    let lo: u16 = buf[at + 1] as u16;
    hi * 256 + lo
}

/// Parses the client's greeting from the bytes received so far.
pub fn parse_greeting(buf: &[u8]) -> (step: Step<()>)
    ensures
        step == spec_parse_greeting(buf@),
{
    if buf.len() == 0 {
        return Step::Incomplete;
    }
    if buf[0] != 5 {
        return Step::Failed(SocksError::UnsupportedGreetingVersion);
    }
    if buf.len() < 2 {
        return Step::Incomplete;
    }
    let count: usize = buf[1] as usize;
    if buf.len() < 2 + count {
        return Step::Incomplete;
    }
    let mut i: usize = 0;
    while i < count
        invariant
            i <= count,
            buf@[0] == 5,
            count == buf@[1],
            2 + count <= buf@.len(),
            forall|j: int| 2 <= j < 2 + i ==> buf@[j] != 0,
        decreases count - i,
    {
        if buf[2 + i] == 0 {
            proof {
                let methods = buf@.subrange(2, 2 + count);
                assert(methods[i as int] == 0u8);
                assert(methods.contains(0u8));
            }
            return Step::Complete((), 2 + count);
        }
        i += 1;
    }
    proof {
        let methods = buf@.subrange(2, 2 + count);
        assert forall|j: int| 0 <= j < methods.len() implies methods[j] != 0u8 by {
            assert(methods[j] == buf@[2 + j]);
        }
    }
    Step::Failed(SocksError::NoSupportedAuthMethod)
}

/// Parses the client's request from the bytes received after the greeting.
pub fn parse_request(buf: &[u8]) -> (step: Step<ProxyRequest>)
    ensures
        request_step_matches(step, spec_parse_request(buf@)),
{
    if buf.len() < 1 {
        return Step::Incomplete;
    }
    if buf[0] != 5 {
        return Step::Failed(SocksError::UnsupportedRequestVersion);
    }
    if buf.len() < 2 {
        return Step::Incomplete;
    }
    if buf[1] != 1 {
        return Step::Failed(SocksError::UnsupportedCommand);
    }
    if buf.len() < 3 {
        return Step::Incomplete;
    }
    if buf[2] != 0 {
        return Step::Failed(SocksError::InvalidReservedByte);
    }
    if buf.len() < 4 {
        return Step::Incomplete;
    }
    let kind = buf[3];
    if kind == 1 {
        if buf.len() < 10 {
            return Step::Incomplete;
        }
        let ip: [u8; 4] = [buf[4], buf[5], buf[6], buf[7]];
        assert(ip@ =~= buf@.subrange(4, 8));
        Step::Complete(ProxyRequest::WithIP(IpAddress::V4(ip), read_port(buf, 8)), 10)
    } else if kind == 3 {
        if buf.len() < 5 {
            return Step::Incomplete;
        }
        let len: usize = buf[4] as usize;
        if buf.len() < 5 + len {
            return Step::Incomplete;
        }
        let end: usize = 5 + len;
        let name = slice_to_vec(slice_subrange(buf, 5, end));
        match string_from_utf8(name) {
            None => Step::Failed(SocksError::InvalidDomain),
            Some(domain) => {
                if buf.len() < end + 2 {
                    return Step::Incomplete;
                }
                Step::Complete(ProxyRequest::WithDomain(domain, read_port(buf, end)), end + 2)
            },
        }
    } else if kind == 4 {
        if buf.len() < 22 {
            return Step::Incomplete;
        }
        let ip: [u8; 16] = [
            buf[4], buf[5], buf[6], buf[7], buf[8], buf[9], buf[10], buf[11],
            buf[12], buf[13], buf[14], buf[15], buf[16], buf[17], buf[18], buf[19],
        ];
        assert(ip@ =~= buf@.subrange(4, 20));
        Step::Complete(ProxyRequest::WithIP(IpAddress::V6(ip), read_port(buf, 20)), 22)
    } else {
        Step::Failed(SocksError::UnsupportedAddressType(kind))
    }
}

/// Where a handshake stands.
#[derive(Debug, Clone, Copy, PartialEq, Eq, Structural)]
pub enum SocksPhase {
    /// The greeting has not been read in full.
    Greeting,
    /// The method selection has been handed out; the request is awaited.
    Request,
    /// A request was accepted.
    Done,
    /// The preamble was refused.
    Failed,
}

/// What the caller does next.
#[derive(Debug, PartialEq, Eq)]
pub enum SocksAction {
    /// Read more bytes from the client and call `advance` with them.
    ReadMore,
    /// Send these bytes to the client, then call `advance` with no new bytes.
    Send(Vec<u8>),
    /// The preamble is over: the request, and the bytes that came after it.
    Accept(ProxyRequest, Vec<u8>),
    /// Close the connection silently.
    Reject(SocksError),
    /// The handshake had ended before this call.
    Finished,
}

/// The SOCKS5 preamble as a state machine over received bytes.
pub struct SocksHandshake {
    phase: SocksPhase,
    pending: Vec<u8>,
}

impl SocksHandshake {
    pub closed spec fn phase(&self) -> SocksPhase {
        self.phase
    }

    /// The bytes received and not yet consumed.
    pub closed spec fn pending(&self) -> Seq<u8> {
        self.pending@
    }

    pub fn new() -> (hs: SocksHandshake)
        ensures
            hs.phase() == SocksPhase::Greeting,
            hs.pending() == Seq::<u8>::empty(),
    {
        SocksHandshake { phase: SocksPhase::Greeting, pending: Vec::new() }
    }

    /// Whether the relay may read the client's first payload before it dials:
    /// a SOCKS5 request never carries one itself.
    pub fn can_read_initial_data(&self) -> (yes: bool)
        ensures
            yes,
    {
        true
    }

    /// What `advance` owes in the greeting phase, given all unconsumed bytes.
    pub open spec fn greeting_outcome(data: Seq<u8>, action: SocksAction, after: SocksHandshake) -> bool {
        match spec_parse_greeting(data) {
            Step::Incomplete => {
                &&& action == SocksAction::ReadMore
                &&& after.phase() == SocksPhase::Greeting
                &&& after.pending() =~= data
            },
            Step::Complete(_, n) => {
                &&& action matches SocksAction::Send(reply)
                &&& reply@ =~= method_selection_reply()
                &&& after.phase() == SocksPhase::Request
                &&& after.pending() =~= data.skip(n as int)
            },
            Step::Failed(e) => {
                &&& action == SocksAction::Reject(e)
                &&& after.phase() == SocksPhase::Failed
            },
        }
    }

    /// What `advance` owes in the request phase, given all unconsumed bytes.
    pub open spec fn request_outcome(data: Seq<u8>, action: SocksAction, after: SocksHandshake) -> bool {
        match spec_parse_request(data) {
            Step::Incomplete => {
                &&& action == SocksAction::ReadMore
                &&& after.phase() == SocksPhase::Request
                &&& after.pending() =~= data
            },
            Step::Complete(v, n) => {
                &&& action matches SocksAction::Accept(request, rest)
                &&& request@ == v
                &&& rest@ =~= data.skip(n as int)
                &&& after.phase() == SocksPhase::Done
            },
            Step::Failed(e) => {
                &&& action == SocksAction::Reject(e)
                &&& after.phase() == SocksPhase::Failed
            },
        }
    }

    fn advance_greeting(&mut self, input: &[u8]) -> (action: SocksAction)
        requires
            old(self).phase() == SocksPhase::Greeting,
        ensures
            Self::greeting_outcome(old(self).pending() + input@, action, *final(self)),
    {
        self.pending.extend_from_slice(input);
        let ghost data = self.pending@;
        let step = parse_greeting(self.pending.as_slice());
        assert(data == old(self).pending() + input@);
        match step {
            Step::Incomplete => SocksAction::ReadMore,
            Step::Complete(_, n) => {
                let rest = self.pending.split_off(n);
                assert(rest@ =~= data.skip(n as int));
                self.pending = rest;
                self.phase = SocksPhase::Request;
                SocksAction::Send(vec![5u8, 0u8])
            },
            Step::Failed(e) => {
                self.phase = SocksPhase::Failed;
                SocksAction::Reject(e)
            },
        }
    }

    fn advance_request(&mut self, input: &[u8]) -> (action: SocksAction)
        requires
            old(self).phase() == SocksPhase::Request,
        ensures
            Self::request_outcome(old(self).pending() + input@, action, *final(self)),
    {
        self.pending.extend_from_slice(input);
        let ghost data = self.pending@;
        let step = parse_request(self.pending.as_slice());
        assert(data == old(self).pending() + input@);
        match step {
            Step::Incomplete => SocksAction::ReadMore,
            Step::Complete(request, n) => {
                let rest = self.pending.split_off(n);
                assert(rest@ =~= data.skip(n as int));
                self.phase = SocksPhase::Done;
                SocksAction::Accept(request, rest)
            },
            Step::Failed(e) => {
                self.phase = SocksPhase::Failed;
                SocksAction::Reject(e)
            },
        }
    }

    /// Takes `input`, the bytes just read, and says what to do next.
    pub fn advance(&mut self, input: &[u8]) -> (action: SocksAction)
        ensures
            match old(self).phase() {
                SocksPhase::Greeting => Self::greeting_outcome(
                    old(self).pending() + input@,
                    action,
                    *final(self),
                ),
                SocksPhase::Request => Self::request_outcome(
                    old(self).pending() + input@,
                    action,
                    *final(self),
                ),
                _ => action == SocksAction::Finished && *final(self) == *old(self),
            },
    {
        match self.phase {
            SocksPhase::Greeting => self.advance_greeting(input),
            SocksPhase::Request => self.advance_request(input),
            _ => SocksAction::Finished,
        }
    }

    /// The bytes that tell the client its request succeeded. The bound address
    /// in it is always `0.0.0.0:0`.
    pub fn respond_ok() -> (reply: Vec<u8>)
        ensures
            reply@ =~= success_reply(),
    {
        vec![5u8, 0u8, 0u8, 1u8, 0u8, 0u8, 0u8, 0u8, 0u8, 0u8]
    }

    /// What the client is sent when its request fails: nothing, the connection
    /// is closed silently.
    pub fn respond_err(_msg: &str) -> (reply: Vec<u8>)
        ensures
            reply@.len() == 0,
    {
        Vec::new()
    }
}

} // verus!
