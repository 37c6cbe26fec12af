//! What the relay needs of an inbound handshake, whatever its protocol.

use vstd::prelude::*;
use vstd::string::StringSliceAdditionalSpecFns;

verus! {

/// An inbound handshake that has produced a request and has yet to tell
/// the client how it went.
pub trait Handshaker {
    /// What the client is sent once the way out stands.
    spec fn ok_reply(&self) -> Seq<u8>;

    /// What the client is sent when no way out could be made, for the reason `msg`.
    spec fn err_reply(&self, msg: Seq<u8>) -> Seq<u8>;

    /// Whether the client may send payload before it has seen a reply.
    spec fn reads_initial_data(&self) -> bool;

    fn can_read_initial_data(&self) -> (yes: bool)
        ensures
            yes == self.reads_initial_data(),
    ;

    fn respond_ok(&self) -> (reply: Vec<u8>)
        ensures
            reply@ == self.ok_reply(),
    ;

    fn respond_err(&self, msg: &str) -> (reply: Vec<u8>)
        ensures
            reply@ == self.err_reply(msg.spec_bytes()),
    ;
}

} // verus!
