//! Which cipher each direction gets, by destination port.

use vstd::prelude::*;
use crate::encrypt_stream::{CipherKind, Configuration};

verus! {

/// Ports on which the payload is itself TLS: only the handshake headers need hiding.
pub open spec fn is_tls_like_port(port: u16) -> bool {
    port == 443 || port == 465 || port == 993 || port == 5223
}

/// The cipher shapes for a destination port: client-to-server first, then
/// server-to-client.
pub open spec fn port_cipher_kinds(port: u16) -> (CipherKind, CipherKind) {
    if is_tls_like_port(port) {
        (CipherKind::Prefix(32), CipherKind::Prefix(512))
    } else {
        (CipherKind::Full, CipherKind::Full)
    }
}

/// Picks the two ciphers of a connection to `port`, with fresh key material.
pub fn select_cipher_based_on_port(port: u16) -> (pair: (Configuration, Configuration))
    ensures
        (pair.0.kind(), pair.1.kind()) == port_cipher_kinds(port),
        pair.0.wf(),
        pair.1.wf(),
{
    match port {
        443 | 465 | 993 | 5223 => (
            Configuration::random_partial(32),
            Configuration::random_partial(512),
        ),
        _ => (Configuration::random_full(), Configuration::random_full()),
    }
}

} // verus!
