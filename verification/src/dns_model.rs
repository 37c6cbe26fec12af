//! The messages of the DNS divert service and how their archived bytes are
//! sealed: the nonce stands at the end.

use vstd::prelude::*;
use vstd::slice::slice_subrange;
use crate::protocol::{NONCE_SIZE, ProtocolError, SEAL_MAX_PLAINTEXT, TAG_SIZE, aead_decrypt, aead_encrypt, bytes_result_matches, random_nonce, xchacha20poly1305_decrypt, xchacha20poly1305_encrypt};

verus! {

/// What a client asks of the service.
#[derive(Debug, Clone, PartialEq, Eq)]
pub enum Request {
    /// Resolve these names.
    DnsResolve(Vec<String>),
}

/// The answer for one name.
#[derive(Debug, Clone, PartialEq, Eq)]
pub struct SingleResolveResult {
    /// The IPv4 addresses found, as numbers.
    pub addresses: Vec<u32>,
    /// How long the answer holds, in seconds.
    pub ttl_secs: u64,
}

/// The answers, name by name.
#[derive(Debug, Clone, PartialEq, Eq)]
pub struct DnsResolveResult {
    pub result: Vec<(String, SingleResolveResult)>,
}

/// What a sealed message opens to. A message of 24 bytes or fewer holds
/// nothing to open.
pub open spec fn spec_decrypt(key: Seq<u8>, data: Seq<u8>) -> Result<Seq<u8>, ProtocolError> {
    if data.len() <= NONCE_SIZE {
        Err(ProtocolError::SealTooShort)
    } else if data.len() - NONCE_SIZE > SEAL_MAX_PLAINTEXT + TAG_SIZE {
        Err(ProtocolError::PayloadTooLarge)
    } else {
        let cut = data.len() - NONCE_SIZE;
        match xchacha20poly1305_decrypt(key, data.skip(cut), data.take(cut)) {
            Some(plaintext) => Ok(plaintext),
            None => Err(ProtocolError::SealBroken),
        }
    }
}

/// Seals an archived message under `key` with the given nonce: the
/// ciphertext with its tag, then the nonce.
pub fn encrypt_with_nonce(archived: &[u8], key: &[u8; 32], nonce: &[u8; 24]) -> (res: Result<
    Vec<u8>,
    ProtocolError,
>)
    ensures
        res is Err <==> archived@.len() > SEAL_MAX_PLAINTEXT,
        res is Err ==> res == Err::<Vec<u8>, ProtocolError>(ProtocolError::PayloadTooLarge),
        res matches Ok(sealed) ==> {
            &&& sealed@ == xchacha20poly1305_encrypt(key@, nonce@, archived@) + nonce@
            &&& sealed@.len() == archived@.len() + TAG_SIZE + NONCE_SIZE
            &&& spec_decrypt(key@, sealed@) == Ok::<Seq<u8>, ProtocolError>(archived@)
        },
{
    if archived.len() as u64 > SEAL_MAX_PLAINTEXT {
        return Err(ProtocolError::PayloadTooLarge);
    }
    match aead_encrypt(key, nonce, archived) {
        Some(ciphertext) => {
            let ghost ct = ciphertext@;
            let mut sealed = ciphertext;
            sealed.extend_from_slice(nonce.as_slice());
            proof {
                let cut = sealed@.len() - NONCE_SIZE;
                assert(sealed@.skip(cut) =~= nonce@);
                assert(sealed@.take(cut) =~= ct);
            }
            Ok(sealed)
        },
        None => Err(ProtocolError::PayloadTooLarge),
    }
}

/// Seals an archived message under `key` with a fresh random nonce.
/// Whatever the nonce, the seal opens to the message under the same key.
pub fn encrypt(archived: &[u8], key: &[u8; 32]) -> (res: Result<Vec<u8>, ProtocolError>)
    ensures
        res is Err <==> archived@.len() > SEAL_MAX_PLAINTEXT,
        res is Err ==> res == Err::<Vec<u8>, ProtocolError>(ProtocolError::PayloadTooLarge),
        res matches Ok(sealed) ==> {
            &&& sealed@.len() == archived@.len() + TAG_SIZE + NONCE_SIZE
            &&& spec_decrypt(key@, sealed@) == Ok::<Seq<u8>, ProtocolError>(archived@)
        },
{
    let nonce = random_nonce();
    encrypt_with_nonce(archived, key, &nonce)
}

/// Opens a sealed message under `key`: the archived message.
pub fn decrypt(key: &[u8; 32], data: &[u8]) -> (res: Result<Vec<u8>, ProtocolError>)
    ensures
        bytes_result_matches(res, spec_decrypt(key@, data@)),
{
    if data.len() <= NONCE_SIZE {
        return Err(ProtocolError::SealTooShort);
    }
    let cut = data.len() - NONCE_SIZE;
    if cut as u64 > SEAL_MAX_PLAINTEXT + TAG_SIZE as u64 {
        return Err(ProtocolError::PayloadTooLarge);
    }
    let mut nonce: [u8; 24] = [0u8; 24];
    let mut i: usize = 0;
    while i < NONCE_SIZE
        invariant
            0 <= i <= NONCE_SIZE,
            cut + NONCE_SIZE == data@.len(),
            data@.len() <= usize::MAX,
            forall|j: int| 0 <= j < i ==> nonce@[j] == data@[cut + j],
        decreases NONCE_SIZE - i,
    {
        nonce[i] = data[cut + i];
        i += 1;
    }
    assert(nonce@ =~= data@.skip(cut as int));
    let ciphertext = slice_subrange(data, 0, cut);
    assert(ciphertext@ =~= data@.take(cut as int));
    match aead_decrypt(key, &nonce, ciphertext) {
        Some(plaintext) => Ok(plaintext),
        None => Err(ProtocolError::SealBroken),
    }
}

} // verus!
