//! Key derivation and random material.

use vstd::prelude::*;
use vstd::string::StringSliceAdditionalSpecFns;
use sha2::Digest;
use rand::RngCore;

verus! {

/// The SHA-256 digest of a message: 32 bytes.
pub uninterp spec fn sha256(data: Seq<u8>) -> Seq<u8>;

/// `sha2::Sha256::digest`: the digest of `data`.
#[verifier::external_body]
pub(crate) fn sha256_digest(data: &[u8]) -> (out: [u8; 32])
    ensures
        out@ == sha256(data@),
{
    sha2::Sha256::digest(data).into()
}

/// The SHA-1 digest of a message: 20 bytes.
pub uninterp spec fn sha1(data: Seq<u8>) -> Seq<u8>;

/// `sha1::Sha1::digest`: the digest of `data`.
#[verifier::external_body]
pub(crate) fn sha1_digest(data: &[u8]) -> (out: [u8; 20])
    ensures
        out@ == sha1(data@),
{
    sha1::Sha1::digest(data).into()
}

/// Fills an array of `N` bytes from `rand::random`, the thread-local generator.
/// Nothing is claimed of the bytes: every value of the type may come back.
#[verifier::external_body]
pub(crate) fn random_array<const N: usize>() -> (out: [u8; N]) {
    rand::random()
}

/// `rand::random_range` on `lo..hi`: some index of that range, which must not
/// be empty.
#[verifier::external_body]
pub(crate) fn random_index(lo: usize, hi: usize) -> (index: usize)
    requires
        lo < hi,
    ensures
        lo <= index < hi,
{
    rand::random_range(lo..hi)
}

/// Stretches a pre-shared secret into the 32-byte key: its SHA-256 digest.
pub fn derive_password(password: &str) -> (key: [u8; 32])
    ensures
        key@ == sha256(password.spec_bytes()),
{
    sha256_digest(password.as_bytes())
}

/// `len` bytes from `RngCore::fill_bytes` on the thread-local generator of
/// `rand::rng`. Only the length is known of them.
#[verifier::external_body]
pub fn random_vec(len: usize) -> (bytes: Vec<u8>)
    ensures
        bytes@.len() == len,
{
    let mut buf = vec![0u8; len];
    rand::rng().fill_bytes(&mut buf);
    buf
}

} // verus!
