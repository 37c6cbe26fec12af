//! The inner request and response, and how their archived bytes are sealed
//! and dressed as the segments of a URL path.

use vstd::prelude::*;
use vstd::slice::slice_subrange;
use base64::Engine;
use chacha20poly1305::aead::{Aead, AeadCore, KeyInit};
use crate::encrypt_stream::Configuration;
use crate::key_util::random_index;

verus! {

/// What the client asks of the tunnel server.
#[derive(Debug, Clone, PartialEq)]
pub struct Request {
    pub host: String,
    pub port: u16,
    pub tls: bool,
    pub client_send_cipher: Configuration,
    pub server_send_cipher: Configuration,
    pub initial_plaintext: Vec<u8>,
    pub timestamp_epoch_seconds: u64,
}

/// What the tunnel server answers.
#[derive(Debug, Clone, PartialEq)]
pub enum Response {
    Success { initial_response: Vec<u8>, timestamp_epoch_seconds: u64 },
    Error { msg: String, timestamp_epoch_seconds: u64 },
}

/// Why bytes cannot be sealed or opened.
#[derive(Debug, Clone, Copy, PartialEq, Eq, Structural)]
pub enum ProtocolError {
    /// More bytes than one seal can take.
    PayloadTooLarge,
    /// The text is not base64 in the URL-safe alphabet without padding.
    InvalidBase64,
    /// The sealed bytes are too short to hold a nonce.
    SealTooShort,
    /// The seal does not open under this key.
    SealBroken,
}

/// The length of the nonce that starts a seal.
pub const NONCE_SIZE: usize = 24;

/// The length of the tag that ends a seal.
pub const TAG_SIZE: usize = 16;

/// The most bytes one seal can take: the cipher's counter has 32 bits, a
/// block 64 bytes, and block 0 keys the authenticator.
pub const SEAL_MAX_PLAINTEXT: u64 = 274_877_906_816;

/// The XChaCha20-Poly1305 ciphertext, tag at its end, of `plaintext` under a
/// 32-byte key and a 24-byte nonce.
pub uninterp spec fn xchacha20poly1305_encrypt(
    key: Seq<u8>,
    nonce: Seq<u8>,
    plaintext: Seq<u8>,
) -> Seq<u8>;

/// The plaintext that an XChaCha20-Poly1305 ciphertext authenticates, if it
/// authenticates one.
pub uninterp spec fn xchacha20poly1305_decrypt(
    key: Seq<u8>,
    nonce: Seq<u8>,
    ciphertext: Seq<u8>,
) -> Option<Seq<u8>>;

/// The symbol for six bits in the URL-safe alphabet: `A` to `Z`, `a` to
/// `z`, `0` to `9`, `-`, `_`.
pub open spec fn base64url_symbol(bits: int) -> u8 {
    if bits < 26 {
        (0x41 + bits) as u8
    } else if bits < 52 {
        (0x61 + bits - 26) as u8
    } else if bits < 62 {
        (0x30 + bits - 52) as u8
    } else if bits == 62 {
        0x2d
    } else {
        0x5f
    }
}

/// The base64 text of bytes, in the URL-safe alphabet without padding:
/// four symbols for every three bytes, two or three for what is left.
pub open spec fn base64url_encode(data: Seq<u8>) -> Seq<u8>
    decreases data.len(),
{
    if data.len() == 0 {
        Seq::empty()
    } else if data.len() == 1 {
        seq![base64url_symbol(data[0] as int / 4), base64url_symbol(data[0] as int % 4 * 16)]
    } else if data.len() == 2 {
        seq![
            base64url_symbol(data[0] as int / 4),
            base64url_symbol(data[0] as int % 4 * 16 + data[1] as int / 16),
            base64url_symbol(data[1] as int % 16 * 4),
        ]
    } else {
        seq![
            base64url_symbol(data[0] as int / 4),
            base64url_symbol(data[0] as int % 4 * 16 + data[1] as int / 16),
            base64url_symbol(data[1] as int % 16 * 4 + data[2] as int / 64),
            base64url_symbol(data[2] as int % 64),
        ] + base64url_encode(data.skip(3))
    }
}

/// The bytes that a base64 text stands for, if it is one.
pub uninterp spec fn base64url_decode(text: Seq<u8>) -> Option<Seq<u8>>;

/// A letter, a digit, `-` or `_`.
pub open spec fn is_base64url_byte(b: u8) -> bool {
    (0x41 <= b <= 0x5a) || (0x61 <= b <= 0x7a) || (0x30 <= b <= 0x39) || b == 0x2d || b == 0x5f
}

/// `AeadCore::generate_nonce` of `XChaCha20Poly1305` on the system's random
/// source. Nothing is claimed of the bytes.
#[verifier::external_body]
pub(crate) fn random_nonce() -> (nonce: [u8; 24]) {
    chacha20poly1305::XChaCha20Poly1305::generate_nonce(&mut chacha20poly1305::aead::OsRng).into()
}

/// `Aead::encrypt` of `XChaCha20Poly1305`. Within the size limit it always
/// succeeds; the ciphertext is 16 bytes longer than the plaintext, and
/// decrypting it under the same key and nonce gives the plaintext back.
#[verifier::external_body]
pub(crate) fn aead_encrypt(key: &[u8; 32], nonce: &[u8; 24], plaintext: &[u8]) -> (res: Option<Vec<u8>>)
    requires
        plaintext@.len() <= SEAL_MAX_PLAINTEXT,
    ensures
        match res {
            Some(ct) => {
                &&& ct@ == xchacha20poly1305_encrypt(key@, nonce@, plaintext@)
                &&& ct@.len() == plaintext@.len() + 16
                &&& xchacha20poly1305_decrypt(key@, nonce@, ct@) == Some(plaintext@)
            },
            None => false,
        },
{
    chacha20poly1305::XChaCha20Poly1305::new(key.into()).encrypt(nonce.into(), plaintext).ok()
}

/// `Aead::decrypt` of `XChaCha20Poly1305`: the plaintext, or nothing where
/// the tag does not authenticate the ciphertext.
#[verifier::external_body]
pub(crate) fn aead_decrypt(key: &[u8; 32], nonce: &[u8; 24], ciphertext: &[u8]) -> (res: Option<Vec<u8>>)
    requires
        ciphertext@.len() <= SEAL_MAX_PLAINTEXT + 16,
    ensures
        match res {
            Some(pt) => xchacha20poly1305_decrypt(key@, nonce@, ciphertext@) == Some(pt@),
            None => xchacha20poly1305_decrypt(key@, nonce@, ciphertext@) is None,
        },
{
    chacha20poly1305::XChaCha20Poly1305::new(key.into()).decrypt(nonce.into(), ciphertext).ok()
}

/// `Engine::encode` of `base64::engine::general_purpose::URL_SAFE_NO_PAD`:
/// the base64 text of `data`, which decodes to `data`.
#[verifier::external_body]
pub(crate) fn base64_encode(data: &[u8]) -> (text: Vec<u8>)
    requires
        data@.len() <= usize::MAX / 2,
    ensures
        text@ == base64url_encode(data@),
        base64url_decode(text@) == Some(data@),
{
    base64::engine::general_purpose::URL_SAFE_NO_PAD.encode(data).into_bytes()
}

/// `Engine::decode` of `base64::engine::general_purpose::URL_SAFE_NO_PAD`.
#[verifier::external_body]
pub(crate) fn base64_decode(text: &[u8]) -> (res: Option<Vec<u8>>)
    ensures
        match res {
            Some(data) => base64url_decode(text@) == Some(data@),
            None => base64url_decode(text@) is None,
        },
{
    base64::engine::general_purpose::URL_SAFE_NO_PAD.decode(text).ok()
}

/// A base64 text holds only symbols of the URL-safe alphabet, so no `/`.
pub proof fn lemma_base64url_alphabet(data: Seq<u8>)
    ensures
        forall|i: int|
            0 <= i < base64url_encode(data).len() ==> is_base64url_byte(
                #[trigger] base64url_encode(data)[i],
            ),
        has_no_slash(base64url_encode(data)),
    decreases data.len(),
{
    assert(forall|bits: int| 0 <= bits < 64 ==> is_base64url_byte(#[trigger] base64url_symbol(bits)));
    if data.len() >= 3 {
        lemma_base64url_alphabet(data.skip(3));
    }
}

/// A seal: the nonce, then the ciphertext with its tag.
pub open spec fn spec_seal(key: Seq<u8>, nonce: Seq<u8>, plaintext: Seq<u8>) -> Seq<u8> {
    nonce + xchacha20poly1305_encrypt(key, nonce, plaintext)
}

/// What a seal opens to.
pub open spec fn spec_open(key: Seq<u8>, sealed: Seq<u8>) -> Result<Seq<u8>, ProtocolError> {
    if sealed.len() < NONCE_SIZE {
        Err(ProtocolError::SealTooShort)
    } else if sealed.len() - NONCE_SIZE > SEAL_MAX_PLAINTEXT + TAG_SIZE {
        Err(ProtocolError::PayloadTooLarge)
    } else {
        match xchacha20poly1305_decrypt(key, sealed.take(NONCE_SIZE as int), sealed.skip(NONCE_SIZE as int)) {
            Some(plaintext) => Ok(plaintext),
            None => Err(ProtocolError::SealBroken),
        }
    }
}

/// Whether an exec result says what a specification says.
pub open spec fn bytes_result_matches(
    got: Result<Vec<u8>, ProtocolError>,
    want: Result<Seq<u8>, ProtocolError>,
) -> bool {
    match (got, want) {
        (Ok(a), Ok(b)) => a@ == b,
        (Err(e), Err(f)) => e == f,
        _ => false,
    }
}

/// Seals `plaintext` under `key` with the given nonce.
pub fn seal_with_nonce(key: &[u8; 32], nonce: &[u8; 24], plaintext: &[u8]) -> (res: Result<
    Vec<u8>,
    ProtocolError,
>)
    ensures
        res is Err <==> plaintext@.len() > SEAL_MAX_PLAINTEXT,
        res is Err ==> res == Err::<Vec<u8>, ProtocolError>(ProtocolError::PayloadTooLarge),
        res matches Ok(sealed) ==> {
            &&& sealed@ == spec_seal(key@, nonce@, plaintext@)
            &&& sealed@.len() == NONCE_SIZE + plaintext@.len() + TAG_SIZE
            &&& spec_open(key@, sealed@) == Ok::<Seq<u8>, ProtocolError>(plaintext@)
        },
{
    if plaintext.len() as u64 > SEAL_MAX_PLAINTEXT {
        return Err(ProtocolError::PayloadTooLarge);
    }
    match aead_encrypt(key, nonce, plaintext) {
        Some(ciphertext) => {
            let mut sealed: Vec<u8> = Vec::new();
            sealed.extend_from_slice(nonce.as_slice());
            sealed.extend_from_slice(ciphertext.as_slice());
            proof {
                assert(sealed@ =~= nonce@ + ciphertext@);
                assert(sealed@.take(NONCE_SIZE as int) =~= nonce@);
                assert(sealed@.skip(NONCE_SIZE as int) =~= ciphertext@);
            }
            Ok(sealed)
        },
        None => Err(ProtocolError::PayloadTooLarge),
    }
}

/// Seals `plaintext` under `key` with a fresh random nonce. Whatever the
/// nonce, the seal opens to `plaintext` under the same key.
pub fn secret_box_encrypt(key: &[u8; 32], plaintext: &[u8]) -> (res: Result<Vec<u8>, ProtocolError>)
    ensures
        res is Err <==> plaintext@.len() > SEAL_MAX_PLAINTEXT,
        res is Err ==> res == Err::<Vec<u8>, ProtocolError>(ProtocolError::PayloadTooLarge),
        res matches Ok(sealed) ==> {
            &&& sealed@.len() == NONCE_SIZE + plaintext@.len() + TAG_SIZE
            &&& sealed@ == spec_seal(key@, sealed@.take(NONCE_SIZE as int), plaintext@)
            &&& spec_open(key@, sealed@) == Ok::<Seq<u8>, ProtocolError>(plaintext@)
        },
{
    let nonce = random_nonce();
    match seal_with_nonce(key, &nonce, plaintext) {
        Ok(sealed) => {
            assert(sealed@.take(NONCE_SIZE as int) =~= nonce@);
            Ok(sealed)
        },
        Err(e) => Err(e),
    }
}

/// Opens a seal under `key`.
pub fn secret_box_decrypt(key: &[u8; 32], sealed: &[u8]) -> (res: Result<Vec<u8>, ProtocolError>)
    ensures
        bytes_result_matches(res, spec_open(key@, sealed@)),
{
    if sealed.len() < NONCE_SIZE {
        return Err(ProtocolError::SealTooShort);
    }
    if (sealed.len() - NONCE_SIZE) as u64 > SEAL_MAX_PLAINTEXT + TAG_SIZE as u64 {
        return Err(ProtocolError::PayloadTooLarge);
    }
    let mut nonce: [u8; 24] = [0u8; 24];
    let mut i: usize = 0;
    while i < NONCE_SIZE
        invariant
            0 <= i <= NONCE_SIZE,
            sealed@.len() >= NONCE_SIZE,
            forall|j: int| 0 <= j < i ==> nonce@[j] == sealed@[j],
        decreases NONCE_SIZE - i,
    {
        nonce[i] = sealed[i];
        i += 1;
    }
    assert(nonce@ =~= sealed@.take(NONCE_SIZE as int));
    let ciphertext = slice_subrange(sealed, NONCE_SIZE, sealed.len());
    assert(ciphertext@ =~= sealed@.skip(NONCE_SIZE as int));
    match aead_decrypt(key, &nonce, ciphertext) {
        Some(plaintext) => Ok(plaintext),
        None => Err(ProtocolError::SealBroken),
    }
}

/// The byte `/`.
pub const SLASH: u8 = 0x2f;

/// A text with every `/` taken out.
pub open spec fn without_slashes(text: Seq<u8>) -> Seq<u8>
    decreases text.len(),
{
    if text.len() == 0 {
        Seq::empty()
    } else if text.last() == SLASH {
        without_slashes(text.drop_last())
    } else {
        without_slashes(text.drop_last()).push(text.last())
    }
}

/// A text with a `/` put in at each of `points` in turn, each point counted
/// in the text as the earlier insertions have left it.
pub open spec fn inject_at(text: Seq<u8>, points: Seq<int>) -> Seq<u8>
    decreases points.len(),
{
    if points.len() == 0 {
        text
    } else {
        inject_at(text.insert(points[0], SLASH), points.drop_first())
    }
}

/// Whether each point lies within the text that it is counted in.
pub open spec fn points_fit(len: int, points: Seq<int>) -> bool
    decreases points.len(),
{
    points.len() == 0 || (0 <= points[0] <= len && points_fit(len + 1, points.drop_first()))
}

/// Taking the slashes out of two texts in a row is taking them out of each.
pub proof fn lemma_without_slashes_concat(a: Seq<u8>, b: Seq<u8>)
    ensures
        without_slashes(a + b) == without_slashes(a) + without_slashes(b),
    decreases b.len(),
{
    if b.len() == 0 {
        assert(a + b =~= a);
        assert(without_slashes(a) + without_slashes(b) =~= without_slashes(a));
    } else {
        lemma_without_slashes_concat(a, b.drop_last());
        assert((a + b).drop_last() =~= a + b.drop_last());
        assert((a + b).last() == b.last());
        if b.last() != SLASH {
            assert((without_slashes(a) + without_slashes(b.drop_last())).push(b.last())
                =~= without_slashes(a) + without_slashes(b.drop_last()).push(b.last()));
        }
    }
}

/// A text without slashes is left as it is.
pub proof fn lemma_without_slashes_clean(text: Seq<u8>)
    requires
        has_no_slash(text),
    ensures
        without_slashes(text) == text,
    decreases text.len(),
{
    if text.len() > 0 {
        lemma_without_slashes_clean(text.drop_last());
        assert(text.drop_last().push(text.last()) =~= text);
    }
}

/// One more slash, put in anywhere, changes nothing once slashes are taken out.
pub proof fn lemma_without_inserted_slash(text: Seq<u8>, point: int)
    requires
        0 <= point <= text.len(),
    ensures
        without_slashes(text.insert(point, SLASH)) == without_slashes(text),
{
    let head = text.take(point);
    let tail = text.skip(point);
    let slash = seq![SLASH];
    assert(text.insert(point, SLASH) =~= head + slash + tail);
    assert(text =~= head + tail);
    lemma_without_slashes_concat(head + slash, tail);
    lemma_without_slashes_concat(head, slash);
    lemma_without_slashes_concat(head, tail);
    assert(slash.drop_last() =~= Seq::<u8>::empty());
    reveal_with_fuel(without_slashes, 2);
    assert(without_slashes(slash) =~= Seq::<u8>::empty());
    assert(without_slashes(head) + Seq::<u8>::empty() =~= without_slashes(head));
}

/// Wherever slashes are put into a text that has none, taking all slashes
/// out gives the text back.
pub proof fn lemma_slash_injection_inverse(text: Seq<u8>, points: Seq<int>)
    requires
        has_no_slash(text),
        points_fit(text.len() as int, points),
    ensures
        without_slashes(inject_at(text, points)) == text,
    decreases points.len(),
{
    lemma_without_slashes_clean(text);
    lemma_inject_keeps_rest(text, points);
}

/// Putting slashes in does not change what is left once slashes are taken out.
pub proof fn lemma_inject_keeps_rest(text: Seq<u8>, points: Seq<int>)
    requires
        points_fit(text.len() as int, points),
    ensures
        without_slashes(inject_at(text, points)) == without_slashes(text),
    decreases points.len(),
{
    if points.len() > 0 {
        lemma_without_inserted_slash(text, points[0]);
        lemma_inject_keeps_rest(text.insert(points[0], SLASH), points.drop_first());
    }
}

/// Takes every `/` out of `path`.
pub fn strip_slashes(path: &[u8]) -> (text: Vec<u8>)
    ensures
        text@ == without_slashes(path@),
{
    let mut text: Vec<u8> = Vec::new();
    let mut i: usize = 0;
    assert(path@.take(0) =~= Seq::<u8>::empty());
    while i < path.len()
        invariant
            0 <= i <= path@.len(),
            text@ == without_slashes(path@.take(i as int)),
        decreases path@.len() - i,
    {
        let b = path[i];
        assert(path@.take(i + 1).drop_last() =~= path@.take(i as int));
        if b != SLASH {
            text.push(b);
        }
        i += 1;
    }
    assert(path@.take(i as int) =~= path@);
    text
}

/// Whether a text has no `/`.
pub open spec fn has_no_slash(text: Seq<u8>) -> bool {
    forall|i: int| 0 <= i < text.len() ==> text[i] != SLASH
}

/// Whether every `/` of a path stands between two bytes that are none: the
/// path reads as segments, none of them empty.
pub open spec fn is_segmented(path: Seq<u8>) -> bool {
    forall|i: int|
        0 <= i < path.len() && #[trigger] path[i] == SLASH ==> 0 < i && i + 1 < path.len() && path[i
            - 1] != SLASH && path[i + 1] != SLASH
}

/// Puts `/` into `text` at random points, so that it reads as the segments
/// of a path: starting at position 1, a point is drawn in what is left of the
/// text, and the next one at least two further on. Whatever is drawn, the
/// text comes back when the slashes are taken out; its first byte stays
/// first, a text of more than three bytes gets at least one slash, and in a
/// text that had none every slash stands between two other bytes.
pub fn inject_slashes(text: Vec<u8>) -> (path: Vec<u8>)
    ensures
        without_slashes(path@) == without_slashes(text@),
        path@.len() >= text@.len(),
        text@.len() > 3 <==> path@.len() > text@.len(),
        text@.len() > 0 ==> path@[0] == text@[0],
        has_no_slash(text@) ==> is_segmented(path@),
{
    let ghost given = text@;
    let mut path = text;
    let mut pos: usize = 1;
    while path.len() > 2 && pos < path.len() - 2
        invariant
            1 <= pos <= path@.len() + 1,
            pos == 1 ==> path@ == given,
            pos != 1 ==> path@.len() > given.len() && given.len() > 3,
            path@.len() >= given.len(),
            without_slashes(path@) == without_slashes(given),
            given.len() > 0 ==> path@.len() > 0 && path@[0] == given[0],
            has_no_slash(given) ==> is_segmented(path@) && forall|i: int|
                0 <= i < path@.len() && #[trigger] path@[i] == SLASH ==> i + 2 <= pos,
        decreases path@.len() - pos,
    {
        let point = random_index(pos, path.len());
        let ghost before = path@;
        proof {
            lemma_without_inserted_slash(path@, point as int);
        }
        path.insert(point, SLASH);
        let len = path.len();
        assert(point + 2 <= len);
        proof {
            if has_no_slash(given) {
                assert forall|i: int| 0 <= i < path@.len() && #[trigger] path@[i] == SLASH implies 0
                    < i && i + 1 < path@.len() && path@[i - 1] != SLASH && path@[i + 1] != SLASH
                    && i + 2 <= point + 2 by {
                    if i < point {
                        assert(before[i] == SLASH);
                        assert(path@[i - 1] == before[i - 1]);
                        if i + 1 < point {
                            assert(path@[i + 1] == before[i + 1]);
                        }
                    } else if i > point {
                        assert(before[i - 1] == SLASH);
                    } else {
                        assert(path@[i + 1] == before[i]);
                        assert(path@[i - 1] == before[i - 1]);
                    }
                }
            }
        }
        pos = point + 2;
    }
    path
}

/// What the segments of a path decode to: slashes out, base64 decoded, the
/// seal opened.
pub open spec fn spec_decode_path(key: Seq<u8>, path: Seq<u8>) -> Result<Seq<u8>, ProtocolError> {
    match base64url_decode(without_slashes(path)) {
        Some(sealed) => spec_open(key, sealed),
        None => Err(ProtocolError::InvalidBase64),
    }
}

/// The most archived bytes that can be sealed and encoded on this machine.
pub open spec fn max_payload() -> int {
    if SEAL_MAX_PLAINTEXT < usize::MAX / 4 - 40 {
        SEAL_MAX_PLAINTEXT as int
    } else {
        usize::MAX / 4 - 40
    }
}

fn payload_fits(len: usize) -> (fits: bool)
    ensures
        fits == (len <= max_payload()),
{
    len as u64 <= SEAL_MAX_PLAINTEXT && len <= usize::MAX / 4 - 40
}

impl Request {
    /// Seals the archived request under `encrypt_key` and dresses the seal
    /// as path segments: the base64 text of a seal with slashes put in
    /// between its bytes. It decodes to `archived` under the same key.
    pub fn serialize_as_url_path_segments(archived: &[u8], encrypt_key: &[u8; 32]) -> (res: Result<
        Vec<u8>,
        ProtocolError,
    >)
        ensures
            res is Err <==> archived@.len() > max_payload(),
            res is Err ==> res == Err::<Vec<u8>, ProtocolError>(ProtocolError::PayloadTooLarge),
            res matches Ok(path) ==> {
                &&& spec_decode_path(encrypt_key@, path@) == Ok::<Seq<u8>, ProtocolError>(archived@)
                &&& is_segmented(path@)
                &&& exists|sealed: Seq<u8>|
                    {
                        &&& without_slashes(path@) == #[trigger] base64url_encode(sealed)
                        &&& sealed == spec_seal(
                            encrypt_key@,
                            sealed.take(NONCE_SIZE as int),
                            archived@,
                        )
                    }
            },
    {
        if !payload_fits(archived.len()) {
            return Err(ProtocolError::PayloadTooLarge);
        }
        match secret_box_encrypt(encrypt_key, archived) {
            Ok(sealed) => {
                let text = base64_encode(sealed.as_slice());
                proof {
                    lemma_base64url_alphabet(sealed@);
                    lemma_without_slashes_clean(text@);
                }
                let path = inject_slashes(text);
                Ok(path)
            },
            Err(e) => Err(e),
        }
    }

    /// Takes the slashes out of `path`, decodes the base64 and opens the
    /// seal under `encrypt_key`: the archived request.
    pub fn deserialize_from_url_path_segments(path: &[u8], encrypt_key: &[u8; 32]) -> (res: Result<
        Vec<u8>,
        ProtocolError,
    >)
        ensures
            bytes_result_matches(res, spec_decode_path(encrypt_key@, path@)),
    {
        let text = strip_slashes(path);
        match base64_decode(text.as_slice()) {
            Some(sealed) => secret_box_decrypt(encrypt_key, sealed.as_slice()),
            None => Err(ProtocolError::InvalidBase64),
        }
    }
}

impl Response {
    /// Seals the archived response under `encrypt_key`.
    pub fn serialize(archived: &[u8], encrypt_key: &[u8; 32]) -> (res: Result<Vec<u8>, ProtocolError>)
        ensures
            res is Err <==> archived@.len() > SEAL_MAX_PLAINTEXT,
            res is Err ==> res == Err::<Vec<u8>, ProtocolError>(ProtocolError::PayloadTooLarge),
            res matches Ok(sealed) ==> {
                &&& sealed@.len() == NONCE_SIZE + archived@.len() + TAG_SIZE
                &&& spec_open(encrypt_key@, sealed@) == Ok::<Seq<u8>, ProtocolError>(archived@)
            },
    {
        secret_box_encrypt(encrypt_key, archived)
    }

    /// Opens the seal under `encrypt_key`: the archived response.
    pub fn deserialize(data: &[u8], encrypt_key: &[u8; 32]) -> (res: Result<Vec<u8>, ProtocolError>)
        ensures
            bytes_result_matches(res, spec_open(encrypt_key@, data@)),
    {
        secret_box_decrypt(encrypt_key, data)
    }
}

} // verus!
