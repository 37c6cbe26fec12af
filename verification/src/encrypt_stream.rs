//! The per-direction stream cipher: how one direction of a connection is
//! transformed, and the state that tracks how far the keystream has run.

use vstd::prelude::*;
use vstd::slice::{slice_subrange, slice_to_vec};
use crate::key_util::random_array;
use chacha20::cipher::{KeyIvInit, StreamCipher, StreamCipherSeek};

verus! {

/// How one direction of a connection is encrypted.
#[derive(Debug, Clone, Copy, PartialEq, Eq)]
pub enum Configuration {
    /// No transform.
    Plaintext,
    /// Only the first `enc_size` bytes of the stream are transformed.
    PartialEncrypt { key: [u8; 32], nonce: [u8; 12], enc_size: usize },
    /// The whole stream is transformed.
    FullEncrypt { key: [u8; 32], nonce: [u8; 12] },
}

/// The shape of a [`Configuration`] without its key material.
pub enum CipherKind {
    Plaintext,
    Prefix(nat),
    Full,
}

impl Configuration {
    /// A partial configuration covers at least one byte.
    pub open spec fn wf(self) -> bool {
        match self {
            Configuration::PartialEncrypt { enc_size, .. } => enc_size > 0,
            _ => true,
        }
    }

    pub open spec fn kind(self) -> CipherKind {
        match self {
            Configuration::Plaintext => CipherKind::Plaintext,
            Configuration::PartialEncrypt { enc_size, .. } => CipherKind::Prefix(enc_size as nat),
            Configuration::FullEncrypt { .. } => CipherKind::Full,
        }
    }

    /// Full encryption under a fresh random key and nonce.
    pub fn random_full() -> (c: Configuration)
        ensures
            c.kind() == CipherKind::Full,
            c.wf(),
    {
        Configuration::FullEncrypt { key: random_array::<32>(), nonce: random_array::<12>() }
    }

    /// Encryption of the first `enc_size` bytes under a fresh random key and nonce.
    pub fn random_partial(enc_size: usize) -> (c: Configuration)
        requires
            enc_size > 0,
        ensures
            c.kind() == CipherKind::Prefix(enc_size as nat),
            c.wf(),
    {
        Configuration::PartialEncrypt {
            key: random_array::<32>(),
            nonce: random_array::<12>(),
            enc_size,
        }
    }
}

/// The ChaCha20 keystream byte at `position`, for a 32-byte key and a 12-byte
/// nonce: what `chacha20::ChaCha20` XORs onto the byte at that position.
pub uninterp spec fn chacha20_keystream_byte(key: Seq<u8>, nonce: Seq<u8>, position: int) -> u8;

/// The keystream of one key and nonce ends here: the block counter has 32
/// bits and a block has 64 bytes.
pub const KEYSTREAM_LIMIT: u64 = 274_877_906_880;

/// The most bytes that one write encrypts.
pub const WRITE_CHUNK: usize = 8192;

/// `chacha20::ChaCha20`: a cipher made from `key` and `nonce`, moved to
/// `position` with `try_seek`, applied to `data` with `try_apply_keystream`.
/// Up to the end of the keystream both succeed; on success each byte has been
/// XORed with the keystream byte at its position, on failure `data` is as it was.
#[verifier::external_body]
fn chacha20_apply(key: &[u8; 32], nonce: &[u8; 12], position: u64, data: &mut [u8]) -> (ok: bool)
    ensures
        ok ==> final(data)@.len() == old(data)@.len(),
        ok ==> forall|i: int|
            0 <= i < old(data)@.len() ==> #[trigger] final(data)@[i] == old(data)@[i]
                ^ chacha20_keystream_byte(key@, nonce@, position + i),
        !ok ==> final(data)@ == old(data)@,
        position + old(data)@.len() <= KEYSTREAM_LIMIT ==> ok,
{
    let mut cipher = chacha20::ChaCha20::new(key.into(), nonce.into());
    cipher.try_seek(position).is_ok() && cipher.try_apply_keystream(data).is_ok()
}

/// One direction of a connection as mathematics: which bytes of the stream
/// are still XORed, and with what.
pub enum StreamState {
    /// Bytes pass unchanged.
    Clear,
    /// The next `remaining` bytes are XORed, the rest pass unchanged.
    Prefix { key: Seq<u8>, nonce: Seq<u8>, position: nat, remaining: nat },
    /// Every byte is XORed.
    Full { key: Seq<u8>, nonce: Seq<u8>, position: nat },
}

impl StreamState {
    /// The state of a fresh connection.
    pub open spec fn initial(config: Configuration) -> StreamState {
        match config {
            Configuration::Plaintext => StreamState::Clear,
            Configuration::PartialEncrypt { key, nonce, enc_size } => if enc_size > 0 {
                StreamState::Prefix { key: key@, nonce: nonce@, position: 0, remaining: enc_size as nat }
            } else {
                StreamState::Clear
            },
            Configuration::FullEncrypt { key, nonce } => StreamState::Full {
                key: key@,
                nonce: nonce@,
                position: 0,
            },
        }
    }

    /// What becomes of byte `b`, the `i`-th after this state.
    pub open spec fn byte_at(self, i: int, b: u8) -> u8 {
        match self {
            StreamState::Clear => b,
            StreamState::Prefix { key, nonce, position, remaining } => if i < remaining {
                b ^ chacha20_keystream_byte(key, nonce, position + i)
            } else {
                b
            },
            StreamState::Full { key, nonce, position } => b ^ chacha20_keystream_byte(
                key,
                nonce,
                position + i,
            ),
        }
    }

    /// What becomes of the next bytes of the stream.
    pub open spec fn transform(self, data: Seq<u8>) -> Seq<u8> {
        Seq::new(data.len(), |i: int| self.byte_at(i, data[i]))
    }

    /// The state after `n` more bytes.
    pub open spec fn advance(self, n: nat) -> StreamState {
        match self {
            StreamState::Clear => StreamState::Clear,
            StreamState::Prefix { key, nonce, position, remaining } => if n < remaining {
                StreamState::Prefix {
                    key,
                    nonce,
                    position: position + n,
                    remaining: (remaining - n) as nat,
                }
            } else {
                StreamState::Clear
            },
            StreamState::Full { key, nonce, position } => StreamState::Full {
                key,
                nonce,
                position: position + n,
            },
        }
    }

    /// How many of the next `n` bytes are XORed.
    pub open spec fn covered(self, n: nat) -> nat {
        match self {
            StreamState::Clear => 0,
            StreamState::Prefix { remaining, .. } => if n < remaining { n } else { remaining },
            StreamState::Full { .. } => n,
        }
    }

    /// Where the keystream stands.
    pub open spec fn position(self) -> nat {
        match self {
            StreamState::Clear => 0,
            StreamState::Prefix { position, .. } => position,
            StreamState::Full { position, .. } => position,
        }
    }

    /// Whether the next `n` bytes can be transformed before the keystream ends.
    pub open spec fn can_take(self, n: nat) -> bool {
        self.position() + self.covered(n) <= KEYSTREAM_LIMIT
    }
}

/// The transform fails where the keystream of a key and nonce is used up.
#[derive(Debug, Clone, Copy, PartialEq, Eq, Structural)]
pub enum CipherError {
    KeystreamExhausted,
}

/// The cipher state of one direction.
#[derive(Debug, Clone, Copy, PartialEq, Eq)]
pub enum CipherState {
    Clear,
    Partial { remaining: usize, key: [u8; 32], nonce: [u8; 12], position: u64 },
    Full { key: [u8; 32], nonce: [u8; 12], position: u64 },
}

impl View for CipherState {
    type V = StreamState;

    open spec fn view(&self) -> StreamState {
        match *self {
            CipherState::Clear => StreamState::Clear,
            CipherState::Partial { remaining, key, nonce, position } => StreamState::Prefix {
                key: key@,
                nonce: nonce@,
                position: position as nat,
                remaining: remaining as nat,
            },
            CipherState::Full { key, nonce, position } => StreamState::Full {
                key: key@,
                nonce: nonce@,
                position: position as nat,
            },
        }
    }
}

impl CipherState {
    /// The state of a fresh connection under `config`.
    pub fn new(config: &Configuration) -> (state: CipherState)
        ensures
            state@ == StreamState::initial(*config),
    {
        match *config {
            Configuration::Plaintext => CipherState::Clear,
            Configuration::PartialEncrypt { key, nonce, enc_size } => {
                if enc_size > 0 {
                    CipherState::Partial { remaining: enc_size, key, nonce, position: 0 }
                } else {
                    CipherState::Clear
                }
            },
            Configuration::FullEncrypt { key, nonce } => CipherState::Full { key, nonce, position: 0 },
        }
    }

    /// How many of the next `n` bytes this state XORs.
    pub fn covered(&self, n: usize) -> (c: usize)
        ensures
            c == self@.covered(n as nat),
    {
        match *self {
            CipherState::Clear => 0,
            CipherState::Partial { remaining, .. } => if n < remaining { n } else { remaining },
            CipherState::Full { .. } => n,
        }
    }

    /// Whether the next `n` bytes can be transformed before the keystream ends.
    pub fn can_take(&self, n: usize) -> (yes: bool)
        ensures
            yes == self@.can_take(n as nat),
    {
        let c = self.covered(n);
        match *self {
            CipherState::Clear => true,
            CipherState::Partial { position, .. } => position <= KEYSTREAM_LIMIT && c as u64
                <= KEYSTREAM_LIMIT - position,
            CipherState::Full { position, .. } => position <= KEYSTREAM_LIMIT && c as u64
                <= KEYSTREAM_LIMIT - position,
        }
    }

    /// Moves the state `n` bytes on.
    fn advance(&mut self, n: usize)
        requires
            old(self)@.can_take(n as nat),
        ensures
            final(self)@ == old(self)@.advance(n as nat),
    {
        match *self {
            CipherState::Clear => {},
            CipherState::Partial { remaining, key, nonce, position } => {
                if n < remaining {
                    *self = CipherState::Partial {
                        remaining: remaining - n,
                        key,
                        nonce,
                        position: position + n as u64,
                    };
                } else {
                    *self = CipherState::Clear;
                }
            },
            CipherState::Full { key, nonce, position } => {
                *self = CipherState::Full { key, nonce, position: position + n as u64 };
            },
        }
    }

    /// Transforms `data`, the next bytes of the stream, in place, and moves
    /// the state past them. Where the keystream would end first, nothing
    /// changes and the error says so.
    pub fn apply(&mut self, data: &mut [u8]) -> (res: Result<(), CipherError>)
        ensures
            res is Ok <==> old(self)@.can_take(old(data)@.len()),
            res is Ok ==> final(data)@ == old(self)@.transform(old(data)@) && final(self)@ == old(
                self,
            )@.advance(old(data)@.len()),
            res is Err ==> final(data)@ == old(data)@ && *final(self) == *old(self),
    {
        let len = data.len();
        if !self.can_take(len) {
            return Err(CipherError::KeystreamExhausted);
        }
        let ghost before = data@;
        let ghost state = self@;
        match *self {
            CipherState::Clear => {
                assert(data@ =~= state.transform(before));
            },
            CipherState::Partial { remaining, key, nonce, position } => {
                let n = self.covered(len);
                let (head, tail) = data.split_at_mut(n);
                let ok = chacha20_apply(&key, &nonce, position, head);
                assert(ok);
                assert(data@ =~= state.transform(before));
            },
            CipherState::Full { key, nonce, position } => {
                let ok = chacha20_apply(&key, &nonce, position, data);
                assert(ok);
                assert(data@ =~= state.transform(before));
            },
        }
        self.advance(len);
        Ok(())
    }
}

/// A stream written or read in pieces: each piece is transformed by the state
/// that the pieces before it have left.
pub open spec fn transform_chunks(state: StreamState, chunks: Seq<Seq<u8>>) -> Seq<u8>
    decreases chunks.len(),
{
    if chunks.len() == 0 {
        Seq::empty()
    } else {
        state.transform(chunks[0]) + transform_chunks(
            state.advance(chunks[0].len()),
            chunks.drop_first(),
        )
    }
}

/// The transform is its own inverse: what one end encrypts, the other end,
/// in the same state, decrypts.
pub proof fn lemma_transform_involution(state: StreamState, data: Seq<u8>)
    ensures
        state.transform(state.transform(data)) == data,
{
    let once = state.transform(data);
    let twice = state.transform(once);
    assert forall|i: int| 0 <= i < data.len() implies twice[i] == data[i] by {
        assert(forall|x: u8, y: u8| (x ^ y) ^ y == x) by (bit_vector);
    }
    assert(twice =~= data);
}

/// Transforming two pieces one after the other is transforming them as one.
pub proof fn lemma_transform_concat(state: StreamState, a: Seq<u8>, b: Seq<u8>)
    ensures
        state.transform(a + b) == state.transform(a) + state.advance(a.len()).transform(b),
{
    let whole = state.transform(a + b);
    let parts = state.transform(a) + state.advance(a.len()).transform(b);
    assert forall|i: int| 0 <= i < whole.len() implies whole[i] == parts[i] by {
        if i < a.len() {
            assert((a + b)[i] == a[i]);
        } else {
            assert((a + b)[i] == b[i - a.len()]);
        }
    }
    assert(whole =~= parts);
}

/// Moving on in two steps is moving on in one.
pub proof fn lemma_advance_add(state: StreamState, m: nat, n: nat)
    ensures
        state.advance(m).advance(n) == state.advance(m + n),
{
}

/// How a stream is cut into pieces does not change what it is transformed to.
pub proof fn lemma_transform_chunks(state: StreamState, chunks: Seq<Seq<u8>>)
    ensures
        transform_chunks(state, chunks) == state.transform(chunks.flatten()),
    decreases chunks.len(),
{
    if chunks.len() == 0 {
        assert(chunks.flatten() =~= Seq::<u8>::empty());
        assert(state.transform(Seq::<u8>::empty()) =~= Seq::<u8>::empty());
    } else {
        let first = chunks[0];
        let rest = chunks.drop_first();
        lemma_transform_chunks(state.advance(first.len()), rest);
        lemma_transform_concat(state, first, rest.flatten());
        assert(chunks.flatten() == first + rest.flatten());
    }
}

/// With the same configuration at both ends, what is written at one end in
/// any pieces, and read at the other in any pieces, comes out as it went in.
pub proof fn lemma_cipher_round_trip(
    config: Configuration,
    written: Seq<Seq<u8>>,
    read: Seq<Seq<u8>>,
)
    requires
        read.flatten() == transform_chunks(StreamState::initial(config), written),
    ensures
        transform_chunks(StreamState::initial(config), read) == written.flatten(),
{
    let state = StreamState::initial(config);
    lemma_transform_chunks(state, written);
    lemma_transform_chunks(state, read);
    lemma_transform_involution(state, written.flatten());
}

/// Under a partial configuration the bytes from `enc_size` on pass unchanged,
/// and a byte before it changes exactly where its keystream byte is not zero.
pub proof fn lemma_prefix_boundary(
    key: [u8; 32],
    nonce: [u8; 12],
    enc_size: usize,
    data: Seq<u8>,
    i: int,
)
    requires
        0 <= i < data.len(),
    ensures
        ({
            let config = Configuration::PartialEncrypt { key, nonce, enc_size };
            let out = StreamState::initial(config).transform(data);
            &&& out.len() == data.len()
            &&& i >= enc_size ==> out[i] == data[i]
            &&& i < enc_size ==> (out[i] != data[i] <==> chacha20_keystream_byte(key@, nonce@, i)
                != 0)
        }),
{
    assert(forall|x: u8, y: u8| ((x ^ y) != x) <==> (y != 0)) by (bit_vector);
}

/// Both directions of a connection: what is written is encrypted under the
/// configuration this end sends with, what is read is decrypted under the one
/// the peer sends with.
pub struct CipherStream<S> {
    stream: S,
    encrypt_state: CipherState,
    decrypt_state: CipherState,
}

/// How many bytes of a write of `len` bytes are handed to the stream at once.
pub open spec fn planned_write_len(state: StreamState, len: nat) -> nat {
    match state {
        StreamState::Clear => len,
        _ => if state.covered(len) < WRITE_CHUNK { state.covered(len) } else { WRITE_CHUNK as nat },
    }
}

impl<S> CipherStream<S> {
    pub closed spec fn stream(&self) -> S {
        self.stream
    }

    pub closed spec fn encrypt_state(&self) -> CipherState {
        self.encrypt_state
    }

    pub closed spec fn decrypt_state(&self) -> CipherState {
        self.decrypt_state
    }

    /// Wraps `stream`, a fresh connection.
    pub fn new(stream: S, encrypt_config: &Configuration, decrypt_config: &Configuration) -> (cs: Self)
        ensures
            cs.stream() == stream,
            cs.encrypt_state()@ == StreamState::initial(*encrypt_config),
            cs.decrypt_state()@ == StreamState::initial(*decrypt_config),
    {
        CipherStream {
            stream,
            encrypt_state: CipherState::new(encrypt_config),
            decrypt_state: CipherState::new(decrypt_config),
        }
    }

    /// The wrapped stream.
    pub fn get_ref(&self) -> (stream: &S)
        ensures
            *stream == self.stream(),
    {
        &self.stream
    }

    /// The wrapped stream, to read from it or write to it.
    pub fn get_mut(&mut self) -> (stream: &mut S)
        ensures
            *stream == old(self).stream(),
            final(self).stream() == *final(stream),
            final(self).encrypt_state() == old(self).encrypt_state(),
            final(self).decrypt_state() == old(self).decrypt_state(),
    {
        &mut self.stream
    }

    /// Gives the wrapped stream back.
    pub fn into_inner(self) -> (stream: S)
        ensures
            stream == self.stream(),
    {
        self.stream
    }

    /// Decrypts in place the bytes that a read has just put at the end of the
    /// caller's buffer.
    pub fn decrypt_read(&mut self, filled: &mut [u8]) -> (res: Result<(), CipherError>)
        ensures
            final(self).stream() == old(self).stream(),
            final(self).encrypt_state() == old(self).encrypt_state(),
            res is Ok <==> old(self).decrypt_state()@.can_take(old(filled)@.len()),
            res is Ok ==> final(filled)@ == old(self).decrypt_state()@.transform(old(filled)@)
                && final(self).decrypt_state()@ == old(self).decrypt_state()@.advance(
                old(filled)@.len(),
            ),
            res is Err ==> final(filled)@ == old(filled)@ && final(self).decrypt_state() == old(
                self,
            ).decrypt_state(),
    {
        self.decrypt_state.apply(filled)
    }

    /// The bytes to hand to the stream for a write of `buf`: the start of
    /// `buf`, encrypted. The state does not move until `commit_write`.
    pub fn encrypt_for_write(&self, buf: &[u8]) -> (res: Result<Vec<u8>, CipherError>)
        ensures
            ({
                let state = self.encrypt_state()@;
                let n = planned_write_len(state, buf@.len());
                &&& res is Ok <==> state.can_take(n)
                &&& res matches Ok(out) ==> out@ == state.transform(buf@.take(n as int))
            }),
    {
        let mut state = self.encrypt_state;
        let n = match state {
            CipherState::Clear => buf.len(),
            _ => {
                let c = state.covered(buf.len());
                if c < WRITE_CHUNK { c } else { WRITE_CHUNK }
            },
        };
        let mut out = slice_to_vec(slice_subrange(buf, 0, n));
        assert(out@ =~= buf@.take(n as int));
        match state.apply(out.as_mut_slice()) {
            Ok(()) => Ok(out),
            Err(e) => Err(e),
        }
    }

    /// Moves the write side on by the `accepted` bytes that the stream took
    /// of the last encrypted buffer: the rest of it will be encrypted again.
    pub fn commit_write(&mut self, accepted: usize) -> (res: Result<(), CipherError>)
        ensures
            final(self).stream() == old(self).stream(),
            final(self).decrypt_state() == old(self).decrypt_state(),
            res is Ok <==> old(self).encrypt_state()@.can_take(accepted as nat),
            res is Ok ==> final(self).encrypt_state()@ == old(self).encrypt_state()@.advance(
                accepted as nat,
            ),
            res is Err ==> final(self).encrypt_state() == old(self).encrypt_state(),
    {
        if self.encrypt_state.can_take(accepted) {
            self.encrypt_state.advance(accepted);
            Ok(())
        } else {
            Err(CipherError::KeystreamExhausted)
        }
    }
}

} // verus!
