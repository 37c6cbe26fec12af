//! A stream whose HTTP head has been read: the parsed head, the bytes that
//! were read past the head, and the stream itself.

use vstd::prelude::*;

verus! {

/// The head `H` of a message, what was read after it, and the stream `S`
/// that the rest will come from. Reads are served from the remnant first.
pub struct HttpStream<H, S> {
    head: H,
    parse_remnant: Vec<u8>,
    inner: S,
}

impl<H, S> HttpStream<H, S> {
    pub closed spec fn spec_head(&self) -> H {
        self.head
    }

    /// The bytes read past the head and not yet handed out.
    pub closed spec fn remnant(&self) -> Seq<u8> {
        self.parse_remnant@
    }

    pub closed spec fn inner(&self) -> S {
        self.inner
    }

    /// A stream from its parts: the head, the bytes already read past the
    /// head, and the stream.
    pub fn new(head: H, parse_remnant: Vec<u8>, inner: S) -> (stream: Self)
        ensures
            stream.spec_head() == head,
            stream.remnant() == parse_remnant@,
            stream.inner() == inner,
    {
        HttpStream { head, parse_remnant, inner }
    }

    /// The parsed head.
    pub fn head(&self) -> (head: &H)
        ensures
            *head == self.spec_head(),
    {
        &self.head
    }

    /// Parts the head from the stream; the remnant stays with the stream.
    pub fn take_head(self) -> (parts: (H, HttpStream<(), S>))
        ensures
            parts.0 == self.spec_head(),
            parts.1.remnant() == self.remnant(),
            parts.1.inner() == self.inner(),
    {
        let HttpStream { head, parse_remnant, inner } = self;
        (head, HttpStream { head: (), parse_remnant, inner })
    }

    /// Whether a read is served from the remnant.
    pub fn has_remnant(&self) -> (yes: bool)
        ensures
            yes == (self.remnant().len() > 0),
    {
        self.parse_remnant.len() > 0
    }

    /// Serves a read of at most `room` bytes from the remnant: the first
    /// bytes of the remnant, as many as fit, in their order. They are taken
    /// off the remnant.
    pub fn read_remnant(&mut self, room: usize) -> (bytes: Vec<u8>)
        ensures
            bytes@.len() == if room < old(self).remnant().len() { room as nat } else { old(self).remnant().len() },
            bytes@ == old(self).remnant().take(bytes@.len() as int),
            final(self).remnant() == old(self).remnant().skip(bytes@.len() as int),
            final(self).spec_head() == old(self).spec_head(),
            final(self).inner() == old(self).inner(),
    {
        let n = if room < self.parse_remnant.len() { room } else { self.parse_remnant.len() };
        let ghost before = self.parse_remnant@;
        let rest = self.parse_remnant.split_off(n);
        let mut bytes = rest;
        std::mem::swap(&mut bytes, &mut self.parse_remnant);
        assert(bytes@ =~= before.take(n as int));
        assert(self.parse_remnant@ =~= before.skip(n as int));
        bytes
    }

    /// The stream below.
    pub fn get_ref(&self) -> (inner: &S)
        ensures
            *inner == self.inner(),
    {
        &self.inner
    }

    /// The stream below, to read from it once the remnant is used up, or to
    /// write to it.
    pub fn get_mut(&mut self) -> (inner: &mut S)
        ensures
            *inner == old(self).inner(),
            final(self).inner() == *final(inner),
            final(self).remnant() == old(self).remnant(),
            final(self).spec_head() == old(self).spec_head(),
    {
        &mut self.inner
    }

    /// Gives up the head and hands out the remnant and the stream.
    pub fn into_parts(self) -> (parts: (Vec<u8>, S))
        ensures
            parts.0@ == self.remnant(),
            parts.1 == self.inner(),
    {
        (self.parse_remnant, self.inner)
    }
}

/// What was read past a head of `head_len` bytes comes out of the stream
/// first and unchanged: a first read with room for `room` bytes returns the
/// bytes of `data` that follow the head, as many as fit, and all of them
/// where all fit.
pub proof fn lemma_remnant_comes_first(data: Seq<u8>, head_len: int, room: int)
    requires
        0 <= head_len <= data.len(),
        0 <= room,
    ensures
        ({
            let remnant = data.skip(head_len);
            let n = if room < remnant.len() { room } else { remnant.len() as int };
            &&& remnant.take(n) == data.subrange(head_len, head_len + n)
            &&& room >= remnant.len() ==> remnant.take(n) == data.skip(head_len)
        }),
{
    let remnant = data.skip(head_len);
    let n = if room < remnant.len() { room } else { remnant.len() as int };
    assert(remnant.take(n) =~= data.subrange(head_len, head_len + n));
    if room >= remnant.len() {
        assert(remnant.take(n) =~= remnant);
    }
}

} // verus!
