//! A stream that counts the bytes that pass.

use vstd::prelude::*;

verus! {

/// The stream `S` with the counts of what was read from it and written to
/// it. The counts wrap around at the end of their range.
pub struct CountedStream<S> {
    stream: S,
    bytes_received: usize,
    bytes_sent: usize,
}

/// A count moved on by `n`, wrapping around.
pub open spec fn wrapped_sum(count: usize, n: usize) -> usize {
    if count + n > usize::MAX {
        (count + n - usize::MAX - 1) as usize
    } else {
        (count + n) as usize
    }
}

impl<S> CountedStream<S> {
    pub closed spec fn stream(&self) -> S {
        self.stream
    }

    pub closed spec fn received(&self) -> usize {
        self.bytes_received
    }

    pub closed spec fn sent(&self) -> usize {
        self.bytes_sent
    }

    /// Wraps `stream`; the counts go on from the given ones.
    pub fn new(stream: S, bytes_received: usize, bytes_sent: usize) -> (cs: Self)
        ensures
            cs.stream() == stream,
            cs.received() == bytes_received,
            cs.sent() == bytes_sent,
    {
        CountedStream { stream, bytes_received, bytes_sent }
    }

    /// Counts `n` bytes that a read has brought.
    pub fn on_read(&mut self, n: usize)
        ensures
            final(self).received() == wrapped_sum(old(self).received(), n),
            final(self).sent() == old(self).sent(),
            final(self).stream() == old(self).stream(),
    {
        self.bytes_received = self.bytes_received.wrapping_add(n);
    }

    /// Counts `n` bytes that a write has taken.
    pub fn on_write(&mut self, n: usize)
        ensures
            final(self).sent() == wrapped_sum(old(self).sent(), n),
            final(self).received() == old(self).received(),
            final(self).stream() == old(self).stream(),
    {
        self.bytes_sent = self.bytes_sent.wrapping_add(n);
    }

    /// The bytes read so far.
    pub fn bytes_received(&self) -> (n: usize)
        ensures
            n == self.received(),
    {
        self.bytes_received
    }

    /// The bytes written so far.
    pub fn bytes_sent(&self) -> (n: usize)
        ensures
            n == self.sent(),
    {
        self.bytes_sent
    }

    /// The stream below.
    pub fn get_mut(&mut self) -> (stream: &mut S)
        ensures
            *stream == old(self).stream(),
            final(self).stream() == *final(stream),
            final(self).received() == old(self).received(),
            final(self).sent() == old(self).sent(),
    {
        &mut self.stream
    }
}

} // verus!
