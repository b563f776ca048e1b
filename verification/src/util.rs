//! Small helpers shared by source and receiver.

use vstd::prelude::*;

use crate::protocol::CHANNELS;

verus! {

/// The per-session packet sequence counter, starting at one.
pub struct Sequence(u64);

impl Sequence {
    /// The number the next packet will carry.
    pub closed spec fn spec_next(&self) -> int {
        self.0 as int
    }

    pub fn new() -> (r: Sequence)
        ensures
            r.spec_next() == 1,
    {
        Sequence(1)
    }

    /// Hand out the next number.
    pub fn next(&mut self) -> (r: u64)
        requires
            old(self).spec_next() < u64::MAX,
        ensures
            r == old(self).spec_next(),
            final(self).spec_next() == old(self).spec_next() + 1,
    {
        let seq: u64 = self.0;
        self.0 = self.0 + 1;
        seq
    }
}

/// Whether an interleaved sample buffer holds whole frames.
pub fn frame_aligned_buffer(audio_buffer: &[u32]) -> (r: bool)
    ensures
        r == (audio_buffer@.len() as int % (CHANNELS as int) == 0),
{
    (audio_buffer.len() % CHANNELS) == 0
}

} // verus!
