//! Packet and audio buffers.
//!
//! A `ByteBuffer` is one fixed, zeroed allocation with a movable front
//! offset and an adjustable visible length: packets are built in place and
//! payloads are handed on by advancing the offset, so the hot path never
//! reallocates. An `AudioBuffer` holds interleaved samples as their 32-bit
//! wire words and is consumed from the front as the stream plays.

use vstd::bytes::{
    spec_u32_from_le_bytes, spec_u32_to_le_bytes, spec_u64_from_le_bytes, spec_u64_to_le_bytes,
    u32_from_le_bytes, u32_to_le_bytes, u64_from_le_bytes, u64_to_le_bytes,
};
use vstd::prelude::*;
use vstd::slice::slice_subrange;

use crate::protocol::CHANNELS;
use crate::time::SampleDuration;

verus! {

/// `s` with the bytes from `pos` on replaced by `repl`.
pub open spec fn splice_bytes(s: Seq<u8>, pos: int, repl: Seq<u8>) -> Seq<u8> {
    s.take(pos) + repl + s.skip(pos + repl.len())
}

/// A byte buffer: one allocation, a front offset, and a visible length.
/// The view is the visible window; bytes between the visible length and the
/// capacity keep their values and reappear when the length is raised.
#[derive(Debug)]
pub struct ByteBuffer {
    alloc: Vec<u8>,
    offset: usize,
    length: usize,
}

impl View for ByteBuffer {
    type V = Seq<u8>;

    closed spec fn view(&self) -> Seq<u8> {
        self.full_window().take(self.length as int)
    }
}

impl ByteBuffer {
    /// All bytes from the front offset to the end of the allocation: the
    /// visible window plus what a later `set_len` can expose.
    pub closed spec fn full_window(&self) -> Seq<u8> {
        self.alloc@.skip(self.offset as int)
    }

    pub closed spec fn wf(&self) -> bool {
        &&& self.offset <= self.alloc.len()
        &&& self.length <= self.alloc.len() - self.offset
    }

    pub open spec fn spec_capacity(&self) -> int {
        self.full_window().len() as int
    }

    /// A fresh zeroed buffer of the given capacity, with nothing visible yet.
    pub fn allocate(capacity: usize) -> (r: ByteBuffer)
        ensures
            r.wf(),
            r.spec_capacity() == capacity,
            r@.len() == 0,
            r.full_window() == Seq::new(capacity as nat, |i: int| 0u8),
    {
        let alloc: Vec<u8> = vec![0u8; capacity];
        let r = ByteBuffer { alloc, offset: 0, length: 0 };
        proof {
            assert(r.full_window() =~= Seq::new(capacity as nat, |i: int| 0u8));
            assert(r@ =~= Seq::<u8>::empty());
        }
        r
    }

    /// A buffer owning the given bytes, all of them visible.
    pub fn from_vec(bytes: Vec<u8>) -> (r: ByteBuffer)
        ensures
            r.wf(),
            r@ == bytes@,
            r.full_window() == bytes@,
    {
        let length: usize = bytes.len();
        let r = ByteBuffer { alloc: bytes, offset: 0, length };
        proof {
            assert(r.full_window() =~= r.alloc@);
            assert(r@ =~= r.alloc@);
        }
        r
    }

    pub fn len(&self) -> (r: usize)
        requires
            self.wf(),
        ensures
            r == self@.len(),
    {
        self.length
    }

    pub fn capacity(&self) -> (r: usize)
        requires
            self.wf(),
        ensures
            r == self.spec_capacity(),
    {
        self.alloc.len() - self.offset
    }

    /// Resize the visible window within the allocation.
    pub fn set_len(&mut self, len: usize)
        requires
            old(self).wf(),
            len <= old(self).spec_capacity(),
        ensures
            final(self).wf(),
            final(self).full_window() == old(self).full_window(),
            final(self)@ == old(self).full_window().take(len as int),
            final(self)@.len() == len,
            forall|j: int|
                0 <= j < len && j < old(self)@.len() ==> final(self)@[j] == old(self)@[j],
    {
        self.length = len;
    }

    /// Drop `offset` bytes from the front, shrinking capacity and length.
    pub fn offset_in_place(&mut self, offset: usize)
        requires
            old(self).wf(),
            offset <= old(self)@.len(),
        ensures
            final(self).wf(),
            final(self).full_window() == old(self).full_window().skip(offset as int),
            final(self)@ == old(self)@.skip(offset as int),
            final(self).spec_capacity() == old(self).spec_capacity() - offset,
    {
        self.offset = self.offset + offset;
        self.length = self.length - offset;
        proof {
            assert(final(self).full_window() =~= old(self).full_window().skip(offset as int));
            assert(final(self)@ =~= old(self)@.skip(offset as int));
        }
    }

    /// The buffer with `offset` bytes dropped from the front.
    pub fn offset(self, offset: usize) -> (r: ByteBuffer)
        requires
            self.wf(),
            offset <= self@.len(),
        ensures
            r.wf(),
            r.full_window() == self.full_window().skip(offset as int),
            r@ == self@.skip(offset as int),
            r.spec_capacity() == self.spec_capacity() - offset,
    {
        let mut r = self;
        r.offset_in_place(offset);
        r
    }

    /// The visible window as a borrowed byte slice.
    pub fn as_slice(&self) -> (r: &[u8])
        requires
            self.wf(),
        ensures
            r@ == self@,
    {
        let r: &[u8] = slice_subrange(
            self.alloc.as_slice(),
            self.offset,
            self.offset + self.length,
        );
        proof {
            assert(r@ =~= self@);
        }
        r
    }

    pub fn get(&self, i: usize) -> (r: u8)
        requires
            self.wf(),
            i < self@.len(),
        ensures
            r == self@[i as int],
    {
        self.alloc[self.offset + i]
    }

    pub fn set(&mut self, i: usize, v: u8)
        requires
            old(self).wf(),
            i < old(self)@.len(),
        ensures
            final(self).wf(),
            final(self)@ == old(self)@.update(i as int, v),
            final(self).full_window() == old(self).full_window().update(i as int, v),
    {
        let idx: usize = self.offset + i;
        self.alloc[idx] = v;
        proof {
            assert(final(self).full_window() =~= old(self).full_window().update(i as int, v));
            assert(final(self)@ =~= old(self)@.update(i as int, v));
        }
    }

    /// Read a little-endian 32-bit field at `pos` in the visible window.
    pub fn get_u32_le(&self, pos: usize) -> (r: u32)
        requires
            self.wf(),
            pos + 4 <= self@.len(),
        ensures
            r == spec_u32_from_le_bytes(self@.subrange(pos as int, pos as int + 4)),
    {
        let s: &[u8] = slice_subrange(
            self.alloc.as_slice(),
            self.offset + pos,
            self.offset + pos + 4,
        );
        proof {
            assert(s@ =~= self@.subrange(pos as int, pos as int + 4));
        }
        u32_from_le_bytes(s)
    }

    /// Read a little-endian 64-bit field at `pos` in the visible window.
    pub fn get_u64_le(&self, pos: usize) -> (r: u64)
        requires
            self.wf(),
            pos + 8 <= self@.len(),
        ensures
            r == spec_u64_from_le_bytes(self@.subrange(pos as int, pos as int + 8)),
    {
        let s: &[u8] = slice_subrange(
            self.alloc.as_slice(),
            self.offset + pos,
            self.offset + pos + 8,
        );
        proof {
            assert(s@ =~= self@.subrange(pos as int, pos as int + 8));
        }
        u64_from_le_bytes(s)
    }

    /// Write a little-endian 32-bit field at `pos` in the visible window.
    pub fn put_u32_le(&mut self, pos: usize, x: u32)
        requires
            old(self).wf(),
            pos + 4 <= old(self)@.len(),
        ensures
            final(self).wf(),
            final(self)@ == splice_bytes(old(self)@, pos as int, spec_u32_to_le_bytes(x)),
            final(self).full_window() == splice_bytes(
                old(self).full_window(),
                pos as int,
                spec_u32_to_le_bytes(x),
            ),
    {
        let bytes: Vec<u8> = u32_to_le_bytes(x);
        self.set(pos, bytes[0]);
        self.set(pos + 1, bytes[1]);
        self.set(pos + 2, bytes[2]);
        self.set(pos + 3, bytes[3]);
        proof {
            assert(final(self)@ =~= splice_bytes(old(self)@, pos as int, spec_u32_to_le_bytes(x)));
            assert(final(self).full_window() =~= splice_bytes(
                old(self).full_window(),
                pos as int,
                spec_u32_to_le_bytes(x),
            ));
        }
    }

    /// Write a little-endian 64-bit field at `pos` in the visible window.
    pub fn put_u64_le(&mut self, pos: usize, x: u64)
        requires
            old(self).wf(),
            pos + 8 <= old(self)@.len(),
        ensures
            final(self).wf(),
            final(self)@ == splice_bytes(old(self)@, pos as int, spec_u64_to_le_bytes(x)),
            final(self).full_window() == splice_bytes(
                old(self).full_window(),
                pos as int,
                spec_u64_to_le_bytes(x),
            ),
    {
        let bytes: Vec<u8> = u64_to_le_bytes(x);
        self.set(pos, bytes[0]);
        self.set(pos + 1, bytes[1]);
        self.set(pos + 2, bytes[2]);
        self.set(pos + 3, bytes[3]);
        self.set(pos + 4, bytes[4]);
        self.set(pos + 5, bytes[5]);
        self.set(pos + 6, bytes[6]);
        self.set(pos + 7, bytes[7]);
        proof {
            assert(final(self)@ =~= splice_bytes(old(self)@, pos as int, spec_u64_to_le_bytes(x)));
            assert(final(self).full_window() =~= splice_bytes(
                old(self).full_window(),
                pos as int,
                spec_u64_to_le_bytes(x),
            ));
        }
    }
}

/// The 32-bit sample words a little-endian byte region stands for.
pub open spec fn words_of_bytes(s: Seq<u8>) -> Seq<u32> {
    Seq::new((s.len() / 4) as nat, |i: int| spec_u32_from_le_bytes(s.subrange(4 * i, 4 * i + 4)))
}

/// Writing one word's bytes changes exactly that word.
pub proof fn lemma_words_after_put(data_old: Seq<u8>, data_new: Seq<u8>, w: int, x: u32)
    requires
        data_old.len() % 4 == 0,
        0 <= w,
        4 * w + 4 <= data_old.len(),
        data_new == splice_bytes(data_old, 4 * w, spec_u32_to_le_bytes(x)),
    ensures
        words_of_bytes(data_new) == words_of_bytes(data_old).update(w, x),
{
    vstd::bytes::lemma_auto_spec_u32_to_from_le_bytes();
    assert(data_new.len() == data_old.len());
    assert(data_new.subrange(4 * w, 4 * w + 4) =~= spec_u32_to_le_bytes(x));
    assert forall|m: int| 0 <= m < data_old.len() / 4 && m != w implies #[trigger] words_of_bytes(
        data_new,
    )[m] == words_of_bytes(data_old)[m] by {
        assert(data_new.subrange(4 * m, 4 * m + 4) =~= data_old.subrange(4 * m, 4 * m + 4));
    }
    assert(words_of_bytes(data_new) =~= words_of_bytes(data_old).update(w, x));
}

/// Interleaved audio as 32-bit sample words, consumed from the front.
pub struct AudioBuffer {
    words: Vec<u32>,
    start: usize,
}

impl View for AudioBuffer {
    type V = Seq<u32>;

    closed spec fn view(&self) -> Seq<u32> {
        self.words@.skip(self.start as int)
    }
}

impl AudioBuffer {
    /// Well-formed: the unconsumed part holds whole frames.
    pub closed spec fn wf(&self) -> bool {
        &&& self.start <= self.words.len()
        &&& (self.words.len() - self.start) % (CHANNELS as int) == 0
    }

    /// A zeroed buffer holding the given duration of silence.
    pub fn allocate(duration: SampleDuration) -> (r: AudioBuffer)
        requires
            duration.0 * CHANNELS <= usize::MAX,
        ensures
            r.wf(),
            r@ == Seq::new((duration.0 * CHANNELS) as nat, |i: int| 0u32),
    {
        let count: usize = duration.as_buffer_offset();
        let words: Vec<u32> = vec![0u32; count];
        let r = AudioBuffer { words, start: 0 };
        proof {
            assert(r@ =~= Seq::new((duration.0 * CHANNELS) as nat, |i: int| 0u32));
        }
        r
    }

    /// The audio a whole-frame little-endian byte buffer carries.
    pub fn from_buffer(buffer: ByteBuffer) -> (r: AudioBuffer)
        requires
            buffer.wf(),
            buffer@.len() as int % 4 == 0,
            (buffer@.len() as int / 4) % (CHANNELS as int) == 0,
        ensures
            r.wf(),
            r@ == words_of_bytes(buffer@),
    {
        let n: usize = buffer.len() / 4;
        let mut words: Vec<u32> = Vec::new();
        let mut i: usize = 0;
        while i < n
            invariant
                buffer.wf(),
                n == buffer@.len() as int / 4,
                buffer@.len() as int % 4 == 0,
                i <= n,
                words@.len() == i,
                forall|j: int| 0 <= j < i ==> words@[j] == words_of_bytes(buffer@)[j],
            decreases n - i,
        {
            let w: u32 = buffer.get_u32_le(4 * i);
            words.push(w);
            i = i + 1;
        }
        proof {
            assert(words@ =~= words_of_bytes(buffer@));
        }
        AudioBuffer::from_words(words)
    }

    /// An empty buffer.
    pub fn empty() -> (r: AudioBuffer)
        ensures
            r.wf(),
            r@.len() == 0,
    {
        AudioBuffer { words: Vec::new(), start: 0 }
    }

    /// A buffer owning the given whole-frame sample words.
    pub fn from_words(words: Vec<u32>) -> (r: AudioBuffer)
        requires
            words@.len() as int % (CHANNELS as int) == 0,
        ensures
            r.wf(),
            r@ == words@,
    {
        let r = AudioBuffer { words, start: 0 };
        proof {
            assert(r@ =~= r.words@);
        }
        r
    }

    pub fn is_empty(&self) -> (r: bool)
        requires
            self.wf(),
        ensures
            r == (self@.len() == 0),
    {
        self.words.len() == self.start
    }

    /// The duration of the unconsumed audio.
    pub fn duration(&self) -> (r: SampleDuration)
        requires
            self.wf(),
        ensures
            r.0 * CHANNELS == self@.len(),
    {
        SampleDuration(((self.words.len() - self.start) / CHANNELS) as u64)
    }

    /// The unconsumed samples as a borrowed slice.
    pub fn samples(&self) -> (r: &[u32])
        requires
            self.wf(),
        ensures
            r@ == self@,
    {
        let r: &[u32] = slice_subrange(self.words.as_slice(), self.start, self.words.len());
        proof {
            assert(r@ =~= self@);
        }
        r
    }

    /// Copy from the front of this buffer into the front of `out`,
    /// consuming what was copied and returning its duration. Whatever of
    /// `out` is not covered keeps its old samples.
    pub fn drain_to(&mut self, out: &mut Vec<u32>) -> (copied: SampleDuration)
        requires
            old(self).wf(),
            old(out)@.len() as int % (CHANNELS as int) == 0,
        ensures
            final(self).wf(),
            copied.0 * CHANNELS == vstd::math::min(old(self)@.len() as int, old(out)@.len() as int),
            final(self)@ == old(self)@.skip((copied.0 * CHANNELS) as int),
            final(out)@.len() == old(out)@.len(),
            forall|j: int|
                0 <= j < old(out)@.len() ==> final(out)@[j] == (if j < copied.0 * CHANNELS {
                    old(self)@[j]
                } else {
                    old(out)@[j]
                }),
    {
        let mine: usize = self.words.len() - self.start;
        let count: usize = if mine < out.len() {
            mine
        } else {
            out.len()
        };
        let mut j: usize = 0;
        while j < count
            invariant
                j <= count,
                self.wf(),
                self == old(self),
                count <= self@.len(),
                count <= out@.len(),
                out@.len() == old(out)@.len(),
                forall|k: int|
                    0 <= k < out@.len() ==> out@[k] == (if k < j {
                        old(self)@[k]
                    } else {
                        old(out)@[k]
                    }),
            decreases count - j,
        {
            let v: u32 = self.words[self.start + j];
            out[j] = v;
            j = j + 1;
        }
        let copied: SampleDuration = SampleDuration((count / CHANNELS) as u64);
        proof {
            assert(count as int % (CHANNELS as int) == 0) by {
                assert(self@.len() as int % (CHANNELS as int) == 0);
            }
            assert(copied.0 * CHANNELS == count);
        }
        self.consume_duration(copied);
        copied
    }

    /// Drop the given duration from the front.
    pub fn consume_duration(&mut self, duration: SampleDuration)
        requires
            old(self).wf(),
            duration.0 * CHANNELS <= old(self)@.len(),
        ensures
            final(self).wf(),
            final(self)@ == old(self)@.skip((duration.0 * CHANNELS) as int),
    {
        let count: usize = duration.as_buffer_offset();
        self.start = self.start + count;
        proof {
            assert(final(self)@ =~= old(self)@.skip((duration.0 * CHANNELS) as int));
        }
    }
}

} // verus!
