//! The output ring: a bounded producer-consumer buffer of interleaved
//! samples, tagged with per-region presentation instants so underrun can be
//! detected and the playback offset published.
//!
//! The writer places what fits and reports how much; blocking for space is
//! the caller's affair. The reader publishes the offset between the
//! requested instant and the instant of the first span carrying one
//! (silence spans do not participate), then drains samples.
//! If the spans run out before the span is filled, the rest is silence and
//! a silence span covering the whole buffer is appended, giving the writer
//! room to resynchronize.

use std::collections::VecDeque;

use vstd::prelude::*;

use crate::protocol::CHANNELS;
use crate::time::{SampleDuration, Timestamp, TimestampDelta};

verus! {

/// A run of buffered samples sharing one origin: audio due at an instant,
/// or untimed silence.
#[derive(Clone, Copy, Debug, PartialEq, Eq, Structural)]
pub struct Span {
    /// The instant the span's first frame is due; nothing for silence.
    pub timestamp: Option<Timestamp>,
    /// Frames of the span not yet read.
    pub remaining: SampleDuration,
}

impl Span {
    /// The instant one past the span's last frame.
    pub fn end(&self) -> (r: Option<Timestamp>)
        requires
            (match self.timestamp {
                Some(ts) => ts.0 + self.remaining.0 <= u64::MAX,
                None => true,
            }),
        ensures
            r == (match self.timestamp {
                Some(ts) => Some(Timestamp((ts.0 + self.remaining.0) as u64)),
                None => Option::<Timestamp>::None,
            }),
    {
        match self.timestamp {
            Some(ts) => Some(ts.add_duration(self.remaining)),
            None => None,
        }
    }

    /// Drop `duration` frames from the front of the span; its instant
    /// advances with them.
    pub fn consume(&mut self, duration: SampleDuration)
        requires
            duration.0 <= old(self).remaining.0,
            (match old(self).timestamp {
                Some(ts) => ts.0 + duration.0 <= u64::MAX,
                None => true,
            }),
        ensures
            *final(self) == spec_span_consumed(*old(self), duration.0 as int),
    {
        self.remaining = SampleDuration(self.remaining.0 - duration.0);
        match self.timestamp {
            Some(ts) => {
                self.timestamp = Some(ts.add_duration(duration));
            },
            None => {},
        }
    }
}

/// A span with `frames` frames dropped from its front.
pub open spec fn spec_span_consumed(s: Span, frames: int) -> Span {
    Span {
        timestamp: match s.timestamp {
            Some(ts) => Some(Timestamp((ts.0 + frames) as u64)),
            None => None,
        },
        remaining: SampleDuration((s.remaining.0 - frames) as u64),
    }
}

/// The frames all spans hold together.
pub open spec fn spec_total_frames(spans: Seq<Span>) -> int
    decreases spans.len(),
{
    if spans.len() == 0 {
        0
    } else {
        spans[0].remaining.0 + spec_total_frames(spans.skip(1))
    }
}

proof fn lemma_total_frames_nonneg(spans: Seq<Span>)
    ensures
        spec_total_frames(spans) >= 0,
    decreases spans.len(),
{
    if spans.len() > 0 {
        lemma_total_frames_nonneg(spans.skip(1));
    }
}

proof fn lemma_total_frames_push(spans: Seq<Span>, x: Span)
    ensures
        spec_total_frames(spans.push(x)) == spec_total_frames(spans) + x.remaining.0,
    decreases spans.len(),
{
    if spans.len() == 0 {
        assert(spans.push(x)[0] == x);
        assert(spans.push(x).skip(1) =~= Seq::<Span>::empty());
        assert(spec_total_frames(Seq::<Span>::empty()) == 0);
    } else {
        lemma_total_frames_push(spans.skip(1), x);
        assert(spans.push(x).skip(1) =~= spans.skip(1).push(x));
        assert(spans.push(x)[0] == spans[0]);
    }
}

/// The spans left after the reader drains `frames` frames from the front.
pub open spec fn spec_consume_spans(spans: Seq<Span>, frames: int) -> Seq<Span>
    decreases spans.len(),
    when frames >= 0
{
    if frames <= 0 || spans.len() == 0 {
        spans
    } else if frames >= spans[0].remaining.0 {
        spec_consume_spans(spans.skip(1), frames - spans[0].remaining.0)
    } else {
        spans.update(0, spec_span_consumed(spans[0], frames))
    }
}

/// The instant of the first span carrying one: the offset the reader
/// publishes is measured against it. Silence spans do not participate.
pub open spec fn spec_first_timed(spans: Seq<Span>) -> Option<Timestamp>
    decreases spans.len(),
{
    if spans.len() == 0 {
        None
    } else {
        match spans[0].timestamp {
            Some(ts) => Some(ts),
            None => spec_first_timed(spans.skip(1)),
        }
    }
}

/// One sound span: it is non-empty, and its instant stays in range as it
/// is consumed.
pub open spec fn spec_span_wf(s: Span) -> bool {
    &&& s.remaining.0 > 0
    &&& (match s.timestamp {
        Some(ts) => ts.0 + s.remaining.0 <= u64::MAX,
        None => true,
    })
}

/// The output ring. `buffer` holds the samples; `spans` partitions them.
pub struct StreamBuffer {
    buffer: VecDeque<u32>,
    spans: Vec<Span>,
    offset: Option<TimestampDelta>,
    buffer_size: usize,
}

impl StreamBuffer {
    /// The buffered samples, oldest first.
    pub closed spec fn samples(&self) -> Seq<u32> {
        self.buffer@
    }

    /// The spans partitioning the buffered samples, oldest first.
    pub closed spec fn spans(&self) -> Seq<Span> {
        self.spans@
    }

    /// The reader's last published offset.
    pub closed spec fn spec_offset(&self) -> Option<TimestampDelta> {
        self.offset
    }

    /// The fixed capacity in samples.
    pub closed spec fn spec_buffer_size(&self) -> int {
        self.buffer_size as int
    }

    /// The spans partition the samples exactly, every span is sound, and
    /// the buffer never passes its capacity.
    pub open spec fn wf(&self) -> bool {
        &&& spec_total_frames(self.spans()) * CHANNELS == self.samples().len()
        &&& forall|i: int| 0 <= i < self.spans().len() ==> spec_span_wf(#[trigger] self.spans()[i])
        &&& self.samples().len() <= self.spec_buffer_size()
        &&& self.spec_buffer_size() % (CHANNELS as int) == 0
        &&& self.spec_buffer_size() > 0
    }

    /// An empty ring sized for the configured delay.
    pub fn create(delay: SampleDuration) -> (r: StreamBuffer)
        requires
            0 < delay.0,
            delay.0 * CHANNELS <= usize::MAX,
        ensures
            r.wf(),
            r.samples().len() == 0,
            r.spans().len() == 0,
            r.spec_offset() is None,
            r.spec_buffer_size() == delay.0 * CHANNELS,
    {
        let buffer_size: usize = delay.as_buffer_offset();
        StreamBuffer { buffer: VecDeque::new(), spans: Vec::new(), offset: None, buffer_size }
    }

    /// The capacity as a duration.
    pub fn buffer_duration(&self) -> (r: SampleDuration)
        requires
            self.wf(),
        ensures
            r.0 * CHANNELS == self.spec_buffer_size(),
    {
        SampleDuration((self.buffer_size / CHANNELS) as u64)
    }

    /// The reader's last published offset: how far the requested instant
    /// ran ahead of the first timed audio in the ring.
    pub fn offset(&self) -> (r: Option<TimestampDelta>)
        ensures
            r == self.spec_offset(),
    {
        self.offset
    }

    /// Samples currently buffered.
    pub fn buffered(&self) -> (r: usize)
        ensures
            r == self.samples().len(),
    {
        self.buffer.len()
    }

    /// How many spans partition the buffer.
    pub fn span_count(&self) -> (r: usize)
        ensures
            r == self.spans().len(),
    {
        self.spans.len()
    }

    /// The span at the front of the ring.
    pub fn front_span(&self) -> (r: Option<Span>)
        ensures
            self.spans().len() == 0 ==> r is None,
            self.spans().len() > 0 ==> r == Some(self.spans()[0]),
    {
        if self.spans.len() > 0 {
            let s: &Span = vstd::slice::slice_index_get(self.spans.as_slice(), 0);
            Some(*s)
        } else {
            None
        }
    }

    /// Samples the ring still has room for.
    pub fn free(&self) -> (r: usize)
        requires
            self.wf(),
        ensures
            r == self.spec_buffer_size() - self.samples().len(),
    {
        self.buffer_size - self.buffer.len()
    }

    /// Append timed audio. The caller stays within capacity; blocking for
    /// room is its affair.
    pub fn push_audio(&mut self, timestamp: Timestamp, samples: &[u32]) -> (r: SampleDuration)
        requires
            old(self).wf(),
            samples@.len() > 0,
            samples@.len() as int % (CHANNELS as int) == 0,
            old(self).samples().len() + samples@.len() <= old(self).spec_buffer_size(),
            timestamp.0 + samples@.len() as int / (CHANNELS as int) <= u64::MAX,
        ensures
            final(self).wf(),
            r.0 * CHANNELS == samples@.len(),
            final(self).samples() == old(self).samples() + samples@,
            final(self).spans() == old(self).spans().push(
                Span { timestamp: Some(timestamp), remaining: r },
            ),
            final(self).spec_offset() == old(self).spec_offset(),
            final(self).spec_buffer_size() == old(self).spec_buffer_size(),
    {
        let duration: SampleDuration = SampleDuration::from_buffer_offset(samples.len());
        let mut i: usize = 0;
        while i < samples.len()
            invariant
                i <= samples@.len(),
                self.buffer@ == old(self).samples() + samples@.take(i as int),
                self.spans@ == old(self).spans(),
                self.offset == old(self).spec_offset(),
                self.buffer_size == old(self).spec_buffer_size(),
                old(self).samples().len() + samples@.len() <= old(self).spec_buffer_size(),
            decreases samples@.len() - i,
        {
            let v: u32 = *vstd::slice::slice_index_get(samples, i);
            self.buffer.push_back(v);
            proof {
                assert(self.buffer@ =~= old(self).samples() + samples@.take(i as int + 1));
            }
            i = i + 1;
        }
        proof {
            assert(samples@.take(samples@.len() as int) =~= samples@);
        }
        self.spans.push(Span { timestamp: Some(timestamp), remaining: duration });
        proof {
            lemma_total_frames_push(
                old(self).spans(),
                Span { timestamp: Some(timestamp), remaining: duration },
            );
        }
        duration
    }

    /// Append untimed silence.
    pub fn push_silence(&mut self, duration: SampleDuration)
        requires
            old(self).wf(),
            duration.0 > 0,
            duration.0 * CHANNELS <= usize::MAX,
            old(self).samples().len() + duration.0 * CHANNELS <= old(self).spec_buffer_size(),
        ensures
            final(self).wf(),
            final(self).samples() == old(self).samples() + Seq::new(
                (duration.0 * CHANNELS) as nat,
                |i: int| 0u32,
            ),
            final(self).spans() == old(self).spans().push(
                Span { timestamp: None, remaining: duration },
            ),
            final(self).spec_offset() == old(self).spec_offset(),
            final(self).spec_buffer_size() == old(self).spec_buffer_size(),
    {
        let count: usize = duration.as_buffer_offset();
        let mut i: usize = 0;
        while i < count
            invariant
                i <= count,
                self.buffer@ == old(self).samples() + Seq::new(i as nat, |j: int| 0u32),
                self.spans@ == old(self).spans(),
                self.offset == old(self).spec_offset(),
                self.buffer_size == old(self).spec_buffer_size(),
                old(self).samples().len() + count <= old(self).spec_buffer_size(),
            decreases count - i,
        {
            self.buffer.push_back(0u32);
            proof {
                assert(self.buffer@ =~= old(self).samples() + Seq::new(
                    i as nat + 1,
                    |j: int| 0u32,
                ));
            }
            i = i + 1;
        }
        self.spans.push(Span { timestamp: None, remaining: duration });
        proof {
            lemma_total_frames_push(
                old(self).spans(),
                Span { timestamp: None, remaining: duration },
            );
        }
    }

    /// The writer's step: place as much of `samples` as fits right now and
    /// say how many were placed (always whole frames). The caller loops,
    /// waiting for the reader, until all are placed.
    pub fn write_available(&mut self, pts: Timestamp, samples: &[u32]) -> (placed: usize)
        requires
            old(self).wf(),
            samples@.len() as int % (CHANNELS as int) == 0,
            pts.0 + samples@.len() as int / (CHANNELS as int) <= u64::MAX,
        ensures
            final(self).wf(),
            placed == vstd::math::min(
                samples@.len() as int,
                old(self).spec_buffer_size() - old(self).samples().len(),
            ),
            placed as int % (CHANNELS as int) == 0,
            final(self).samples() == old(self).samples() + samples@.take(placed as int),
            placed > 0 ==> final(self).spans() == old(self).spans().push(
                Span {
                    timestamp: Some(pts),
                    remaining: SampleDuration((placed as int / (CHANNELS as int)) as u64),
                },
            ),
            placed == 0 ==> final(self).spans() == old(self).spans(),
            final(self).spec_offset() == old(self).spec_offset(),
            final(self).spec_buffer_size() == old(self).spec_buffer_size(),
    {
        let free: usize = self.buffer_size - self.buffer.len();
        let copy_len: usize = if samples.len() < free {
            samples.len()
        } else {
            free
        };
        if copy_len == 0 {
            proof {
                assert(samples@.take(0) =~= Seq::<u32>::empty());
                assert(final(self).samples() =~= old(self).samples() + samples@.take(0));
            }
            return 0;
        }
        let source: &[u32] = vstd::slice::slice_subrange(samples, 0, copy_len);
        let _ = self.push_audio(pts, source);
        copy_len
    }

    /// The reader's step: publish the playback offset against the first
    /// span carrying an instant, then drain spans into `out`. If they run
    /// out, the rest of `out` is silence, a silence span covering the whole
    /// buffer is appended so the writer can catch up, and the underrun is
    /// reported.
    #[verifier::rlimit(60)]
    pub fn read(&mut self, pts: Timestamp, out: &mut Vec<u32>) -> (underrun: bool)
        requires
            old(self).wf(),
            old(out)@.len() as int % (CHANNELS as int) == 0,
            (match spec_first_timed(old(self).spans()) {
                Some(ts) => pts.0 - ts.0 <= i64::MAX && ts.0 - pts.0 <= i64::MAX,
                None => true,
            }),
        ensures
            final(self).wf(),
            final(self).spec_buffer_size() == old(self).spec_buffer_size(),
            final(out)@.len() == old(out)@.len(),
            final(self).spec_offset() == (match spec_first_timed(old(self).spans()) {
                Some(ts) => Some(TimestampDelta((pts.0 - ts.0) as i64)),
                None => Option::<TimestampDelta>::None,
            }),
            underrun == (old(self).samples().len() < old(out)@.len()),
            !underrun ==> ({
                &&& final(out)@ == old(self).samples().take(old(out)@.len() as int)
                &&& final(self).samples() == old(self).samples().skip(old(out)@.len() as int)
                &&& final(self).spans() == spec_consume_spans(
                    old(self).spans(),
                    old(out)@.len() as int / (CHANNELS as int),
                )
            }),
            underrun ==> ({
                &&& final(out)@ == old(self).samples() + Seq::new(
                    (old(out)@.len() - old(self).samples().len()) as nat,
                    |i: int| 0u32,
                )
                &&& final(self).samples() == Seq::new(
                    old(self).spec_buffer_size() as nat,
                    |i: int| 0u32,
                )
                &&& final(self).spans() == seq![
                    Span {
                        timestamp: None,
                        remaining: SampleDuration(
                            (old(self).spec_buffer_size() / (CHANNELS as int)) as u64,
                        ),
                    },
                ]
            }),
    {
        let out_len: usize = out.len();
        let mut front_instant: Option<Timestamp> = None;
        let mut idx: usize = 0;
        proof {
            assert(self.spans@.skip(0) =~= self.spans@);
        }
        loop
            invariant_except_break
                idx <= self.spans@.len(),
                front_instant is None,
                spec_first_timed(self.spans@) == spec_first_timed(self.spans@.skip(idx as int)),
            ensures
                front_instant == spec_first_timed(self.spans@),
            decreases self.spans@.len() - idx,
        {
            if idx >= self.spans.len() {
                proof {
                    assert(self.spans@.skip(idx as int).len() == 0);
                }
                break ;
            }
            let s: &Span = vstd::slice::slice_index_get(self.spans.as_slice(), idx);
            match s.timestamp {
                Some(ts) => {
                    front_instant = Some(ts);
                    proof {
                        assert(self.spans@.skip(idx as int)[0] == self.spans@[idx as int]);
                    }
                    break ;
                },
                None => {
                    proof {
                        assert(self.spans@.skip(idx as int)[0] == self.spans@[idx as int]);
                        assert(self.spans@.skip(idx as int).skip(1) =~= self.spans@.skip(
                            idx as int + 1,
                        ));
                    }
                    idx = idx + 1;
                },
            }
        }
        self.offset = match front_instant {
            Some(ts) => Some(pts.delta(ts)),
            None => None,
        };
        let ghost published = self.offset;
        let ghost spans0 = self.spans@;
        let ghost samples0 = self.buffer@;
        let mut filled: usize = 0;
        while filled < out_len && self.spans.len() > 0
            invariant
                filled <= out_len,
                out@.len() == out_len,
                out_len as int % (CHANNELS as int) == 0,
                filled as int % (CHANNELS as int) == 0,
                self.offset == published,
                self.buffer_size == old(self).spec_buffer_size(),
                self.buffer_size as int % (CHANNELS as int) == 0,
                self.buffer_size > 0,
                spec_total_frames(self.spans@) * CHANNELS == self.buffer@.len(),
                forall|i: int|
                    0 <= i < self.spans@.len() ==> spec_span_wf(#[trigger] self.spans@[i]),
                self.buffer@.len() <= self.buffer_size,
                filled + self.buffer@.len() == samples0.len(),
                self.buffer@ == samples0.skip(filled as int),
                forall|k: int| 0 <= k < filled ==> out@[k] == samples0[k],
                forall|k: int| filled <= k < out_len ==> out@[k] == old(out)@[k],
                spec_consume_spans(spans0, out_len as int / (CHANNELS as int))
                    == spec_consume_spans(
                    self.spans@,
                    (out_len - filled) as int / (CHANNELS as int),
                ),
            decreases out_len - filled,
        {
            let ghost spans_iter = self.spans@;
            let ghost buf_iter = self.buffer@;
            let span_rem: u64 = {
                let s: &Span = vstd::slice::slice_index_get(self.spans.as_slice(), 0);
                s.remaining.0
            };
            proof {
                assert(spec_span_wf(spans_iter[0]));
                assert(spec_total_frames(spans_iter) >= spans_iter[0].remaining.0) by {
                    lemma_total_frames_nonneg(spans_iter.skip(1));
                }
            }
            let span_samples: usize = (span_rem as usize) * CHANNELS;
            let want: usize = out_len - filled;
            let take: usize = if want < span_samples {
                want
            } else {
                span_samples
            };
            let mut j: usize = 0;
            while j < take
                invariant
                    j <= take,
                    filled + take <= out_len,
                    take <= buf_iter.len(),
                    out@.len() == out_len,
                    self.buffer@ == buf_iter.skip(j as int),
                    buf_iter == samples0.skip(filled as int),
                    self.spans@ == spans_iter,
                    self.offset == published,
                    self.buffer_size == old(self).spec_buffer_size(),
                    forall|k: int| 0 <= k < filled ==> out@[k] == samples0[k],
                    forall|k: int|
                        filled <= k < filled + j ==> out@[k] == buf_iter[k - filled],
                    forall|k: int| filled + j <= k < out_len ==> out@[k] == old(out)@[k],
                decreases take - j,
            {
                let v: u32 = match self.buffer.pop_front() {
                    Some(v) => v,
                    None => {
                        proof {
                            assert(false);
                        }
                        0
                    },
                };
                out[filled + j] = v;
                proof {
                    assert(self.buffer@ =~= buf_iter.skip(j as int + 1));
                }
                j = j + 1;
            }
            let take_frames: u64 = (take / CHANNELS) as u64;
            proof {
                assert(take_frames * CHANNELS == take);
                assert((out_len - filled) as int / (CHANNELS as int) >= 1);
            }
            let ghost frames_iter = (out_len - filled) as int / (CHANNELS as int);
            if take_frames == span_rem {
                let _ = self.spans.remove(0);
                proof {
                    vstd::seq_lib::lemma_seq_skip_of_skip(samples0, filled as int, take as int);
                    assert(self.spans@ =~= spans_iter.skip(1));
                    assert(spec_total_frames(spans_iter) == span_rem + spec_total_frames(
                        spans_iter.skip(1),
                    ));
                    assert(samples0.skip(filled as int).skip(take as int) =~= samples0.skip(
                        (filled + take) as int,
                    ));
                    assert(frames_iter >= span_rem);
                    assert(spec_consume_spans(spans_iter, frames_iter) == spec_consume_spans(
                        spans_iter.skip(1),
                        frames_iter - span_rem,
                    ));
                    assert((out_len - (filled + take)) as int / (CHANNELS as int) == frames_iter
                        - span_rem);
                }
            } else {
                let s: &mut Span = vstd::std_specs::vec::vec_index_mut(&mut self.spans, 0);
                s.consume(SampleDuration(take_frames));
                proof {
                    vstd::seq_lib::lemma_seq_skip_of_skip(samples0, filled as int, take as int);
                    assert(self.spans@ =~= spans_iter.update(
                        0,
                        spec_span_consumed(spans_iter[0], take_frames as int),
                    ));
                    assert(self.spans@.skip(1) =~= spans_iter.skip(1));
                    assert(spec_total_frames(spans_iter) == span_rem + spec_total_frames(
                        spans_iter.skip(1),
                    ));
                    assert(spec_total_frames(self.spans@) == self.spans@[0].remaining.0
                        + spec_total_frames(self.spans@.skip(1)));
                    assert(samples0.skip(filled as int).skip(take as int) =~= samples0.skip(
                        (filled + take) as int,
                    ));
                    assert(take == want);
                    assert(frames_iter == take_frames);
                    assert(frames_iter < span_rem);
                    assert(spec_consume_spans(spans_iter, frames_iter) == spans_iter.update(
                        0,
                        spec_span_consumed(spans_iter[0], frames_iter),
                    ));
                    assert((out_len - (filled + take)) as int / (CHANNELS as int) == 0);
                    assert(spec_consume_spans(self.spans@, 0) == self.spans@);
                }
            }
            filled = filled + take;
        }
        if filled < out_len {
            // underrun: the rest is silence, and the ring is refilled with
            // silence so the writer can resynchronize
            proof {
                lemma_total_frames_nonneg(self.spans@);
                assert(self.spans@.len() == 0);
                assert(self.buffer@.len() == 0);
                assert(samples0.len() == filled);
            }
            let mut j: usize = filled;
            while j < out_len
                invariant
                    filled <= j <= out_len,
                    out@.len() == out_len,
                    self.offset == published,
                    self.buffer_size == old(self).spec_buffer_size(),
                    self.buffer@.len() == 0,
                    self.spans@.len() == 0,
                    self.buffer_size as int % (CHANNELS as int) == 0,
                    self.buffer_size > 0,
                    forall|k: int| 0 <= k < filled ==> out@[k] == samples0[k],
                    forall|k: int| filled <= k < j ==> out@[k] == 0u32,
                decreases out_len - j,
            {
                out[j] = 0u32;
                j = j + 1;
            }
            let duration: SampleDuration = SampleDuration((self.buffer_size / CHANNELS) as u64);
            proof {
                assert(duration.0 * CHANNELS == self.buffer_size);
            }
            self.push_silence(duration);
            proof {
                assert(out@ =~= samples0 + Seq::new(
                    (out_len - samples0.len()) as nat,
                    |i: int| 0u32,
                ));
                assert(self.samples() =~= Seq::new(
                    old(self).spec_buffer_size() as nat,
                    |i: int| 0u32,
                ));
                assert(self.spans() =~= seq![
                    Span {
                        timestamp: None,
                        remaining: SampleDuration(
                            (old(self).spec_buffer_size() / (CHANNELS as int)) as u64,
                        ),
                    },
                ]);
            }
            true
        } else {
            proof {
                assert(out@ =~= samples0.take(out_len as int));
                assert(spec_consume_spans(self.spans@, 0) == self.spans@);
            }
            false
        }
    }
}

} // verus!
