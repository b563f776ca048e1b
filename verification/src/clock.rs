//! Clock estimator: rolling medians of network latency and source-receiver
//! clock offset, fed by the four-timestamp time-packet exchange.
//!
//! On the reply leg of the exchange the receiver knows four instants:
//! `stream_1` (source send), `receive_2` (receiver receive), `stream_3`
//! (source reply send) and `receive_4` (receiver reply receive). The round
//! trip is what passed on the receiver clock minus what the source spent
//! thinking; the clock offset is the average of the two one-way skews.

use vstd::prelude::*;
use vstd::relations::{sorted_by, total_ordering};
use vstd::seq_lib::{lemma_multiset_commutative, lemma_sorted_unique};

use crate::packet::TimePacketData;
use crate::time::{div_trunc, ClockDelta, SampleDuration, Timestamp, TimestampDelta};

verus! {

/// The order the rolling windows are sorted by.
pub open spec fn le_i64() -> spec_fn(i64, i64) -> bool {
    |a: i64, b: i64| a <= b
}

/// `<=` on 64-bit integers is a total ordering.
pub proof fn lemma_le_i64_total_ordering()
    ensures
        total_ordering(le_i64()),
{
}

/// Inserting an element anywhere in a sequence adds it to the multiset.
proof fn lemma_insert_to_multiset(s: Seq<i64>, i: int, a: i64)
    requires
        0 <= i <= s.len(),
    ensures
        s.insert(i, a).to_multiset() == s.to_multiset().insert(a),
{
    broadcast use vstd::seq_lib::group_to_multiset_ensures;
    broadcast use vstd::multiset::group_multiset_axioms;

    assert(s.insert(i, a) =~= s.take(i).push(a) + s.skip(i));
    lemma_multiset_commutative(s.take(i).push(a), s.skip(i));
    assert(s =~= s.take(i) + s.skip(i));
    lemma_multiset_commutative(s.take(i), s.skip(i));
    assert(s.take(i).push(a).to_multiset() =~= s.take(i).to_multiset().insert(a));
    assert(s.take(i).to_multiset().insert(a).add(s.skip(i).to_multiset()) =~= s.take(
        i,
    ).to_multiset().add(s.skip(i).to_multiset()).insert(a));
}

/// How many samples a rolling window holds.
pub const WINDOW_SIZE: usize = 64;

/// A fixed-capacity rolling window of signed microsecond samples, a
/// circular buffer: once full, the oldest sample is overwritten.
pub struct Aggregate {
    samples: Vec<i64>,
    count: usize,
    index: usize,
}

impl Aggregate {
    pub closed spec fn wf(&self) -> bool {
        &&& self.samples.len() == WINDOW_SIZE
        &&& self.count <= WINDOW_SIZE
        &&& self.index < WINDOW_SIZE
        &&& self.count < WINDOW_SIZE ==> self.index == self.count
    }

    /// The samples currently held, in storage order.
    pub closed spec fn window(&self) -> Seq<i64> {
        self.samples@.take(self.count as int)
    }

    pub closed spec fn spec_count(&self) -> int {
        self.count as int
    }

    /// Where the next sample lands.
    pub closed spec fn spec_index(&self) -> int {
        self.index as int
    }

    /// What `median` returns: the element at half the count of the sorted
    /// snapshot, or nothing while the window is empty.
    pub open spec fn spec_median(&self) -> Option<i64> {
        if self.spec_count() == 0 {
            None
        } else {
            Some(self.window().sort_by(le_i64())[self.spec_count() / 2])
        }
    }

    pub fn new() -> (r: Aggregate)
        ensures
            r.wf(),
            r.window() == Seq::<i64>::empty(),
            r.spec_count() == 0,
            r.spec_index() == 0,
    {
        let r = Aggregate { samples: vec![0i64; WINDOW_SIZE], count: 0, index: 0 };
        proof {
            assert(r.window() =~= Seq::<i64>::empty());
        }
        r
    }

    /// Record one sample, overwriting the oldest once the window is full.
    pub fn observe(&mut self, value: i64)
        requires
            old(self).wf(),
        ensures
            final(self).wf(),
            final(self).window() == if old(self).spec_index() < old(self).spec_count() {
                old(self).window().update(old(self).spec_index(), value)
            } else {
                old(self).window().push(value)
            },
            final(self).spec_count() == if old(self).spec_count() < WINDOW_SIZE {
                old(self).spec_count() + 1
            } else {
                WINDOW_SIZE as int
            },
            final(self).spec_index() == (old(self).spec_index() + 1) % (WINDOW_SIZE as int),
    {
        let i: usize = self.index;
        self.samples[i] = value;
        if self.count < WINDOW_SIZE {
            self.count = self.count + 1;
        }
        self.index = self.index + 1;
        if self.index == WINDOW_SIZE {
            self.index = 0;
        }
        proof {
            if old(self).spec_index() < old(self).spec_count() {
                assert(final(self).window() =~= old(self).window().update(
                    old(self).spec_index(),
                    value,
                ));
            } else {
                assert(old(self).spec_index() == old(self).spec_count());
                assert(final(self).window() =~= old(self).window().push(value));
            }
        }
    }

    /// The median sample: the element at index count/2 of the sorted
    /// snapshot, or nothing while the window is empty.
    pub fn median(&self) -> (r: Option<i64>)
        requires
            self.wf(),
        ensures
            r == self.spec_median(),
    {
        if self.count == 0 {
            return None;
        }
        let mut sorted: Vec<i64> = Vec::new();
        proof {
            assert(self.window().take(0) =~= Seq::<i64>::empty());
        }
        let mut i: usize = 0;
        while i < self.count
            invariant
                self.wf(),
                0 < self.count <= WINDOW_SIZE,
                i <= self.count,
                sorted@.len() == i,
                sorted@.to_multiset() == self.window().take(i as int).to_multiset(),
                sorted_by(sorted@, le_i64()),
            decreases self.count - i,
        {
            let x: i64 = self.samples[i];
            let mut pos: usize = 0;
            while pos < sorted.len() && sorted[pos] <= x
                invariant
                    pos <= sorted.len(),
                    forall|k: int| 0 <= k < pos ==> sorted@[k] <= x,
                decreases sorted.len() - pos,
            {
                pos = pos + 1;
            }
            let ghost before = sorted@;
            sorted.insert(pos, x);
            proof {
                broadcast use vstd::seq_lib::group_to_multiset_ensures;

                lemma_insert_to_multiset(before, pos as int, x);
                assert(self.window().take(i as int + 1) =~= self.window().take(i as int).push(
                    self.window()[i as int],
                ));
                assert(self.window().take(i as int).push(x).to_multiset() =~= self.window().take(
                    i as int,
                ).to_multiset().insert(x));
                assert(sorted@.to_multiset() =~= self.window().take(i as int + 1).to_multiset());
                assert forall|a: int, b: int|
                    0 <= a < b < sorted@.len() implies le_i64()(sorted@[a], sorted@[b]) by {
                    if b < pos {
                        assert(le_i64()(before[a], before[b]));
                    } else if b == pos {
                        assert(sorted@[b] == x);
                        assert(sorted@[a] == before[a]);
                    } else if a == pos {
                        assert(sorted@[a] == x);
                        assert(sorted@[b] == before[b - 1]);
                        assert(!(before[pos as int] <= x));
                        if b - 1 > pos {
                            assert(le_i64()(before[pos as int], before[b - 1]));
                        }
                    } else if a < pos {
                        assert(sorted@[a] == before[a]);
                        assert(sorted@[b] == before[b - 1]);
                        assert(le_i64()(before[a], before[b - 1]) || a == b - 1);
                        if a == b - 1 {
                            assert(a < pos && pos < b);
                            assert(false);
                        }
                    } else {
                        assert(sorted@[a] == before[a - 1]);
                        assert(sorted@[b] == before[b - 1]);
                        assert(le_i64()(before[a - 1], before[b - 1]));
                    }
                }
            }
            i = i + 1;
        }
        proof {
            assert(self.window().take(self.count as int) =~= self.window());
            lemma_le_i64_total_ordering();
            self.window().lemma_sort_by_ensures(le_i64());
            lemma_sorted_unique(sorted@, self.window().sort_by(le_i64()), le_i64());
            assert(sorted@ =~= self.window().sort_by(le_i64()));
        }
        Some(sorted[self.count / 2])
    }
}

/// The exact round trip the four instants show: time passed on the receiver
/// clock minus time the source spent before replying, in microseconds.
pub open spec fn spec_rtt_micros(d: TimePacketData) -> int {
    (d.receive_4.0 - d.stream_1.0) - (d.stream_3.0 - d.receive_2.0)
}

/// The exact clock offset the four instants show: the average of the two
/// one-way skews, in microseconds, rounded toward zero. Positive means the
/// receiver clock is ahead of the source clock.
pub open spec fn spec_clock_delta_micros(d: TimePacketData) -> int {
    div_trunc((d.receive_2.0 - d.stream_1.0) + (d.receive_4.0 - d.stream_3.0), 2)
}

/// The round trip estimate of a completed exchange.
pub fn rtt_estimate_micros(d: &TimePacketData) -> (r: i64)
    requires
        i64::MIN <= spec_rtt_micros(*d) <= i64::MAX,
    ensures
        r == spec_rtt_micros(*d),
{
    let total: i128 = (d.receive_4.0 as i128) - (d.stream_1.0 as i128);
    let spent: i128 = (d.stream_3.0 as i128) - (d.receive_2.0 as i128);
    (total - spent) as i64
}

/// The clock offset estimate of a completed exchange.
pub fn clock_delta_estimate_micros(d: &TimePacketData) -> (r: i64)
    requires
        i64::MIN <= (d.receive_2.0 - d.stream_1.0) + (d.receive_4.0 - d.stream_3.0),
        (d.receive_2.0 - d.stream_1.0) + (d.receive_4.0 - d.stream_3.0) <= i64::MAX,
    ensures
        r == spec_clock_delta_micros(*d),
{
    let skew_out: i128 = (d.receive_2.0 as i128) - (d.stream_1.0 as i128);
    let skew_back: i128 = (d.receive_4.0 as i128) - (d.stream_3.0 as i128);
    let sum: i128 = skew_out + skew_back;
    if sum >= 0 {
        (sum / 2) as i64
    } else {
        (-((-sum) / 2)) as i64
    }
}

/// The two rolling estimates a receiver keeps per session.
pub struct Timing {
    latency: Aggregate,
    clock_delta: Aggregate,
}

impl Timing {
    pub closed spec fn wf(&self) -> bool {
        &&& self.latency.wf()
        &&& self.clock_delta.wf()
    }

    /// The one-way latency window, in microseconds.
    pub closed spec fn spec_latency(&self) -> &Aggregate {
        &self.latency
    }

    /// The clock offset window, in microseconds.
    pub closed spec fn spec_clock_delta(&self) -> &Aggregate {
        &self.clock_delta
    }

    pub fn new() -> (r: Timing)
        ensures
            r.wf(),
            r.spec_latency().window() == Seq::<i64>::empty(),
            r.spec_latency().spec_count() == 0,
            r.spec_latency().spec_index() == 0,
            r.spec_clock_delta().window() == Seq::<i64>::empty(),
            r.spec_clock_delta().spec_count() == 0,
            r.spec_clock_delta().spec_index() == 0,
    {
        Timing { latency: Aggregate::new(), clock_delta: Aggregate::new() }
    }

    /// Fold a completed exchange into both windows: half the round trip as
    /// one-way latency, and the clock offset.
    pub fn receive_time(&mut self, d: &TimePacketData)
        requires
            old(self).wf(),
            i64::MIN <= spec_rtt_micros(*d) <= i64::MAX,
            i64::MIN <= (d.receive_2.0 - d.stream_1.0) + (d.receive_4.0 - d.stream_3.0),
            (d.receive_2.0 - d.stream_1.0) + (d.receive_4.0 - d.stream_3.0) <= i64::MAX,
        ensures
            final(self).wf(),
            final(self).spec_latency().window() == if old(self).spec_latency().spec_index() < old(
                self,
            ).spec_latency().spec_count() {
                old(self).spec_latency().window().update(
                    old(self).spec_latency().spec_index(),
                    (div_trunc(spec_rtt_micros(*d), 2)) as i64,
                )
            } else {
                old(self).spec_latency().window().push((div_trunc(spec_rtt_micros(*d), 2)) as i64)
            },
            final(self).spec_clock_delta().window() == if old(
                self,
            ).spec_clock_delta().spec_index() < old(self).spec_clock_delta().spec_count() {
                old(self).spec_clock_delta().window().update(
                    old(self).spec_clock_delta().spec_index(),
                    spec_clock_delta_micros(*d) as i64,
                )
            } else {
                old(self).spec_clock_delta().window().push(spec_clock_delta_micros(*d) as i64)
            },
            final(self).spec_latency().spec_count() == if old(self).spec_latency().spec_count()
                < WINDOW_SIZE {
                old(self).spec_latency().spec_count() + 1
            } else {
                WINDOW_SIZE as int
            },
            final(self).spec_latency().spec_index() == (old(self).spec_latency().spec_index() + 1)
                % (WINDOW_SIZE as int),
            final(self).spec_clock_delta().spec_count() == if old(
                self,
            ).spec_clock_delta().spec_count() < WINDOW_SIZE {
                old(self).spec_clock_delta().spec_count() + 1
            } else {
                WINDOW_SIZE as int
            },
            final(self).spec_clock_delta().spec_index() == (old(
                self,
            ).spec_clock_delta().spec_index() + 1) % (WINDOW_SIZE as int),
    {
        let rtt: i64 = rtt_estimate_micros(d);
        let one_way: i64 = if rtt >= 0 {
            rtt / 2
        } else {
            -((-(rtt as i128) / 2) as i64)
        };
        let delta: i64 = clock_delta_estimate_micros(d);
        self.latency.observe(one_way);
        self.clock_delta.observe(delta);
    }

    /// The median one-way network latency, in microseconds.
    pub fn network_latency(&self) -> (r: Option<i64>)
        requires
            self.wf(),
        ensures
            r == self.spec_latency().spec_median(),
    {
        self.latency.median()
    }

    /// The median clock offset, in microseconds.
    pub fn clock_delta_median(&self) -> (r: Option<i64>)
        requires
            self.wf(),
        ensures
            r == self.spec_clock_delta().spec_median(),
    {
        self.clock_delta.median()
    }

    /// What `adjust_wire_pts` returns: the wire instant as frames with the
    /// median clock offset subtracted; nothing while the window is empty or
    /// when a value falls outside its range.
    pub open spec fn spec_adjust_wire_pts(&self, micros: crate::time::TimestampMicros) -> Option<
        Timestamp,
    > {
        if micros.0 * crate::protocol::SAMPLE_RATE > u64::MAX {
            None
        } else {
            let pts_frames = micros.0 * crate::protocol::SAMPLE_RATE / (
            crate::protocol::MICROS_PER_SECOND as int);
            match self.spec_clock_delta().spec_median() {
                None => None,
                Some(m) => {
                    let shift = div_trunc(
                        m * crate::protocol::SAMPLE_RATE,
                        crate::protocol::MICROS_PER_SECOND as int,
                    );
                    if 0 <= pts_frames - shift <= u64::MAX {
                        Some(Timestamp((pts_frames - shift) as u64))
                    } else {
                        None
                    }
                },
            }
        }
    }

    /// A wire presentation instant moved into the receiver's timebase: the
    /// median clock offset is subtracted. Nothing is returned while the
    /// window is empty, or when a value falls outside its range.
    pub fn adjust_wire_pts(&self, micros: crate::time::TimestampMicros) -> (r: Option<Timestamp>)
        requires
            self.wf(),
        ensures
            r == self.spec_adjust_wire_pts(micros),
    {
        if micros.0 > u64::MAX / crate::protocol::SAMPLE_RATE {
            proof {
                assert(micros.0 * crate::protocol::SAMPLE_RATE > u64::MAX) by (nonlinear_arith)
                    requires
                        micros.0 > u64::MAX / crate::protocol::SAMPLE_RATE,
                        crate::protocol::SAMPLE_RATE == 48000,
                ;
            }
            return None;
        }
        proof {
            assert(micros.0 * crate::protocol::SAMPLE_RATE <= u64::MAX) by (nonlinear_arith)
                requires
                    micros.0 <= u64::MAX / crate::protocol::SAMPLE_RATE,
                    crate::protocol::SAMPLE_RATE == 48000,
            ;
        }
        let pts: Timestamp = Timestamp::from_micros_lossy(micros);
        self.adjust_pts(pts)
    }

    /// A source-clock presentation instant moved into the receiver's
    /// timebase: the median clock offset is subtracted. Nothing is returned
    /// while the window is empty, or if the shifted instant falls outside
    /// the counter's range.
    pub fn adjust_pts(&self, pts: Timestamp) -> (r: Option<Timestamp>)
        requires
            self.wf(),
        ensures
            (match (r, self.spec_clock_delta().spec_median()) {
                (None, None) => true,
                (None, Some(m)) => {
                    let frames = div_trunc(m * crate::protocol::SAMPLE_RATE, 1_000_000);
                    !(0 <= pts.0 - frames <= u64::MAX)
                },
                (Some(adjusted), Some(m)) => {
                    let frames = div_trunc(m * crate::protocol::SAMPLE_RATE, 1_000_000);
                    0 <= pts.0 - frames <= u64::MAX && adjusted.0 == pts.0 - frames
                },
                (Some(_), None) => false,
            }),
    {
        match self.clock_delta.median() {
            None => None,
            Some(m) => {
                let frames: TimestampDelta = TimestampDelta::from_clock_delta_lossy(ClockDelta(m));
                let shift: SampleDuration = frames.abs();
                if frames.0 >= 0 {
                    if pts.0 >= shift.0 {
                        Some(Timestamp(pts.0 - shift.0))
                    } else {
                        None
                    }
                } else {
                    if pts.0 <= u64::MAX - shift.0 {
                        Some(Timestamp(pts.0 + shift.0))
                    } else {
                        None
                    }
                }
            },
        }
    }
}

} // verus!
