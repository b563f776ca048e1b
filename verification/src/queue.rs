//! The jitter queue: a sequence-indexed line of slots between the network
//! thread and the audio consumer.
//!
//! Slots are contiguous in sequence number with no internal gaps: a packet
//! arriving ahead of the back appends hole slots for the missing numbers
//! and lands in its own. A packet outside the accepted range resets the
//! queue. When the queue would stretch more than the gap bound from the
//! front, heads are dropped: latency is traded for liveness, and the
//! network side never blocks.

use vstd::prelude::*;
use vstd::std_specs::vec::vec_index_mut;

use crate::buffer::AudioBuffer;
use crate::protocol::SAMPLES_PER_PACKET;
use crate::time::{SampleDuration, Timestamp};

verus! {

/// One slot: a sequence number and either audio or an acknowledged hole.
/// `consumed` counts the frames of it already played.
pub struct QueuedPacket {
    pub seq: u64,
    /// Presentation instant in the receiver's timebase; nothing while the
    /// clock estimator had no median at arrival, or for a hole.
    pub pts: Option<Timestamp>,
    pub consumed: SampleDuration,
    pub audio: Option<AudioBuffer>,
}

/// A hole: an acknowledged missing sequence number, played as silence.
pub open spec fn spec_hole(seq: u64) -> QueuedPacket {
    QueuedPacket { seq, pts: None, consumed: SampleDuration(0), audio: None }
}

/// A slot is sound: holes are unconsumed, audio is a whole packet, and
/// consumption never passes the packet's end.
pub open spec fn spec_slot_wf(p: QueuedPacket) -> bool {
    &&& p.pts is Some ==> p.audio is Some
    &&& match p.audio {
        Some(a) => a.wf() && a@.len() == SAMPLES_PER_PACKET && p.consumed.0
            <= crate::protocol::FRAMES_PER_PACKET,
        None => p.consumed.0 == 0,
    }
}

/// Contiguity and slot soundness of a line of slots under a gap bound.
pub open spec fn spec_queue_wf(slots: Seq<QueuedPacket>, max_seq_gap: int) -> bool {
    &&& forall|i: int|
        0 <= i < slots.len() ==> (#[trigger] slots[i]).seq == slots[0].seq + i
    &&& forall|i: int| 0 <= i < slots.len() ==> spec_slot_wf(#[trigger] slots[i])
    &&& slots.len() <= max_seq_gap + 1
    &&& slots.len() > 0 ==> slots[0].seq + slots.len() - 1 <= u64::MAX
    &&& max_seq_gap < usize::MAX

}

/// What one push leaves behind, as a function of the slots: a fill inside
/// the span, an extension with holes, or the reset.
pub open spec fn spec_push(
    slots: Seq<QueuedPacket>,
    max_seq_gap: int,
    seq: u64,
    pts: Option<Timestamp>,
    audio: AudioBuffer,
) -> Seq<QueuedPacket> {
    let filled = QueuedPacket { seq, pts, consumed: SampleDuration(0), audio: Some(audio) };
    if slots.len() == 0 || seq < slots[0].seq || seq > slots.last().seq + max_seq_gap {
        seq![filled]
    } else if seq <= slots.last().seq {
        slots.update(
            seq - slots[0].seq,
            QueuedPacket { seq, pts, consumed: slots[seq - slots[0].seq].consumed, ..filled },
        )
    } else {
        let extended = slots + Seq::new(
            (seq - slots.last().seq - 1) as nat,
            |i: int| spec_hole((slots.last().seq + 1 + i) as u64),
        ) + seq![filled];
        extended.skip(
            if extended.len() > max_seq_gap + 1 {
                extended.len() - (max_seq_gap + 1)
            } else {
                0
            },
        )
    }
}

/// The slot standing at sequence number `n` after a push of `seq` onto a
/// non-empty queue, when no head is dropped.
pub open spec fn spec_pushed_slot(
    slots: Seq<QueuedPacket>,
    seq: u64,
    pts: Option<Timestamp>,
    audio: AudioBuffer,
    n: int,
) -> QueuedPacket {
    if n == seq {
        QueuedPacket {
            seq,
            pts,
            consumed: if seq <= slots.last().seq {
                slots[seq - slots[0].seq].consumed
            } else {
                SampleDuration(0)
            },
            audio: Some(audio),
        }
    } else if n <= slots.last().seq {
        slots[n - slots[0].seq]
    } else {
        spec_hole(n as u64)
    }
}

/// A push within the gap bound of the front neither resets nor drops a
/// head: the result spans the front to the far end of old back and the new
/// number, slot by slot.
pub proof fn lemma_push_shape(
    slots: Seq<QueuedPacket>,
    max_seq_gap: int,
    seq: u64,
    pts: Option<Timestamp>,
    audio: AudioBuffer,
)
    requires
        spec_queue_wf(slots, max_seq_gap),
        slots.len() > 0,
        slots[0].seq <= seq <= slots[0].seq + max_seq_gap,
        audio.wf(),
        audio@.len() == SAMPLES_PER_PACKET,
    ensures
        ({
            let r = spec_push(slots, max_seq_gap, seq, pts, audio);
            let front = slots[0].seq;
            let back = slots.last().seq;
            let hi = if seq > back {
                seq as int
            } else {
                back as int
            };
            &&& r.len() == hi - front + 1
            &&& (forall|i: int|
                0 <= i < r.len() ==> #[trigger] r[i] == spec_pushed_slot(
                    slots,
                    seq,
                    pts,
                    audio,
                    front + i,
                ))
            &&& spec_queue_wf(r, max_seq_gap)
        }),
{
    let r = spec_push(slots, max_seq_gap, seq, pts, audio);
    let front = slots[0].seq;
    let back = slots.last().seq;
    assert(back == front + slots.len() - 1);
    assert(back <= front + max_seq_gap);
    if seq <= back {
        assert forall|i: int| 0 <= i < r.len() implies #[trigger] r[i] == spec_pushed_slot(
            slots,
            seq,
            pts,
            audio,
            front + i,
        ) by {
            assert(slots[i].seq == front + i);
        }
    } else {
        let extended = slots + Seq::new(
            (seq - back - 1) as nat,
            |i: int| spec_hole((back + 1 + i) as u64),
        ) + seq![QueuedPacket { seq, pts, consumed: SampleDuration(0), audio: Some(audio) }];
        assert(extended.len() == seq - front + 1);
        assert(extended.len() <= max_seq_gap + 1);
        assert(r =~= extended);
        assert forall|i: int| 0 <= i < r.len() implies #[trigger] r[i] == spec_pushed_slot(
            slots,
            seq,
            pts,
            audio,
            front + i,
        ) by {
            if i < slots.len() {
                assert(extended[i] == slots[i]);
                assert(slots[i].seq == front + i);
            }
        }
    }
    assert forall|i: int| 0 <= i < r.len() implies (#[trigger] r[i]).seq == r[0].seq + i by {
        assert(r[i] == spec_pushed_slot(slots, seq, pts, audio, front + i));
        assert(r[0] == spec_pushed_slot(slots, seq, pts, audio, front as int));
    }
    assert forall|i: int| 0 <= i < r.len() implies spec_slot_wf(#[trigger] r[i]) by {
        assert(r[i] == spec_pushed_slot(slots, seq, pts, audio, front + i));
        if front + i != seq && front + i <= back {
            assert(spec_slot_wf(slots[i]));
        }
    }
}

/// Any two packets accepted within the gap bound of the front land the same
/// whichever arrives first: delivery order inside the window does not
/// change the queue, so consumed audio matches in-order delivery. Arbitrary
/// reorders within the window reduce to exchanges of two arrivals.
pub proof fn lemma_push_order_independent(
    slots: Seq<QueuedPacket>,
    max_seq_gap: int,
    s1: u64,
    p1: Option<Timestamp>,
    a1: AudioBuffer,
    s2: u64,
    p2: Option<Timestamp>,
    a2: AudioBuffer,
)
    requires
        spec_queue_wf(slots, max_seq_gap),
        slots.len() > 0,
        s1 != s2,
        slots[0].seq <= s1 <= slots[0].seq + max_seq_gap,
        slots[0].seq <= s2 <= slots[0].seq + max_seq_gap,
        a1.wf(),
        a1@.len() == SAMPLES_PER_PACKET,
        a2.wf(),
        a2@.len() == SAMPLES_PER_PACKET,
    ensures
        spec_push(spec_push(slots, max_seq_gap, s1, p1, a1), max_seq_gap, s2, p2, a2)
            == spec_push(spec_push(slots, max_seq_gap, s2, p2, a2), max_seq_gap, s1, p1, a1),
{
    let front = slots[0].seq;
    let back = slots.last().seq;
    let q1 = spec_push(slots, max_seq_gap, s1, p1, a1);
    let q2 = spec_push(slots, max_seq_gap, s2, p2, a2);
    lemma_push_shape(slots, max_seq_gap, s1, p1, a1);
    lemma_push_shape(slots, max_seq_gap, s2, p2, a2);
    assert(q1[0] == spec_pushed_slot(slots, s1, p1, a1, front as int));
    assert(q2[0] == spec_pushed_slot(slots, s2, p2, a2, front as int));
    assert(q1[0].seq == front);
    assert(q2[0].seq == front);
    assert(q1.last() == q1[q1.len() - 1]);
    assert(q2.last() == q2[q2.len() - 1]);
    lemma_push_shape(q1, max_seq_gap, s2, p2, a2);
    lemma_push_shape(q2, max_seq_gap, s1, p1, a1);
    let a = spec_push(q1, max_seq_gap, s2, p2, a2);
    let b = spec_push(q2, max_seq_gap, s1, p1, a1);
    assert forall|i: int| 0 <= i < a.len() implies #[trigger] a[i] == spec_pushed_slot(
        q1,
        s2,
        p2,
        a2,
        front + i,
    ) by {}
    assert forall|i: int| 0 <= i < a.len() && 0 <= i < b.len() implies #[trigger] a[i] == b[i] by {
        let n = front + i;
        assert(a[i] == spec_pushed_slot(q1, s2, p2, a2, n));
        assert(b[i] == spec_pushed_slot(q2, s1, p1, a1, n));
        if n <= back {
            assert(slots[n - front].seq == n);
        }
        if n <= q1.last().seq {
            assert(q1[n - front] == spec_pushed_slot(slots, s1, p1, a1, n));
        }
        if n <= q2.last().seq {
            assert(q2[n - front] == spec_pushed_slot(slots, s2, p2, a2, n));
        }
    }
    assert(a =~= b);
}

/// Queue contiguity: after any sequence of pushes within the gap bound,
/// each slot's sequence number is exactly one past its predecessor's.
pub proof fn lemma_queue_contiguity(q: &PacketQueue)
    requires
        q.wf(),
    ensures
        forall|i: int|
            0 <= i < q.slots().len() - 1 ==> (#[trigger] q.slots()[i + 1].seq) == q.slots()[i].seq
                + 1,
{
    assert forall|i: int|
        0 <= i < q.slots().len() - 1 implies (#[trigger] q.slots()[i + 1].seq) == q.slots()[i].seq
        + 1 by {
        assert(q.slots()[i].seq == q.slots()[0].seq + i);
        assert(q.slots()[i + 1].seq == q.slots()[0].seq + i + 1);
    }
}

/// The fixed-gap packet queue.
pub struct PacketQueue {
    queue: Vec<QueuedPacket>,
    max_seq_gap: usize,
}

impl PacketQueue {
    /// The slots in order, front first.
    pub closed spec fn slots(&self) -> Seq<QueuedPacket> {
        self.queue@
    }

    pub closed spec fn spec_max_seq_gap(&self) -> int {
        self.max_seq_gap as int
    }

    /// Contiguity and slot soundness: every slot's sequence number is the
    /// front's plus its index, and the queue never stretches past the gap
    /// bound.
    pub open spec fn wf(&self) -> bool {
        spec_queue_wf(self.slots(), self.spec_max_seq_gap())
    }

    pub fn new(max_seq_gap: usize) -> (r: PacketQueue)
        requires
            max_seq_gap < usize::MAX,
        ensures
            r.wf(),
            r.slots().len() == 0,
            r.spec_max_seq_gap() == max_seq_gap,
    {
        PacketQueue { queue: Vec::new(), max_seq_gap }
    }

    pub fn len(&self) -> (r: usize)
        ensures
            r == self.slots().len(),
    {
        self.queue.len()
    }

    pub fn is_empty(&self) -> (r: bool)
        ensures
            r == (self.slots().len() == 0),
    {
        self.queue.len() == 0
    }

    /// The front slot, if any.
    pub fn head(&self) -> (r: Option<&QueuedPacket>)
        ensures
            self.slots().len() == 0 ==> r is None,
            self.slots().len() > 0 ==> (r matches Some(p) && *p == self.slots()[0]),
    {
        self.queue.as_slice().get(0)
    }

    /// Remove and return the front slot.
    pub fn pop_front(&mut self) -> (r: Option<QueuedPacket>)
        requires
            old(self).wf(),
        ensures
            final(self).wf(),
            final(self).spec_max_seq_gap() == old(self).spec_max_seq_gap(),
            old(self).slots().len() == 0 ==> (r is None && final(self).slots()
                == old(self).slots()),
            old(self).slots().len() > 0 ==> (r matches Some(p) && p == old(self).slots()[0]
                && final(self).slots() == old(self).slots().skip(1)),
    {
        if self.queue.len() == 0 {
            None
        } else {
            let p: QueuedPacket = self.queue.remove(0);
            proof {
                assert(final(self).slots() =~= old(self).slots().skip(1));
            }
            Some(p)
        }
    }

    /// Advance the front slot's consumed count.
    pub fn set_head_consumed(&mut self, consumed: SampleDuration)
        requires
            old(self).wf(),
            old(self).slots().len() > 0,
            old(self).slots()[0].audio is Some,
            consumed.0 <= crate::protocol::FRAMES_PER_PACKET,
        ensures
            final(self).wf(),
            final(self).spec_max_seq_gap() == old(self).spec_max_seq_gap(),
            final(self).slots() == old(self).slots().update(
                0,
                QueuedPacket { consumed, ..old(self).slots()[0] },
            ),
    {
        let slot: &mut QueuedPacket = vec_index_mut(&mut self.queue, 0);
        slot.consumed = consumed;
        proof {
            assert(final(self).slots() =~= old(self).slots().update(
                0,
                QueuedPacket { consumed, ..old(self).slots()[0] },
            ));
        }
    }

    /// Accept a packet. An empty queue re-opens at the packet's number; a
    /// number inside the current span fills its slot; one ahead of the back
    /// but within the gap bound appends holes for the numbers between, then
    /// fills its own, dropping heads if the queue would stretch past the
    /// bound; anything else resets the queue to this packet alone.
    pub fn push(&mut self, seq: u64, pts: Option<Timestamp>, audio: AudioBuffer)
        requires
            old(self).wf(),
            audio.wf(),
            audio@.len() == SAMPLES_PER_PACKET,
        ensures
            final(self).wf(),
            final(self).spec_max_seq_gap() == old(self).spec_max_seq_gap(),
            final(self).slots() == spec_push(
                old(self).slots(),
                old(self).spec_max_seq_gap(),
                seq,
                pts,
                audio,
            ),
            (old(self).slots().len() == 0 || seq < old(self).slots()[0].seq || seq > old(
                self,
            ).slots().last().seq + old(self).spec_max_seq_gap()) ==> final(self).slots() =~= seq![
                QueuedPacket { seq, pts, consumed: SampleDuration(0), audio: Some(audio) },
            ],
            (old(self).slots().len() > 0 && old(self).slots()[0].seq <= seq <= old(
                self,
            ).slots().last().seq) ==> final(self).slots() =~= old(self).slots().update(
                seq - old(self).slots()[0].seq,
                QueuedPacket {
                    seq,
                    pts,
                    consumed: old(self).slots()[seq - old(self).slots()[0].seq].consumed,
                    audio: Some(audio),
                },
            ),
            (old(self).slots().len() > 0 && old(self).slots().last().seq < seq <= old(
                self,
            ).slots().last().seq + old(self).spec_max_seq_gap()) ==> {
                let extended = old(self).slots() + Seq::new(
                    (seq - old(self).slots().last().seq - 1) as nat,
                    |i: int| spec_hole((old(self).slots().last().seq + 1 + i) as u64),
                ) + seq![
                    QueuedPacket { seq, pts, consumed: SampleDuration(0), audio: Some(audio) },
                ];
                final(self).slots() =~= extended.skip(
                    if extended.len() > old(self).spec_max_seq_gap() + 1 {
                        extended.len() - (old(self).spec_max_seq_gap() + 1)
                    } else {
                        0
                    },
                )
            },
    {
        if self.queue.len() == 0 {
            self.queue.push(
                QueuedPacket { seq, pts, consumed: SampleDuration(0), audio: Some(audio) },
            );
            return ;
        }
        let front: u64 = self.queue[0].seq;
        let back: u64 = front + (self.queue.len() - 1) as u64;
        if seq < front || (seq as u128) > (back as u128) + (self.max_seq_gap as u128) {
            self.queue.clear();
            self.queue.push(
                QueuedPacket { seq, pts, consumed: SampleDuration(0), audio: Some(audio) },
            );
            return ;
        }
        if seq <= back {
            let idx: usize = (seq - front) as usize;
            let slot: &mut QueuedPacket = vec_index_mut(&mut self.queue, idx);
            let consumed: SampleDuration = slot.consumed;
            slot.pts = pts;
            slot.audio = Some(audio);
            proof {
                assert(final(self).slots() =~= old(self).slots().update(
                    seq - old(self).slots()[0].seq,
                    QueuedPacket {
                        seq,
                        pts,
                        consumed: old(self).slots()[seq - old(self).slots()[0].seq].consumed,
                        audio: Some(final(self).slots()[seq - old(self).slots()[0].seq].audio->Some_0),
                    },
                ));
            }
            return ;
        }
        let ghost extended = old(self).slots() + Seq::new(
            (seq - old(self).slots().last().seq - 1) as nat,
            |i: int| spec_hole((old(self).slots().last().seq + 1 + i) as u64),
        ) + seq![QueuedPacket { seq, pts, consumed: SampleDuration(0), audio: Some(audio) }];
        let mut next: u64 = back + 1;
        while next < seq
            invariant
                self.spec_max_seq_gap() == old(self).spec_max_seq_gap(),
                self.queue@.len() == old(self).slots().len() + (next - back - 1),
                back == old(self).slots().last().seq,
                back < next <= seq,
                self.queue@ == old(self).slots() + Seq::new(
                    (next - back - 1) as nat,
                    |i: int| spec_hole((back + 1 + i) as u64),
                ),
            decreases seq - next,
        {
            self.queue.push(QueuedPacket {
                seq: next,
                pts: None,
                consumed: SampleDuration(0),
                audio: None,
            });
            proof {
                assert(self.queue@ =~= old(self).slots() + Seq::new(
                    (next + 1 - back - 1) as nat,
                    |i: int| spec_hole((back + 1 + i) as u64),
                ));
            }
            next = next + 1;
        }
        self.queue.push(QueuedPacket { seq, pts, consumed: SampleDuration(0), audio: Some(audio) });
        proof {
            assert(self.queue@ =~= extended);
        }
        let ghost dropped = 0int;
        proof {
            assert(extended.skip(0) =~= extended);
        }
        while self.queue.len() > self.max_seq_gap + 1
            invariant
                self.spec_max_seq_gap() == old(self).spec_max_seq_gap(),
                old(self).spec_max_seq_gap() < usize::MAX,
                0 <= dropped <= extended.len(),
                dropped <= if extended.len() > old(self).spec_max_seq_gap() + 1 {
                    extended.len() - (old(self).spec_max_seq_gap() + 1)
                } else {
                    0
                },
                self.queue@ == extended.skip(dropped),
            decreases self.queue@.len(),
        {
            self.queue.remove(0);
            proof {
                dropped = dropped + 1;
                assert(self.queue@ =~= extended.skip(dropped));
            }
        }
        proof {
            let oldslots = old(self).slots();
            let oldlen = oldslots.len() as int;
            let holes = seq - back - 1;
            let filled = QueuedPacket { seq, pts, consumed: SampleDuration(0), audio: Some(audio) };
            assert forall|i: int|
                0 <= i < extended.len() implies (#[trigger] extended[i]).seq == extended[0].seq
                + i by {
                assert(extended[0] == oldslots[0]);
                if i < oldlen {
                    assert(extended[i] == oldslots[i]);
                } else if i < oldlen + holes {
                    assert(extended[i] == spec_hole((back + 1 + (i - oldlen)) as u64));
                    assert(oldslots.last().seq == oldslots[0].seq + oldlen - 1);
                } else {
                    assert(extended[i] == filled);
                    assert(oldslots.last().seq == oldslots[0].seq + oldlen - 1);
                }
            }
            assert forall|i: int|
                0 <= i < extended.len() implies spec_slot_wf(#[trigger] extended[i]) by {
                if i < oldlen {
                    assert(extended[i] == oldslots[i]);
                    assert(spec_slot_wf(oldslots[i]));
                } else if i < oldlen + holes {
                    assert(extended[i] == spec_hole((back + 1 + (i - oldlen)) as u64));
                } else {
                    assert(extended[i] == filled);
                }
            }
            assert(self.queue@.len() <= self.max_seq_gap + 1);
            assert(final(self).slots() =~= extended.skip(
                if extended.len() > old(self).spec_max_seq_gap() + 1 {
                    extended.len() - (old(self).spec_max_seq_gap() + 1)
                } else {
                    0
                },
            ));
        }
    }

    /// Drop every slot.
    pub fn clear(&mut self)
        requires
            old(self).wf(),
        ensures
            final(self).wf(),
            final(self).spec_max_seq_gap() == old(self).spec_max_seq_gap(),
            final(self).slots().len() == 0,
    {
        self.queue.clear();
    }
}

} // verus!
