//! The sync state machine: on each output callback, decide from the queue
//! head and the requested instant whether to seek, play, skip or fill
//! silence, and fill the output span accordingly.
//!
//! A head without a presentation instant is dropped and the span plays
//! silence. A head wholly in the past is popped. A head a little in the
//! past is consumed from the matching offset, so the next frame played is
//! the one due now. A head in the future leaves silence until its instant
//! arrives. An empty queue is an underrun: silence.
//!
//! Two choices are left open by the design and settled here. When playback
//! is late by less than the head's remainder, consumption is aligned so the
//! head's next frame is the one at the requested instant (for a fresh head
//! this is exactly "consumed = skew"), and a head whose remainder lies
//! wholly in the past is popped whatever its consumed count. And a miss
//! does not debounce: the moment a packet is consumed in phase, the status
//! returns to in-phase (in-sync, or slewing while a correction runs).

use vstd::prelude::*;

use crate::protocol::{CHANNELS, FRAMES_PER_PACKET};
use crate::queue::{spec_slot_wf, PacketQueue, QueuedPacket};
use crate::stats::StreamStatus;
use crate::time::{SampleDuration, Timestamp};

verus! {

/// A span of silent samples.
pub open spec fn spec_zeros(n: int) -> Seq<u32> {
    Seq::new(n as nat, |i: int| 0u32)
}

/// Whether playback is in phase (consuming packets in order).
pub open spec fn spec_in_sync(status: StreamStatus) -> bool {
    status == StreamStatus::Sync || status == StreamStatus::Slew
}

/// The status after consuming in phase: a running slew stays a slew (the
/// rate controller enters and leaves that state; consumption treats the
/// two alike), anything else becomes in-sync.
pub open spec fn spec_phase_status(status: StreamStatus) -> StreamStatus {
    if status == StreamStatus::Slew {
        StreamStatus::Slew
    } else {
        StreamStatus::Sync
    }
}

/// What one callback leaves behind: the samples played, the queue after,
/// and the stream status after.
pub struct FillResult {
    pub out: Seq<u32>,
    pub slots: Seq<QueuedPacket>,
    pub status: StreamStatus,
}

/// The whole decision procedure of one output callback, as a function of
/// the queue, the requested instant (in frames) and the span length (in
/// frames). The executable `fill_output` returns exactly this.
pub open spec fn spec_fill(
    slots: Seq<QueuedPacket>,
    pts_now: int,
    frames: int,
    status: StreamStatus,
) -> FillResult
    decreases frames, slots.len(),
    when frames >= 0
{
    if frames <= 0 {
        FillResult { out: Seq::empty(), slots, status }
    } else if slots.len() == 0 {
        // underrun: the whole span is silence
        FillResult { out: spec_zeros(frames * CHANNELS), slots, status: StreamStatus::Miss }
    } else {
        let head = slots[0];
        if head.pts is None {
            // no instant to play it at: drop it, silence for this span
            FillResult {
                out: spec_zeros(frames * CHANNELS),
                slots: slots.skip(1),
                status: StreamStatus::Miss,
            }
        } else {
            let base = head.pts->Some_0.0 as int;
            let eff0 = head.consumed.0 as int;
            let skew = pts_now - (base + eff0);
            if skew >= FRAMES_PER_PACKET - eff0 {
                // the head's remainder lies wholly in the past
                spec_fill(slots.skip(1), pts_now, frames, status)
            } else if skew < 0 {
                let lead = -skew;
                if lead >= frames {
                    // early by the whole span
                    FillResult {
                        out: spec_zeros(frames * CHANNELS),
                        slots,
                        status: if spec_in_sync(status) {
                            status
                        } else {
                            StreamStatus::Miss
                        },
                    }
                } else {
                    // silence until the head's instant, then play
                    let rest = spec_fill(slots, pts_now + lead, frames - lead, status);
                    FillResult {
                        out: spec_zeros(lead * CHANNELS) + rest.out,
                        slots: rest.slots,
                        status: rest.status,
                    }
                }
            } else {
                // in phase, or late by less than the head's remainder:
                // consume from the offset that is due now
                let eff = eff0 + skew;
                let avail = FRAMES_PER_PACKET - eff;
                let take = if avail < frames {
                    avail
                } else {
                    frames
                };
                let seg = head.audio->Some_0@.subrange(eff * CHANNELS, (eff + take) * CHANNELS);
                if take == avail {
                    let rest = spec_fill(
                        slots.skip(1),
                        pts_now + take,
                        frames - take,
                        spec_phase_status(status),
                    );
                    FillResult { out: seg + rest.out, slots: rest.slots, status: rest.status }
                } else {
                    FillResult {
                        out: seg,
                        slots: slots.update(
                            0,
                            QueuedPacket {
                                consumed: SampleDuration((eff + take) as u64),
                                ..head
                            },
                        ),
                        status: spec_phase_status(status),
                    }
                }
            }
        }
    }
}

/// Overwrite `out[from..]` with zeroes.
fn zero_range(out: &mut Vec<u32>, from: usize, to: usize)
    requires
        from <= to <= old(out)@.len(),
    ensures
        final(out)@.len() == old(out)@.len(),
        forall|j: int|
            0 <= j < old(out)@.len() ==> final(out)@[j] == (if from <= j < to {
                0u32
            } else {
                old(out)@[j]
            }),
{
    let mut j: usize = from;
    while j < to
        invariant
            from <= j <= to <= out@.len(),
            out@.len() == old(out)@.len(),
            forall|k: int|
                0 <= k < out@.len() ==> out@[k] == (if from <= k < j {
                    0u32
                } else {
                    old(out)@[k]
                }),
        decreases to - j,
    {
        out[j] = 0u32;
        j = j + 1;
    }
}

/// Copy `count` words of `src` starting at `src_off` into `out` at
/// `out_off`.
fn copy_words(out: &mut Vec<u32>, out_off: usize, src: &[u32], src_off: usize, count: usize)
    requires
        out_off + count <= old(out)@.len(),
        src_off + count <= src@.len(),
    ensures
        final(out)@.len() == old(out)@.len(),
        forall|j: int|
            0 <= j < old(out)@.len() ==> final(out)@[j] == (if out_off <= j < out_off + count {
                src@[src_off + (j - out_off)]
            } else {
                old(out)@[j]
            }),
{
    let out_len: usize = out.len();
    let src_len: usize = src.len();
    let mut j: usize = 0;
    while j < count
        invariant
            j <= count,
            out@.len() == out_len,
            src@.len() == src_len,
            out_off + count <= out_len,
            src_off + count <= src_len,
            out@.len() == old(out)@.len(),
            forall|k: int|
                0 <= k < out@.len() ==> out@[k] == (if out_off <= k < out_off + j {
                    src@[src_off + (k - out_off)]
                } else {
                    old(out)@[k]
                }),
        decreases count - j,
    {
        let v: u32 = *vstd::slice::slice_index_get(src, src_off + j);
        out[out_off + j] = v;
        j = j + 1;
    }
}

/// Fill one output span from the queue, per the decision procedure above.
/// `out` is overwritten whole; its length fixes the span.
#[verifier::rlimit(100)]
pub fn fill_output(
    queue: &mut PacketQueue,
    pts_now: Timestamp,
    out: &mut Vec<u32>,
    status: StreamStatus,
) -> (r: StreamStatus)
    requires
        old(queue).wf(),
        old(out)@.len() as int % (CHANNELS as int) == 0,
        pts_now.0 + old(out)@.len() <= u64::MAX,
    ensures
        final(queue).wf(),
        final(queue).spec_max_seq_gap() == old(queue).spec_max_seq_gap(),
        final(out)@.len() == old(out)@.len(),
        ({
            let result = spec_fill(
                old(queue).slots(),
                pts_now.0 as int,
                old(out)@.len() as int / (CHANNELS as int),
                status,
            );
            final(out)@ == result.out && final(queue).slots() == result.slots && r
                == result.status
        }),
{
    let total: usize = out.len();
    let n_frames: usize = total / CHANNELS;
    proof {
        assert(n_frames * CHANNELS == total);
    }
    let ghost result = spec_fill(old(queue).slots(), pts_now.0 as int, n_frames as int, status);
    let mut filled: usize = 0;
    let mut cur: StreamStatus = status;
    loop
        invariant
            queue.wf(),
            queue.spec_max_seq_gap() == old(queue).spec_max_seq_gap(),
            out@.len() == old(out)@.len(),
            out@.len() == total,
            total == n_frames * CHANNELS,
            filled <= n_frames,
            pts_now.0 + n_frames <= u64::MAX,
            result == spec_fill(
                old(queue).slots(),
                pts_now.0 as int,
                n_frames as int,
                status,
            ),
            ({
                let sub = spec_fill(queue.slots(), pts_now.0 + filled, n_frames - filled, cur);
                result.out == out@.take((filled * CHANNELS) as int) + sub.out && result.slots
                    == sub.slots && result.status == sub.status
            }),
        ensures
            out@.len() == old(out)@.len(),
            queue.wf(),
            queue.spec_max_seq_gap() == old(queue).spec_max_seq_gap(),
            result.out == out@ && result.slots == queue.slots() && result.status == cur,
        decreases n_frames - filled, queue.slots().len(),
    {
        if filled == n_frames {
            proof {
                let sub = spec_fill(queue.slots(), pts_now.0 + filled, 0, cur);
                assert(sub.out == Seq::<u32>::empty());
                assert(result.out =~= out@);
            }
            break ;
        }
        let ghost out0 = out@;
        let ghost slots0 = queue.slots();
        let ghost pts_f = pts_now.0 + filled as int;
        let ghost rem = n_frames - filled as int;
        let ghost sub0 = spec_fill(slots0, pts_f, rem, cur);
        let remaining: usize = n_frames - filled;
        let mut do_pop: bool = false;
        let mut do_drop_and_silence: bool = false;
        let mut do_underrun: bool = false;
        let mut lead_zeros: usize = 0;
        let mut do_early_full: bool = false;
        let mut eff: usize = 0;
        let mut take: usize = 0;
        let mut exhausts: bool = false;
        match queue.head() {
            None => {
                do_underrun = true;
            },
            Some(head) => {
                match head.pts {
                    None => {
                        do_drop_and_silence = true;
                    },
                    Some(pts) => {
                        let base: u64 = pts.0;
                        let eff0: u64 = head.consumed.0;
                        let pts_cur: u64 = pts_now.0 + (filled as u64);
                        let skew: i128 = (pts_cur as i128) - (base as i128) - (eff0 as i128);
                        if skew >= (FRAMES_PER_PACKET as i128) - (eff0 as i128) {
                            do_pop = true;
                        } else if skew < 0 {
                            let lead: i128 = -skew;
                            if lead >= remaining as i128 {
                                do_early_full = true;
                            } else {
                                lead_zeros = lead as usize;
                            }
                        } else {
                            eff = (eff0 as usize) + (skew as usize);
                            let avail: usize = FRAMES_PER_PACKET - eff;
                            take = if avail < remaining {
                                avail
                            } else {
                                remaining
                            };
                            exhausts = take == avail;
                            match &head.audio {
                                Some(audio) => {
                                    let samples: &[u32] = audio.samples();
                                    copy_words(
                                        out,
                                        filled * CHANNELS,
                                        samples,
                                        eff * CHANNELS,
                                        take * CHANNELS,
                                    );
                                },
                                None => {
                                    proof {
                                        assert(spec_slot_wf(slots0[0]));
                                        assert(false);
                                    }
                                },
                            }
                        }
                    },
                }
            },
        }
        if do_underrun {
            zero_range(out, filled * CHANNELS, n_frames * CHANNELS);
            proof {
                assert(sub0.out =~= spec_zeros(rem * CHANNELS));
                let next_sub = spec_fill(queue.slots(), pts_now.0 + n_frames, 0, StreamStatus::Miss);
                assert(next_sub.out == Seq::<u32>::empty());
                assert(result.out =~= out@.take((n_frames * CHANNELS) as int) + next_sub.out);
            }
            filled = n_frames;
            cur = StreamStatus::Miss;
        } else if do_drop_and_silence {
            let popped: Option<QueuedPacket> = queue.pop_front();
            proof {
                assert(queue.slots() == slots0.skip(1));
            }
            zero_range(out, filled * CHANNELS, n_frames * CHANNELS);
            proof {
                assert(sub0.out =~= spec_zeros(rem * CHANNELS));
                assert(sub0.slots == slots0.skip(1));
                let next_sub = spec_fill(queue.slots(), pts_now.0 + n_frames, 0, StreamStatus::Miss);
                assert(next_sub.out == Seq::<u32>::empty());
                assert(result.out =~= out@.take((n_frames * CHANNELS) as int) + next_sub.out);
            }
            filled = n_frames;
            cur = StreamStatus::Miss;
        } else if do_pop {
            let popped: Option<QueuedPacket> = queue.pop_front();
            proof {
                assert(queue.slots() == slots0.skip(1));
                assert(sub0 == spec_fill(slots0.skip(1), pts_f, rem, cur));
            }
        } else if do_early_full {
            zero_range(out, filled * CHANNELS, n_frames * CHANNELS);
            let next: StreamStatus = if matches!(cur, StreamStatus::Sync) || matches!(
                cur,
                StreamStatus::Slew,
            ) {
                cur
            } else {
                StreamStatus::Miss
            };
            proof {
                assert(sub0.out =~= spec_zeros(rem * CHANNELS));
                assert(sub0.status == next);
                let next_sub = spec_fill(queue.slots(), pts_now.0 + n_frames, 0, next);
                assert(next_sub.out == Seq::<u32>::empty());
                assert(result.out =~= out@.take((n_frames * CHANNELS) as int) + next_sub.out);
            }
            filled = n_frames;
            cur = next;
        } else if lead_zeros > 0 {
            zero_range(out, filled * CHANNELS, (filled + lead_zeros) * CHANNELS);
            proof {
                let sub2 = spec_fill(slots0, pts_f + lead_zeros, rem - lead_zeros, cur);
                assert(sub0.out == spec_zeros((lead_zeros * CHANNELS) as int) + sub2.out);
                assert(out@.take(((filled + lead_zeros) * CHANNELS) as int) =~= out0.take(
                    (filled * CHANNELS) as int,
                ) + spec_zeros((lead_zeros * CHANNELS) as int));
                assert(result.out =~= out@.take(((filled + lead_zeros) * CHANNELS) as int)
                    + sub2.out);
            }
            filled = filled + lead_zeros;
        } else {
            // consume from the head
            let ghost h = slots0[0];
            let ghost seg = h.audio->Some_0@.subrange(
                (eff * CHANNELS) as int,
                ((eff + take) * CHANNELS) as int,
            );
            proof {
                assert(spec_slot_wf(h));
                assert(out@.take(((filled + take) * CHANNELS) as int) =~= out0.take(
                    (filled * CHANNELS) as int,
                ) + seg);
            }
            let new_consumed: usize = eff + take;
            let phase: StreamStatus = if matches!(cur, StreamStatus::Slew) {
                StreamStatus::Slew
            } else {
                StreamStatus::Sync
            };
            if exhausts {
                let popped: Option<QueuedPacket> = queue.pop_front();
                proof {
                    let sub2 = spec_fill(
                        slots0.skip(1),
                        pts_f + take,
                        rem - take,
                        spec_phase_status(cur),
                    );
                    assert(sub0.out == seg + sub2.out);
                    assert(sub0.slots == sub2.slots);
                    assert(sub0.status == sub2.status);
                    assert(queue.slots() == slots0.skip(1));
                    assert(result.out =~= out@.take(((filled + take) * CHANNELS) as int)
                        + sub2.out);
                }
            } else {
                queue.set_head_consumed(SampleDuration(new_consumed as u64));
                proof {
                    assert(take == remaining);
                    assert(sub0.out == seg);
                    assert(sub0.status == spec_phase_status(cur));
                    assert(queue.slots() == slots0.update(
                        0,
                        QueuedPacket { consumed: SampleDuration((eff + take) as u64), ..h },
                    ));
                    assert(sub0.slots == queue.slots());
                    let next_sub = spec_fill(
                        queue.slots(),
                        pts_now.0 + n_frames,
                        0,
                        spec_phase_status(cur),
                    );
                    assert(next_sub.out == Seq::<u32>::empty());
                    assert(result.out =~= out@.take((n_frames * CHANNELS) as int) + next_sub.out);
                }
            }
            cur = phase;
            filled = filled + take;
        }
    }
    cur
}

} // verus!
