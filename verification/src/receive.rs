//! Receiver-side session handling: which packets belong to the session,
//! when a new session takes over, and how each accepted packet reaches the
//! jitter queue with its instant moved into the receiver's timebase.

use vstd::prelude::*;

use crate::buffer::AudioBuffer;
use crate::clock::Timing;
use crate::packet::{AudioPacketHeader, ReceiverId, SessionId, TimePacketData};
use crate::protocol::SAMPLES_PER_PACKET;
use crate::queue::{PacketQueue, QueuedPacket};
use crate::stats::{ReceiverStats, StreamStatus, FLAG_HAS_PREDICT_OFFSET};
use crate::sync::spec_fill;
use crate::time::{SampleDuration, Timestamp, TimestampMicros};

verus! {

/// The latest clock estimates, as published in stats.
#[derive(Clone, Copy, Debug, PartialEq, Eq, Structural)]
pub struct ClockInfo {
    pub network_latency_usec: i64,
    pub clock_diff_usec: i64,
}

/// Receiver configuration: the multicast group and interface to listen on,
/// the output device to use, and the accepted sequence gap.
pub struct ReceiveOpt {
    pub multicast: Option<String>,
    pub interface: Option<String>,
    pub device: Option<String>,
    pub max_seq_gap: usize,
}

/// What became of an incoming audio packet's session id.
#[derive(Clone, Copy, Debug, PartialEq, Eq, Structural)]
pub enum SessionDisposition {
    /// The packet belongs to the current session.
    Accept,
    /// The packet belongs to an older session and is dropped.
    Ignore,
    /// The packet announces a newer session: adopt it and start over.
    Takeover,
}

/// Highest session id wins: a newer session preempts, an older one is
/// ignored.
pub open spec fn spec_session_disposition(
    current: Option<SessionId>,
    incoming: SessionId,
) -> SessionDisposition {
    match current {
        None => SessionDisposition::Takeover,
        Some(cur) => {
            if incoming.0 > cur.0 {
                SessionDisposition::Takeover
            } else if incoming.0 < cur.0 {
                SessionDisposition::Ignore
            } else {
                SessionDisposition::Accept
            }
        },
    }
}

pub fn session_disposition(current: Option<SessionId>, incoming: SessionId) -> (r:
    SessionDisposition)
    ensures
        r == spec_session_disposition(current, incoming),
{
    match current {
        None => SessionDisposition::Takeover,
        Some(cur) => {
            if incoming.0 > cur.0 {
                SessionDisposition::Takeover
            } else if incoming.0 < cur.0 {
                SessionDisposition::Ignore
            } else {
                SessionDisposition::Accept
            }
        },
    }
}

/// The stats block after one packet's send-time prediction is measured:
/// with both medians in hand, the predicted send instant is `now` less the
/// network latency less the clock offset, and the error against the
/// packet's own send instant is recorded when it fits.
pub open spec fn spec_predict_update(
    stats: ReceiverStats,
    latency_median: Option<i64>,
    delta_median: Option<i64>,
    now: TimestampMicros,
    dts: TimestampMicros,
) -> ReceiverStats {
    match (latency_median, delta_median) {
        (Some(l), Some(d)) => {
            let diff = now.0 - l - d - dts.0;
            if i64::MIN <= diff <= i64::MAX {
                ReceiverStats {
                    flags: stats.flags | FLAG_HAS_PREDICT_OFFSET,
                    predict_offset_micros: diff as i64,
                    ..stats
                }
            } else {
                stats
            }
        },
        _ => stats,
    }
}

/// A receiver's whole per-session state: the session lock, the jitter
/// queue, the clock estimator, the slew rate controller, and the stats
/// block.
pub struct Receiver {
    sid: Option<SessionId>,
    rid: ReceiverId,
    queue: PacketQueue,
    timing: Timing,
    rate: crate::slew::RateAdjust,
    stats: ReceiverStats,
    status: StreamStatus,
}

impl Receiver {
    pub closed spec fn wf(&self) -> bool {
        &&& self.queue.wf()
        &&& self.timing.wf()
    }

    pub closed spec fn spec_sid(&self) -> Option<SessionId> {
        self.sid
    }

    pub closed spec fn spec_rid(&self) -> ReceiverId {
        self.rid
    }

    pub closed spec fn spec_slots(&self) -> Seq<QueuedPacket> {
        self.queue.slots()
    }

    pub closed spec fn spec_max_seq_gap(&self) -> int {
        self.queue.spec_max_seq_gap()
    }

    pub closed spec fn spec_timing(&self) -> &Timing {
        &self.timing
    }

    pub closed spec fn spec_stats(&self) -> ReceiverStats {
        self.stats
    }

    pub closed spec fn spec_status(&self) -> StreamStatus {
        self.status
    }

    /// Whether a slew correction is running.
    pub closed spec fn spec_slewing(&self) -> bool {
        self.rate.spec_slew()
    }

    pub fn new(rid: ReceiverId, max_seq_gap: usize) -> (r: Receiver)
        requires
            max_seq_gap < usize::MAX,
        ensures
            r.wf(),
            r.spec_sid() is None,
            r.spec_rid() == rid,
            r.spec_slots().len() == 0,
            r.spec_max_seq_gap() == max_seq_gap,
            r.spec_stats() == ReceiverStats::zeroed(),
            r.spec_status() == StreamStatus::Seek,
            !r.spec_slewing(),
            r.spec_timing().spec_latency().window() == Seq::<i64>::empty(),
            r.spec_timing().spec_latency().spec_count() == 0,
            r.spec_timing().spec_latency().spec_index() == 0,
            r.spec_timing().spec_clock_delta().window() == Seq::<i64>::empty(),
            r.spec_timing().spec_clock_delta().spec_count() == 0,
            r.spec_timing().spec_clock_delta().spec_index() == 0,
    {
        Receiver {
            sid: None,
            rid,
            queue: PacketQueue::new(max_seq_gap),
            timing: Timing::new(),
            rate: crate::slew::RateAdjust::new(),
            stats: ReceiverStats::new(),
            status: StreamStatus::Seek,
        }
    }

    /// The session currently locked onto.
    pub fn current_session(&self) -> (r: Option<SessionId>)
        ensures
            r == self.spec_sid(),
    {
        self.sid
    }

    /// The live stats block.
    pub fn stats(&self) -> (r: ReceiverStats)
        ensures
            r == self.spec_stats(),
    {
        self.stats
    }

    /// The latest clock estimates, once both medians exist.
    pub fn clock_info(&self) -> (r: Option<ClockInfo>)
        requires
            self.wf(),
        ensures
            (match (
                self.spec_timing().spec_latency().spec_median(),
                self.spec_timing().spec_clock_delta().spec_median(),
            ) {
                (Some(l), Some(d)) => r == Some(
                    ClockInfo { network_latency_usec: l, clock_diff_usec: d },
                ),
                _ => r is None,
            }),
    {
        let latency: Option<i64> = self.timing.network_latency();
        let delta: Option<i64> = self.timing.clock_delta_median();
        match (latency, delta) {
            (Some(l), Some(d)) => Some(ClockInfo { network_latency_usec: l, clock_diff_usec: d }),
            _ => None,
        }
    }

    /// One audio packet, already parsed and split into header and payload.
    /// An older session is ignored; a newer one resets queue, estimator and
    /// stats and is adopted; the current one has its instant moved into the
    /// receiver's timebase and lands in the queue.
    pub fn receive_audio(
        &mut self,
        header: AudioPacketHeader,
        buffer: AudioBuffer,
        now: TimestampMicros,
    ) -> (r: SessionDisposition)
        requires
            old(self).wf(),
            buffer.wf(),
            buffer@.len() == SAMPLES_PER_PACKET,
        ensures
            final(self).wf(),
            r == spec_session_disposition(old(self).spec_sid(), header.sid),
            final(self).spec_rid() == old(self).spec_rid(),
            final(self).spec_max_seq_gap() == old(self).spec_max_seq_gap(),
            r == SessionDisposition::Ignore ==> (final(self).spec_sid() == old(self).spec_sid()
                && final(self).spec_slots() == old(self).spec_slots() && final(self).spec_stats()
                == old(self).spec_stats() && final(self).spec_status() == old(self).spec_status()
                && final(self).spec_slewing() == old(self).spec_slewing()
                && final(self).spec_timing().spec_latency().window()
                == old(self).spec_timing().spec_latency().window()
                && final(self).spec_timing().spec_latency().spec_index() == old(self).spec_timing().spec_latency().spec_index()
                && final(self).spec_timing().spec_clock_delta().window() == old(self).spec_timing().spec_clock_delta().window()
                && final(self).spec_timing().spec_clock_delta().spec_index() == old(self).spec_timing().spec_clock_delta().spec_index()),
            r == SessionDisposition::Takeover ==> (final(self).spec_sid() == Some(header.sid)
                && final(self).spec_slots() =~= seq![
                QueuedPacket {
                    seq: header.seq,
                    pts: None,
                    consumed: SampleDuration(0),
                    audio: Some(buffer),
                },
            ] && final(self).spec_stats() == (ReceiverStats {
                flags: 0,
                stream_status: StreamStatus::Seek.spec_into_u8(),
                ..old(self).spec_stats()
            }) && final(self).spec_status() == StreamStatus::Seek && !final(self).spec_slewing()
                && final(self).spec_timing().spec_latency().window() == Seq::<i64>::empty()
                && final(self).spec_timing().spec_latency().spec_count() == 0 && final(self).spec_timing().spec_latency().spec_index() == 0 && final(self).spec_timing().spec_clock_delta().window() == Seq::<i64>::empty() && final(self).spec_timing().spec_clock_delta().spec_count() == 0 && final(self).spec_timing().spec_clock_delta().spec_index() == 0),
            r == SessionDisposition::Accept ==> ({
                let pts = old(self).spec_timing().spec_adjust_wire_pts(header.pts);
                let slots0 = old(self).spec_slots();
                &&& final(self).spec_sid() == old(self).spec_sid()
                &&& final(self).spec_status() == old(self).spec_status()
                &&& final(self).spec_slewing() == old(self).spec_slewing()
                &&& final(self).spec_timing().spec_latency().window() == old(self).spec_timing().spec_latency().window()
                &&& final(self).spec_timing().spec_latency().spec_index() == old(self).spec_timing().spec_latency().spec_index()
                &&& final(self).spec_timing().spec_clock_delta().window() == old(self).spec_timing().spec_clock_delta().window()
                &&& final(self).spec_timing().spec_clock_delta().spec_index() == old(self).spec_timing().spec_clock_delta().spec_index()
                &&& final(self).spec_stats() == spec_predict_update(
                    old(self).spec_stats(),
                    old(self).spec_timing().spec_latency().spec_median(),
                    old(self).spec_timing().spec_clock_delta().spec_median(),
                    now,
                    header.dts,
                )
                &&& ((slots0.len() == 0 || header.seq < slots0[0].seq || header.seq
                    > slots0.last().seq + old(self).spec_max_seq_gap()) ==> final(self).spec_slots() =~= seq![
                    QueuedPacket {
                        seq: header.seq,
                        pts,
                        consumed: SampleDuration(0),
                        audio: Some(buffer),
                    },
                ])
                &&& ((slots0.len() > 0 && slots0[0].seq <= header.seq <= slots0.last().seq)
                    ==> final(self).spec_slots() =~= slots0.update(
                    header.seq - slots0[0].seq,
                    QueuedPacket {
                        seq: header.seq,
                        pts,
                        consumed: slots0[header.seq - slots0[0].seq].consumed,
                        audio: Some(buffer),
                    },
                ))
                &&& ((slots0.len() > 0 && slots0.last().seq < header.seq <= slots0.last().seq
                    + old(self).spec_max_seq_gap()) ==> {
                    let extended = slots0 + Seq::new(
                        (header.seq - slots0.last().seq - 1) as nat,
                        |i: int| crate::queue::spec_hole((slots0.last().seq + 1 + i) as u64),
                    ) + seq![
                        QueuedPacket {
                            seq: header.seq,
                            pts,
                            consumed: SampleDuration(0),
                            audio: Some(buffer),
                        },
                    ];
                    final(self).spec_slots() =~= extended.skip(
                        if extended.len() > old(self).spec_max_seq_gap() + 1 {
                            extended.len() - (old(self).spec_max_seq_gap() + 1)
                        } else {
                            0
                        },
                    )
                })
            }),
    {
        let disposition: SessionDisposition = session_disposition(self.sid, header.sid);
        match disposition {
            SessionDisposition::Ignore => {
                return disposition;
            },
            SessionDisposition::Takeover => {
                self.sid = Some(header.sid);
                self.queue.clear();
                self.timing = Timing::new();
                self.rate = crate::slew::RateAdjust::new();
                self.stats.clear();
                self.status = StreamStatus::Seek;
                self.queue.push(header.seq, None, buffer);
                return disposition;
            },
            SessionDisposition::Accept => {
                let latency: Option<i64> = self.timing.network_latency();
                let delta: Option<i64> = self.timing.clock_delta_median();
                match (latency, delta) {
                    (Some(l), Some(d)) => {
                        let diff: i128 = (now.0 as i128) - (l as i128) - (d as i128) - (header.dts.0
                            as i128);
                        if i64::MIN as i128 <= diff && diff <= i64::MAX as i128 {
                            self.stats.set_predict_offset(diff as i64);
                        }
                    },
                    _ => {},
                }
                let pts: Option<Timestamp> = self.timing.adjust_wire_pts(header.pts);
                self.queue.push(header.seq, pts, buffer);
                return disposition;
            },
        }
    }

    /// One completed time exchange for this receiver: fold it into the
    /// clock estimator. The caller has checked the receiver id and stamped
    /// `receive_4`.
    pub fn receive_time(&mut self, d: &TimePacketData)
        requires
            old(self).wf(),
            i64::MIN <= crate::clock::spec_rtt_micros(*d) <= i64::MAX,
            i64::MIN <= (d.receive_2.0 - d.stream_1.0) + (d.receive_4.0 - d.stream_3.0),
            (d.receive_2.0 - d.stream_1.0) + (d.receive_4.0 - d.stream_3.0) <= i64::MAX,
        ensures
            final(self).wf(),
            final(self).spec_sid() == old(self).spec_sid(),
            final(self).spec_slots() == old(self).spec_slots(),
            final(self).spec_stats() == old(self).spec_stats(),
            final(self).spec_max_seq_gap() == old(self).spec_max_seq_gap(),
            final(self).spec_timing().spec_latency().window() == (if old(self).spec_timing().spec_latency().spec_index() < old(self).spec_timing().spec_latency().spec_count() {
                old(self).spec_timing().spec_latency().window().update(
                    old(self).spec_timing().spec_latency().spec_index(),
                    (crate::time::div_trunc(crate::clock::spec_rtt_micros(*d), 2)) as i64,
                )
            } else {
                old(self).spec_timing().spec_latency().window().push(
                    (crate::time::div_trunc(crate::clock::spec_rtt_micros(*d), 2)) as i64,
                )
            }),
            final(self).spec_timing().spec_clock_delta().window() == (if old(self).spec_timing().spec_clock_delta().spec_index() < old(self).spec_timing().spec_clock_delta().spec_count() {
                old(self).spec_timing().spec_clock_delta().window().update(
                    old(self).spec_timing().spec_clock_delta().spec_index(),
                    crate::clock::spec_clock_delta_micros(*d) as i64,
                )
            } else {
                old(self).spec_timing().spec_clock_delta().window().push(
                    crate::clock::spec_clock_delta_micros(*d) as i64,
                )
            }),
            final(self).spec_timing().spec_latency().spec_count() == (if old(self).spec_timing().spec_latency().spec_count() < crate::clock::WINDOW_SIZE {
                old(self).spec_timing().spec_latency().spec_count() + 1
            } else {
                crate::clock::WINDOW_SIZE as int
            }),
            final(self).spec_timing().spec_latency().spec_index() == (old(self).spec_timing().spec_latency().spec_index() + 1) % (crate::clock::WINDOW_SIZE as int),
            final(self).spec_timing().spec_clock_delta().spec_count() == (if old(self).spec_timing().spec_clock_delta().spec_count() < crate::clock::WINDOW_SIZE {
                old(self).spec_timing().spec_clock_delta().spec_count() + 1
            } else {
                crate::clock::WINDOW_SIZE as int
            }),
            final(self).spec_timing().spec_clock_delta().spec_index() == (old(self).spec_timing().spec_clock_delta().spec_index() + 1) % (
            crate::clock::WINDOW_SIZE as int),
            final(self).spec_status() == old(self).spec_status(),
            final(self).spec_slewing() == old(self).spec_slewing(),
    {
        self.timing.receive_time(d);
    }

    /// One output callback: fill the span from the queue per the sync state
    /// machine, and record where playback stands.
    pub fn fill_output(&mut self, pts_now: Timestamp, out: &mut Vec<u32>) -> (r: StreamStatus)
        requires
            old(self).wf(),
            old(out)@.len() as int % (crate::protocol::CHANNELS as int) == 0,
            pts_now.0 + old(out)@.len() <= u64::MAX,
        ensures
            final(self).wf(),
            final(out)@.len() == old(out)@.len(),
            final(self).spec_sid() == old(self).spec_sid(),
            final(self).spec_max_seq_gap() == old(self).spec_max_seq_gap(),
            ({
                let result = spec_fill(
                    old(self).spec_slots(),
                    pts_now.0 as int,
                    old(out)@.len() as int / (crate::protocol::CHANNELS as int),
                    old(self).spec_status(),
                );
                &&& final(out)@ == result.out
                &&& final(self).spec_slots() == result.slots
                &&& r == result.status
                &&& final(self).spec_status() == result.status
                &&& final(self).spec_stats() == (ReceiverStats {
                    stream_status: result.status.spec_into_u8(),
                    ..old(self).spec_stats()
                })
            }),
            final(self).spec_slewing() == old(self).spec_slewing(),
            final(self).spec_timing() == old(self).spec_timing(),
    {
        let status: StreamStatus = crate::sync::fill_output(
            &mut self.queue,
            pts_now,
            out,
            self.status,
        );
        self.status = status;
        self.stats.set_stream(status);
        status
    }

    /// One step of the slew rate controller, fed the playback offset the
    /// output ring published. Returns the commanded playback rate, or
    /// nothing for nominal. While playback is in phase, the controller's
    /// flag is mirrored into the stream status: in-sync with a correction
    /// running is the slewing state.
    pub fn apply_rate(&mut self, offset: crate::time::TimestampDelta) -> (r: Option<u64>)
        requires
            old(self).wf(),
        ensures
            final(self).wf(),
            final(self).spec_sid() == old(self).spec_sid(),
            final(self).spec_rid() == old(self).spec_rid(),
            final(self).spec_slots() == old(self).spec_slots(),
            final(self).spec_max_seq_gap() == old(self).spec_max_seq_gap(),
            final(self).spec_timing() == old(self).spec_timing(),
            ({
                let decision = crate::slew::spec_rate_decision(
                    old(self).spec_slewing(),
                    offset.0 as int,
                );
                &&& final(self).spec_slewing() == decision.0
                &&& r == decision.1
                &&& final(self).spec_status() == (if crate::sync::spec_in_sync(
                    old(self).spec_status(),
                ) {
                    if decision.0 {
                        StreamStatus::Slew
                    } else {
                        StreamStatus::Sync
                    }
                } else {
                    old(self).spec_status()
                })
                &&& final(self).spec_stats() == (if crate::sync::spec_in_sync(
                    old(self).spec_status(),
                ) {
                    ReceiverStats {
                        stream_status: final(self).spec_status().spec_into_u8(),
                        ..old(self).spec_stats()
                    }
                } else {
                    old(self).spec_stats()
                })
            }),
    {
        let r: Option<u64> = self.rate.calculate(offset);
        let slewing: bool = self.rate.slew();
        if matches!(self.status, StreamStatus::Sync) || matches!(self.status, StreamStatus::Slew) {
            let new_status: StreamStatus = if slewing {
                StreamStatus::Slew
            } else {
                StreamStatus::Sync
            };
            self.status = new_status;
            self.stats.set_stream(new_status);
        }
        r
    }

    /// Stamp the receiver's side of a broadcast time packet: the receive
    /// instant and this receiver's id, making it the unicast reply.
    pub fn stamp_receiver_reply(&self, d: &TimePacketData, now: TimestampMicros) -> (r:
        TimePacketData)
        ensures
            r == (TimePacketData { receive_2: now, rid: self.spec_rid(), ..*d }),
    {
        TimePacketData { receive_2: now, rid: self.rid, ..*d }
    }
}

/// Stamp the receive instant of the stream's reply, completing the four
/// timestamps.
pub fn stamp_receive_4(d: &TimePacketData, now: TimestampMicros) -> (r: TimePacketData)
    ensures
        r == (TimePacketData { receive_4: now, ..*d }),
{
    TimePacketData { receive_4: now, ..*d }
}

} // verus!
