//! The source-side encoder: capture samples are appended to a packet under
//! construction; each time it fills, it is stamped and handed back for
//! broadcast, and a fresh packet begins at the following instant.

use vstd::prelude::*;

use crate::packet::{Audio, AudioPacketHeader, AudioWriter, SessionId};
use crate::protocol::{CHANNELS, FRAMES_PER_PACKET, MICROS_PER_SECOND, SAMPLES_PER_PACKET,
    SAMPLE_RATE};
use crate::time::{Timestamp, TimestampMicros};
use crate::util::Sequence;

verus! {

/// A packet being filled, and the instant its first frame is due.
pub struct Packet {
    pub buffer: AudioWriter,
    pub pts: Timestamp,
}

impl Packet {
    pub fn new(pts: Timestamp) -> (r: Packet)
        ensures
            r.buffer.wf(),
            r.buffer.spec_written() == 0,
            r.pts == pts,
    {
        Packet { buffer: Audio::write(), pts }
    }
}

/// Encoder of the only wire format: 32-bit float interleaved samples, sent
/// as they are.
pub struct PcmFloat32 {
    packet: Option<Packet>,
    sid: SessionId,
    seq: Sequence,
}

impl PcmFloat32 {
    pub closed spec fn wf(&self) -> bool {
        match self.packet {
            Some(p) => {
                &&& p.buffer.wf()
                &&& 0 < p.buffer.spec_written() < FRAMES_PER_PACKET
                &&& p.pts.0 * MICROS_PER_SECOND <= u64::MAX
            },
            None => true,
        }
    }

    pub closed spec fn spec_sid(&self) -> SessionId {
        self.sid
    }

    /// The sequence number the next finished packet will carry.
    pub closed spec fn spec_next_seq(&self) -> int {
        self.seq.spec_next()
    }

    /// Samples already in the packet under construction.
    pub closed spec fn spec_pending(&self) -> Seq<u32> {
        match self.packet {
            Some(p) => p.buffer.spec_data().take(
                p.buffer.spec_written() * CHANNELS,
            ),
            None => Seq::empty(),
        }
    }

    /// The instant of the first pending frame.
    pub closed spec fn spec_pending_pts(&self) -> Timestamp {
        match self.packet {
            Some(p) => p.pts,
            None => Timestamp(0),
        }
    }

    pub fn new(sid: SessionId) -> (r: PcmFloat32)
        ensures
            r.wf(),
            r.spec_sid() == sid,
            r.spec_next_seq() == 1,
            r.spec_pending() == Seq::<u32>::empty(),
    {
        PcmFloat32 { packet: None, sid, seq: Sequence::new() }
    }

    /// The instant packet `k` of this call starts at: the pending packet's
    /// own instant while it is being finished, else the capture instant
    /// advanced past the samples already spoken for.
    pub open spec fn spec_packet_pts(&self, pts: Timestamp, k: int) -> Timestamp {
        if k * SAMPLES_PER_PACKET < self.spec_pending().len() {
            self.spec_pending_pts()
        } else {
            Timestamp(
                (pts.0 + (k * SAMPLES_PER_PACKET - self.spec_pending().len()) / (
                CHANNELS as int)) as u64,
            )
        }
    }

    /// Append captured samples due at `pts`; every packet that fills is
    /// stamped with the session, the next sequence number, its own start
    /// instant and the send instant `dts`, and returned for broadcast.
    pub fn write_samples(&mut self, data: &[u32], pts: Timestamp, dts: TimestampMicros) -> (r: Vec<
        Audio,
    >)
        requires
            old(self).wf(),
            data@.len() as int % (CHANNELS as int) == 0,
            (pts.0 + data@.len() as int / (CHANNELS as int)) * MICROS_PER_SECOND <= u64::MAX,
            old(self).spec_next_seq() + (old(self).spec_pending().len() + data@.len()) as int
                / (SAMPLES_PER_PACKET as int) < u64::MAX,
        ensures
            final(self).wf(),
            final(self).spec_sid() == old(self).spec_sid(),
            ({
                let all = old(self).spec_pending() + data@;
                let n_out = all.len() as int / (SAMPLES_PER_PACKET as int);
                &&& r@.len() == n_out
                &&& final(self).spec_next_seq() == old(self).spec_next_seq() + n_out
                &&& final(self).spec_pending() == all.skip(n_out * SAMPLES_PER_PACKET)
                &&& (forall|k: int|
                    0 <= k < n_out ==> {
                        let a = #[trigger] r@[k];
                        &&& a.wf()
                        &&& a.spec_data() == all.subrange(
                            k * SAMPLES_PER_PACKET,
                            (k + 1) * SAMPLES_PER_PACKET,
                        )
                        &&& a.spec_header() == (AudioPacketHeader {
                            sid: old(self).spec_sid(),
                            seq: (old(self).spec_next_seq() + k) as u64,
                            pts: TimestampMicros(
                                (old(self).spec_packet_pts(pts, k).0 * MICROS_PER_SECOND / (
                                SAMPLE_RATE as int)) as u64,
                            ),
                            dts,
                        })
                    })
                &&& (final(self).spec_pending().len() > 0 && n_out * SAMPLES_PER_PACKET >= old(
                    self,
                ).spec_pending().len() ==> final(self).spec_pending_pts()
                    == old(self).spec_packet_pts(pts, n_out))
                &&& (final(self).spec_pending().len() > 0 && n_out == 0 && old(
                    self,
                ).spec_pending().len() > 0 ==> final(self).spec_pending_pts() == old(
                    self,
                ).spec_pending_pts())
            }),
    {
        let ghost all = old(self).spec_pending() + data@;
        let ghost pending0 = old(self).spec_pending().len() as int;
        proof {
            if old(self).packet is Some {
                let p = old(self).packet->Some_0;
                p.buffer.lemma_wf_data_len();
                assert(pending0 == p.buffer.spec_written() * CHANNELS);
                assert(p.buffer.spec_data().take(p.buffer.spec_written() * CHANNELS)
                    =~= all.subrange(0, pending0));
            } else {
                assert(pending0 == 0);
            }
        }
        let mut r: Vec<Audio> = Vec::new();
        let mut offset: usize = 0;
        loop
            invariant
                data@.len() as int % (CHANNELS as int) == 0,
                (pts.0 + data@.len() as int / (CHANNELS as int)) * MICROS_PER_SECOND <= u64::MAX,
                offset <= data@.len(),
                offset as int % (CHANNELS as int) == 0,
                all == old(self).spec_pending() + data@,
                pending0 == old(self).spec_pending().len(),
                pending0 < SAMPLES_PER_PACKET,
                self.sid == old(self).spec_sid(),
                ({
                    let consumed = pending0 + offset;
                    &&& r@.len() == consumed / (SAMPLES_PER_PACKET as int)
                    &&& self.seq.spec_next() == old(self).spec_next_seq() + r@.len()
                    &&& old(self).spec_next_seq() + all.len() as int / (SAMPLES_PER_PACKET as int)
                        < u64::MAX
                    &&& (match self.packet {
                        Some(p) => {
                            &&& p.buffer.wf()
                            &&& p.buffer.spec_written() * CHANNELS == consumed % (
                            SAMPLES_PER_PACKET as int)
                            &&& consumed % (SAMPLES_PER_PACKET as int) != 0
                            &&& p.buffer.spec_data().take(p.buffer.spec_written() * CHANNELS)
                                == all.subrange(
                                r@.len() * SAMPLES_PER_PACKET,
                                consumed,
                            )
                            &&& p.pts == old(self).spec_packet_pts(pts, r@.len() as int)
                            &&& p.pts.0 * MICROS_PER_SECOND <= u64::MAX
                        },
                        None => consumed % (SAMPLES_PER_PACKET as int) == 0,
                    })
                    &&& (forall|k: int|
                        0 <= k < r@.len() ==> {
                            let a = #[trigger] r@[k];
                            &&& a.wf()
                            &&& a.spec_data() == all.subrange(
                                k * SAMPLES_PER_PACKET,
                                (k + 1) * SAMPLES_PER_PACKET,
                            )
                            &&& a.spec_header() == (AudioPacketHeader {
                                sid: old(self).spec_sid(),
                                seq: (old(self).spec_next_seq() + k) as u64,
                                pts: TimestampMicros(
                                    (old(self).spec_packet_pts(pts, k).0 * MICROS_PER_SECOND / (
                                    SAMPLE_RATE as int)) as u64,
                                ),
                                dts,
                            })
                        })
                }),
            ensures
                offset == data@.len(),
            decreases data@.len() - offset,
        {
            if offset == data.len() {
                break ;
            }
            if matches!(self.packet, None) {
                let start_frames: usize = offset / CHANNELS;
                let start_pts: Timestamp = Timestamp(pts.0 + (start_frames as u64));
                self.packet = Some(Packet::new(start_pts));
                proof {
                    let consumed = pending0 + offset;
                    assert(consumed % (SAMPLES_PER_PACKET as int) == 0);
                    assert(all.subrange(
                        r@.len() * SAMPLES_PER_PACKET,
                        consumed,
                    ) =~= Seq::<u32>::empty());
                }
            }
            let rest: &[u32] = vstd::slice::slice_subrange(data, offset, data.len());
            let mut is_full: bool = false;
            match &mut self.packet {
                Some(p) => {
                    proof {
                        p.buffer.lemma_wf_data_len();
                    }
                    let copied: crate::time::SampleDuration = p.buffer.write(rest);
                    proof {
                        p.buffer.lemma_wf_data_len();
                        let consumed = pending0 + offset;
                        assert(p.buffer.spec_data().take(p.buffer.spec_written() * CHANNELS)
                            =~= all.subrange(
                            r@.len() * SAMPLES_PER_PACKET,
                            consumed + copied.0 * CHANNELS,
                        ));
                    }
                    let copied_samples: usize = copied.as_buffer_offset();
                    offset = offset + copied_samples;
                    is_full = p.buffer.full();
                },
                None => {
                    proof {
                        assert(false);
                    }
                },
            }
            if is_full {
                proof {
                    vstd::arithmetic::div_mod::lemma_div_is_ordered(
                        pending0 + offset,
                        all.len() as int,
                        SAMPLES_PER_PACKET as int,
                    );
                }
                let taken: Option<Packet> = self.packet.take();
                match taken {
                    Some(full_packet) => {
                        let header = AudioPacketHeader {
                            sid: self.sid,
                            seq: self.seq.next(),
                            pts: full_packet.pts.to_micros_lossy(),
                            dts,
                        };
                        let audio: Audio = full_packet.buffer.finalize(header);
                        proof {
                            full_packet.buffer.lemma_wf_data_len();
                            assert(audio.spec_data() =~= all.subrange(
                                r@.len() * SAMPLES_PER_PACKET,
                                (r@.len() + 1) * SAMPLES_PER_PACKET,
                            ));
                        }
                        r.push(audio);
                    },
                    None => {
                        proof {
                            assert(false);
                        }
                    },
                }
            }
        }
        proof {
            let n_out = all.len() as int / (SAMPLES_PER_PACKET as int);
            assert(r@.len() == n_out);
            assert(self.spec_pending() =~= all.skip(n_out * SAMPLES_PER_PACKET));
        }
        r
    }
}

} // verus!
