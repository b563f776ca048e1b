//! Receiver statistics: the per-stream status and the metrics block carried
//! in stats reply packets.
//!
//! Each metric carries a "present" bit in `flags`; a consumer must consult
//! the bit before trusting the value. Metrics are stored and carried on the
//! wire as whole microseconds. Signed metrics are written to the wire biased
//! by 2^63 so that the field is a plain unsigned 64-bit integer.

use vstd::bytes::{spec_u64_from_le_bytes, spec_u64_to_le_bytes};
use vstd::prelude::*;

use crate::protocol::{MICROS_PER_SECOND, RECEIVER_STATS_SIZE, SAMPLE_RATE};
use crate::time::{SampleDuration, Timestamp};

verus! {

/// Where playback stands relative to the stream.
#[derive(Clone, Copy, Debug, PartialEq, Eq, Structural)]
pub enum StreamStatus {
    /// No packet has been handed to the output yet.
    Seek,
    /// In phase, consuming packets in order.
    Sync,
    /// In phase, with a non-unity playback rate in effect.
    Slew,
    /// The last read produced silence from a hole or underrun.
    Miss,
}

impl StreamStatus {
    pub open spec fn spec_into_u8(self) -> u8 {
        match self {
            StreamStatus::Seek => 1,
            StreamStatus::Sync => 2,
            StreamStatus::Slew => 3,
            StreamStatus::Miss => 4,
        }
    }

    pub open spec fn spec_from_u8(u: u8) -> Option<StreamStatus> {
        match u {
            1u8 => Some(StreamStatus::Seek),
            2u8 => Some(StreamStatus::Sync),
            3u8 => Some(StreamStatus::Slew),
            4u8 => Some(StreamStatus::Miss),
            _ => None,
        }
    }

    pub fn into_u8(&self) -> (r: u8)
        ensures
            r == self.spec_into_u8(),
    {
        match self {
            StreamStatus::Seek => 1,
            StreamStatus::Sync => 2,
            StreamStatus::Slew => 3,
            StreamStatus::Miss => 4,
        }
    }

    pub fn from_u8(u: u8) -> (r: Option<StreamStatus>)
        ensures
            r == StreamStatus::spec_from_u8(u),
    {
        match u {
            1 => Some(StreamStatus::Seek),
            2 => Some(StreamStatus::Sync),
            3 => Some(StreamStatus::Slew),
            4 => Some(StreamStatus::Miss),
            _ => None,
        }
    }
}

/// Present bit of the audio latency metric.
pub const FLAG_HAS_AUDIO_LATENCY: u8 = 0x04;

/// Present bit of the buffer length metric.
pub const FLAG_HAS_BUFFER_LENGTH: u8 = 0x08;

/// Present bit of the network latency metric.
pub const FLAG_HAS_NETWORK_LATENCY: u8 = 0x10;

/// Present bit of the predict offset metric.
pub const FLAG_HAS_PREDICT_OFFSET: u8 = 0x20;

/// The receiver metrics block. A metric's value is meaningful only while
/// its present bit is set in `flags`.
#[derive(Clone, Copy, Debug, PartialEq, Eq, Structural)]
pub struct ReceiverStats {
    pub flags: u8,
    pub stream_status: u8,
    /// Request timestamp minus packet timestamp, in microseconds.
    pub audio_latency_micros: i64,
    /// Audio buffered ahead of playback, in microseconds.
    pub buffer_length_micros: i64,
    /// One-way network latency estimate, in microseconds.
    pub network_latency_micros: i64,
    /// Predicted minus actual packet send time, in microseconds.
    pub predict_offset_micros: i64,
}

impl ReceiverStats {
    pub fn new() -> (r: ReceiverStats)
        ensures
            r == ReceiverStats::zeroed(),
    {
        ReceiverStats {
            flags: 0,
            stream_status: 0,
            audio_latency_micros: 0,
            buffer_length_micros: 0,
            network_latency_micros: 0,
            predict_offset_micros: 0,
        }
    }

    pub open spec fn zeroed() -> ReceiverStats {
        ReceiverStats {
            flags: 0,
            stream_status: 0,
            audio_latency_micros: 0,
            buffer_length_micros: 0,
            network_latency_micros: 0,
            predict_offset_micros: 0,
        }
    }

    pub open spec fn spec_has(self, flag: u8) -> bool {
        self.flags & flag != 0
    }

    pub fn stream(&self) -> (r: Option<StreamStatus>)
        ensures
            r == StreamStatus::spec_from_u8(self.stream_status),
    {
        StreamStatus::from_u8(self.stream_status)
    }

    pub fn set_stream(&mut self, status: StreamStatus)
        ensures
            *final(self) == (ReceiverStats { stream_status: status.spec_into_u8(), ..*old(self) }),
    {
        self.stream_status = status.into_u8();
    }

    /// Back to seeking with every metric marked absent.
    pub fn clear(&mut self)
        ensures
            *final(self) == (ReceiverStats {
                flags: 0,
                stream_status: StreamStatus::Seek.spec_into_u8(),
                ..*old(self)
            }),
    {
        self.set_stream(StreamStatus::Seek);
        self.flags = 0;
    }

    pub fn audio_latency(&self) -> (r: Option<i64>)
        ensures
            r == if self.spec_has(FLAG_HAS_AUDIO_LATENCY) {
                Some(self.audio_latency_micros)
            } else {
                Option::<i64>::None
            },
    {
        if self.flags & FLAG_HAS_AUDIO_LATENCY != 0 {
            Some(self.audio_latency_micros)
        } else {
            None
        }
    }

    pub fn buffer_length(&self) -> (r: Option<i64>)
        ensures
            r == if self.spec_has(FLAG_HAS_BUFFER_LENGTH) {
                Some(self.buffer_length_micros)
            } else {
                Option::<i64>::None
            },
    {
        if self.flags & FLAG_HAS_BUFFER_LENGTH != 0 {
            Some(self.buffer_length_micros)
        } else {
            None
        }
    }

    pub fn network_latency(&self) -> (r: Option<i64>)
        ensures
            r == if self.spec_has(FLAG_HAS_NETWORK_LATENCY) {
                Some(self.network_latency_micros)
            } else {
                Option::<i64>::None
            },
    {
        if self.flags & FLAG_HAS_NETWORK_LATENCY != 0 {
            Some(self.network_latency_micros)
        } else {
            None
        }
    }

    pub fn predict_offset(&self) -> (r: Option<i64>)
        ensures
            r == if self.spec_has(FLAG_HAS_PREDICT_OFFSET) {
                Some(self.predict_offset_micros)
            } else {
                Option::<i64>::None
            },
    {
        if self.flags & FLAG_HAS_PREDICT_OFFSET != 0 {
            Some(self.predict_offset_micros)
        } else {
            None
        }
    }

    /// Record how far behind the packet's own timestamp the playback request
    /// stands.
    pub fn set_audio_latency(&mut self, request_pts: Timestamp, packet_pts: Timestamp)
        requires
            request_pts.0 * MICROS_PER_SECOND <= u64::MAX,
            packet_pts.0 * MICROS_PER_SECOND <= u64::MAX,
            request_pts.0 * MICROS_PER_SECOND / (SAMPLE_RATE as int) <= i64::MAX,
            packet_pts.0 * MICROS_PER_SECOND / (SAMPLE_RATE as int) <= i64::MAX,
        ensures
            *final(self) == (ReceiverStats {
                flags: old(self).flags | FLAG_HAS_AUDIO_LATENCY,
                audio_latency_micros: (
                (request_pts.0 * MICROS_PER_SECOND / (SAMPLE_RATE as int)) - (packet_pts.0
                    * MICROS_PER_SECOND / (SAMPLE_RATE as int))) as i64,
                ..*old(self)
            }),
    {
        let request_micros: u64 = request_pts.to_micros_lossy().0;
        let packet_micros: u64 = packet_pts.to_micros_lossy().0;
        self.audio_latency_micros = ((request_micros as i128) - (packet_micros as i128)) as i64;
        self.flags = self.flags | FLAG_HAS_AUDIO_LATENCY;
    }

    pub fn set_buffer_length(&mut self, length: SampleDuration)
        requires
            length.0 * MICROS_PER_SECOND <= u64::MAX,
            length.0 * MICROS_PER_SECOND / (SAMPLE_RATE as int) <= i64::MAX,
        ensures
            *final(self) == (ReceiverStats {
                flags: old(self).flags | FLAG_HAS_BUFFER_LENGTH,
                buffer_length_micros: (length.0 * MICROS_PER_SECOND / (SAMPLE_RATE as int)) as i64,
                ..*old(self)
            }),
    {
        self.buffer_length_micros = length.as_micros_lossy() as i64;
        self.flags = self.flags | FLAG_HAS_BUFFER_LENGTH;
    }

    pub fn set_network_latency(&mut self, latency_micros: u64)
        requires
            latency_micros <= i64::MAX,
        ensures
            *final(self) == (ReceiverStats {
                flags: old(self).flags | FLAG_HAS_NETWORK_LATENCY,
                network_latency_micros: latency_micros as i64,
                ..*old(self)
            }),
    {
        self.network_latency_micros = latency_micros as i64;
        self.flags = self.flags | FLAG_HAS_NETWORK_LATENCY;
    }

    pub fn set_predict_offset(&mut self, diff_micros: i64)
        ensures
            *final(self) == (ReceiverStats {
                flags: old(self).flags | FLAG_HAS_PREDICT_OFFSET,
                predict_offset_micros: diff_micros,
                ..*old(self)
            }),
    {
        self.predict_offset_micros = diff_micros;
        self.flags = self.flags | FLAG_HAS_PREDICT_OFFSET;
    }
}

/// Node metadata carried in a stats reply: an opaque fixed-size block the
/// host fills in (name and host identification).
#[derive(Debug, PartialEq, Eq)]
pub struct NodeStats {
    data: Vec<u8>,
}

impl View for NodeStats {
    type V = Seq<u8>;

    closed spec fn view(&self) -> Seq<u8> {
        self.data@
    }
}

impl NodeStats {
    pub closed spec fn wf(&self) -> bool {
        self.data.len() == crate::protocol::NODE_STATS_SIZE
    }

    pub fn zeroed() -> (r: NodeStats)
        ensures
            r.wf(),
            r@ == Seq::new(crate::protocol::NODE_STATS_SIZE as nat, |i: int| 0u8),
    {
        NodeStats { data: vec![0u8; crate::protocol::NODE_STATS_SIZE] }
    }

    /// The block as a borrowed byte slice.
    pub fn as_slice(&self) -> (r: &[u8])
        requires
            self.wf(),
        ensures
            r@ == self@,
            r@.len() == crate::protocol::NODE_STATS_SIZE,
    {
        self.data.as_slice()
    }

    /// Node metadata from host-provided bytes, truncated or padded with
    /// zeroes to the fixed block size.
    pub fn from_bytes(bytes: &Vec<u8>) -> (r: NodeStats)
        ensures
            r.wf(),
            r@.len() == crate::protocol::NODE_STATS_SIZE,
            forall|i: int|
                0 <= i < crate::protocol::NODE_STATS_SIZE ==> r@[i] == if i < bytes@.len() {
                    bytes@[i]
                } else {
                    0u8
                },
    {
        let mut data: Vec<u8> = vec![0u8; crate::protocol::NODE_STATS_SIZE];
        let mut i: usize = 0;
        while i < crate::protocol::NODE_STATS_SIZE && i < bytes.len()
            invariant
                data.len() == crate::protocol::NODE_STATS_SIZE,
                i <= crate::protocol::NODE_STATS_SIZE,
                forall|j: int|
                    0 <= j < crate::protocol::NODE_STATS_SIZE ==> data@[j] == if j < i && j
                        < bytes@.len() {
                        bytes@[j]
                    } else {
                        0u8
                    },
            decreases crate::protocol::NODE_STATS_SIZE - i,
        {
            data[i] = bytes[i];
            i = i + 1;
        }
        NodeStats { data }
    }
}

/// The wire form of a signed microsecond metric: biased by 2^63 so the field
/// is a plain unsigned integer.
pub open spec fn spec_bias_i64(x: i64) -> u64 {
    (x + 0x8000_0000_0000_0000) as u64
}

/// The signed metric a wire field stands for.
pub open spec fn spec_unbias_u64(x: u64) -> i64 {
    (x - 0x8000_0000_0000_0000) as i64
}

/// Every signed metric survives the wire bias unchanged.
pub proof fn lemma_bias_round_trip(x: i64)
    ensures
        spec_unbias_u64(spec_bias_i64(x)) == x,
{
}

/// Write a signed microsecond metric as its biased wire form.
pub fn bias_i64(x: i64) -> (r: u64)
    ensures
        r == spec_bias_i64(x),
{
    ((x as i128) + 0x8000_0000_0000_0000) as u64
}

/// Read a signed microsecond metric back from its biased wire form.
pub fn unbias_u64(x: u64) -> (r: i64)
    ensures
        r == spec_unbias_u64(x),
{
    ((x as i128) - 0x8000_0000_0000_0000) as i64
}

/// The 40-byte wire form of the receiver stats block: flags, stream status,
/// six bytes of padding, then the four metrics.
pub open spec fn spec_encode_receiver_stats(rs: ReceiverStats) -> Seq<u8> {
    seq![rs.flags, rs.stream_status, 0u8, 0u8, 0u8, 0u8, 0u8, 0u8] + spec_u64_to_le_bytes(
        spec_bias_i64(rs.audio_latency_micros),
    ) + spec_u64_to_le_bytes(spec_bias_i64(rs.buffer_length_micros)) + spec_u64_to_le_bytes(
        spec_bias_i64(rs.network_latency_micros),
    ) + spec_u64_to_le_bytes(spec_bias_i64(rs.predict_offset_micros))
}

/// The receiver stats block a 40-byte wire region stands for.
pub open spec fn spec_decode_receiver_stats(s: Seq<u8>) -> ReceiverStats
    recommends
        s.len() == RECEIVER_STATS_SIZE,
{
    ReceiverStats {
        flags: s[0],
        stream_status: s[1],
        audio_latency_micros: spec_unbias_u64(spec_u64_from_le_bytes(s.subrange(8, 16))),
        buffer_length_micros: spec_unbias_u64(spec_u64_from_le_bytes(s.subrange(16, 24))),
        network_latency_micros: spec_unbias_u64(spec_u64_from_le_bytes(s.subrange(24, 32))),
        predict_offset_micros: spec_unbias_u64(spec_u64_from_le_bytes(s.subrange(32, 40))),
    }
}

/// Every receiver stats block decodes from its own encoding unchanged.
pub proof fn lemma_receiver_stats_round_trip(rs: ReceiverStats)
    ensures
        spec_decode_receiver_stats(spec_encode_receiver_stats(rs)) == rs,
{
    vstd::bytes::lemma_auto_spec_u64_to_from_le_bytes();
    let enc = spec_encode_receiver_stats(rs);
    assert(enc.subrange(8, 16) =~= spec_u64_to_le_bytes(spec_bias_i64(rs.audio_latency_micros)));
    assert(enc.subrange(16, 24) =~= spec_u64_to_le_bytes(spec_bias_i64(rs.buffer_length_micros)));
    assert(enc.subrange(24, 32) =~= spec_u64_to_le_bytes(spec_bias_i64(rs.network_latency_micros)));
    assert(enc.subrange(32, 40) =~= spec_u64_to_le_bytes(spec_bias_i64(rs.predict_offset_micros)));
}

} // verus!
