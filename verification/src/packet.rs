//! Wire packets: the fixed packet header and the four packet families.
//!
//! Every packet lives in one zeroed allocation sized for the largest packet.
//! The fixed header is sixteen bytes: magic, flags, and eight bytes of
//! padding kept zero. Parsing dispatches on magic and length; a non-zero
//! `flags` rejects every kind but the stats reply, which carries a role flag
//! there.

use vstd::bytes::{
    spec_u32_from_le_bytes, spec_u32_to_le_bytes, spec_u64_from_le_bytes, spec_u64_to_le_bytes,
};
use vstd::prelude::*;

use crate::buffer::{splice_bytes, AudioBuffer, ByteBuffer};
use crate::protocol::{
    AUDIO_DATA_SIZE, AUDIO_HEADER_SIZE, AUDIO_PACKET_LENGTH, MAGIC_AUDIO, MAGIC_STATS_REPLY,
    MAGIC_STATS_REQ, MAGIC_TIME, MAX_PACKET_SIZE, PACKET_HEADER_SIZE, STATS_REPLY_LENGTH,
    TIME_DATA_SIZE, TIME_PACKET_LENGTH,
};
use crate::stats::{
    spec_decode_receiver_stats, spec_encode_receiver_stats, NodeStats, ReceiverStats,
};
use crate::time::TimestampMicros;

verus! {

/// An opaque per-stream identifier generated once at source startup.
/// Receivers lock onto the highest session id they have seen.
#[derive(Clone, Copy, Debug, PartialEq, Eq, Structural)]
pub struct SessionId(pub u64);

/// An opaque per-receiver identifier used to route unicast replies among
/// several receivers on one host. Zero is the broadcast sentinel.
#[derive(Clone, Copy, Debug, PartialEq, Eq, Structural)]
pub struct ReceiverId(pub u64);

impl ReceiverId {
    /// The sentinel addressed to every receiver.
    pub fn broadcast() -> (r: ReceiverId)
        ensures
            r.0 == 0,
    {
        ReceiverId(0)
    }

    /// Whether a packet carrying this id is meant for the given receiver.
    pub fn matches(&self, other: &ReceiverId) -> (r: bool)
        ensures
            r == (self.0 == 0 || self.0 == other.0),
    {
        self.0 == 0 || self.0 == other.0
    }
}

/// The fixed sixteen-byte packet header: magic and flags; the padding
/// quadword is kept zero.
#[derive(Clone, Copy, Debug, PartialEq, Eq, Structural)]
pub struct PacketHeader {
    pub magic: u32,
    pub flags: u32,
}

/// The audio packet header that follows the fixed header.
#[derive(Clone, Copy, Debug, PartialEq, Eq, Structural)]
pub struct AudioPacketHeader {
    pub sid: SessionId,
    pub seq: u64,
    /// Presentation instant on the source's clock, in microseconds.
    pub pts: TimestampMicros,
    /// Send instant on the source's clock, in microseconds.
    pub dts: TimestampMicros,
}

/// The six 64-bit fields of a time packet. The phase of the exchange is
/// derived from which fields have been filled.
#[derive(Clone, Copy, Debug, PartialEq, Eq, Structural)]
pub struct TimePacketData {
    pub sid: SessionId,
    pub rid: ReceiverId,
    /// Source send instant of the broadcast, on the source clock.
    pub stream_1: TimestampMicros,
    /// Receiver receive instant of the broadcast, on the receiver clock.
    pub receive_2: TimestampMicros,
    /// Source send instant of the reply, on the source clock.
    pub stream_3: TimestampMicros,
    /// Receiver receive instant of the reply, on the receiver clock.
    pub receive_4: TimestampMicros,
}

/// Which leg of the four-timestamp exchange a time packet stands at.
#[derive(Clone, Copy, Debug, PartialEq, Eq, Structural)]
pub enum TimePhase {
    /// Only `stream_1` is filled: the source's periodic broadcast.
    Broadcast,
    /// `receive_2` is also filled: a receiver's unicast reply.
    ReceiverReply,
    /// `stream_3` is also filled: the source's reply to that receiver.
    StreamReply,
}

impl TimePacketData {
    pub open spec fn spec_phase(self) -> Option<TimePhase> {
        if self.stream_3.0 != 0 {
            Some(TimePhase::StreamReply)
        } else if self.receive_2.0 != 0 {
            Some(TimePhase::ReceiverReply)
        } else if self.stream_1.0 != 0 {
            Some(TimePhase::Broadcast)
        } else {
            None
        }
    }

    /// The phase this packet stands at, from which fields are filled.
    pub fn phase(&self) -> (r: Option<TimePhase>)
        ensures
            r == self.spec_phase(),
    {
        if self.stream_3.0 != 0 {
            Some(TimePhase::StreamReply)
        } else if self.receive_2.0 != 0 {
            Some(TimePhase::ReceiverReply)
        } else if self.stream_1.0 != 0 {
            Some(TimePhase::Broadcast)
        } else {
            None
        }
    }
}

/// The contents of a stats reply: the session, the receiver metrics block,
/// and the node metadata block.
pub struct StatsReplyPacket {
    pub sid: SessionId,
    pub receiver: ReceiverStats,
    pub node: NodeStats,
}

/// Role bit: the reply comes from a receiver.
pub const STATS_REPLY_FLAG_RECEIVER: u32 = 0x01;

/// Role bit: the reply comes from a source.
pub const STATS_REPLY_FLAG_STREAM: u32 = 0x02;

/// The sixteen wire bytes of a packet header.
pub open spec fn spec_encode_packet_header(h: PacketHeader) -> Seq<u8> {
    spec_u32_to_le_bytes(h.magic) + spec_u32_to_le_bytes(h.flags) + spec_u64_to_le_bytes(0u64)
}

/// The packet header a sixteen-byte wire region stands for.
pub open spec fn spec_decode_packet_header(s: Seq<u8>) -> PacketHeader
    recommends
        s.len() == PACKET_HEADER_SIZE,
{
    PacketHeader {
        magic: spec_u32_from_le_bytes(s.subrange(0, 4)),
        flags: spec_u32_from_le_bytes(s.subrange(4, 8)),
    }
}

/// The thirty-two wire bytes of an audio packet header.
pub open spec fn spec_encode_audio_header(h: AudioPacketHeader) -> Seq<u8> {
    spec_u64_to_le_bytes(h.sid.0) + spec_u64_to_le_bytes(h.seq) + spec_u64_to_le_bytes(h.pts.0)
        + spec_u64_to_le_bytes(h.dts.0)
}

/// The audio packet header a thirty-two-byte wire region stands for.
pub open spec fn spec_decode_audio_header(s: Seq<u8>) -> AudioPacketHeader
    recommends
        s.len() == AUDIO_HEADER_SIZE,
{
    AudioPacketHeader {
        sid: SessionId(spec_u64_from_le_bytes(s.subrange(0, 8))),
        seq: spec_u64_from_le_bytes(s.subrange(8, 16)),
        pts: TimestampMicros(spec_u64_from_le_bytes(s.subrange(16, 24))),
        dts: TimestampMicros(spec_u64_from_le_bytes(s.subrange(24, 32))),
    }
}

/// The forty-eight wire bytes of the time packet fields.
pub open spec fn spec_encode_time_data(t: TimePacketData) -> Seq<u8> {
    spec_u64_to_le_bytes(t.sid.0) + spec_u64_to_le_bytes(t.rid.0) + spec_u64_to_le_bytes(
        t.stream_1.0,
    ) + spec_u64_to_le_bytes(t.receive_2.0) + spec_u64_to_le_bytes(t.stream_3.0)
        + spec_u64_to_le_bytes(t.receive_4.0)
}

/// The time packet fields a forty-eight-byte wire region stands for.
pub open spec fn spec_decode_time_data(s: Seq<u8>) -> TimePacketData
    recommends
        s.len() == TIME_DATA_SIZE,
{
    TimePacketData {
        sid: SessionId(spec_u64_from_le_bytes(s.subrange(0, 8))),
        rid: ReceiverId(spec_u64_from_le_bytes(s.subrange(8, 16))),
        stream_1: TimestampMicros(spec_u64_from_le_bytes(s.subrange(16, 24))),
        receive_2: TimestampMicros(spec_u64_from_le_bytes(s.subrange(24, 32))),
        stream_3: TimestampMicros(spec_u64_from_le_bytes(s.subrange(32, 40))),
        receive_4: TimestampMicros(spec_u64_from_le_bytes(s.subrange(40, 48))),
    }
}

/// Every packet header decodes from its own encoding unchanged.
pub proof fn lemma_packet_header_round_trip(h: PacketHeader)
    ensures
        spec_decode_packet_header(spec_encode_packet_header(h)) == h,
{
    vstd::bytes::lemma_auto_spec_u32_to_from_le_bytes();
    vstd::bytes::lemma_auto_spec_u64_to_from_le_bytes();
    let enc = spec_encode_packet_header(h);
    assert(enc.subrange(0, 4) =~= spec_u32_to_le_bytes(h.magic));
    assert(enc.subrange(4, 8) =~= spec_u32_to_le_bytes(h.flags));
}

/// Every audio packet header decodes from its own encoding unchanged.
pub proof fn lemma_audio_header_round_trip(h: AudioPacketHeader)
    ensures
        spec_decode_audio_header(spec_encode_audio_header(h)) == h,
{
    vstd::bytes::lemma_auto_spec_u64_to_from_le_bytes();
    let enc = spec_encode_audio_header(h);
    assert(enc.subrange(0, 8) =~= spec_u64_to_le_bytes(h.sid.0));
    assert(enc.subrange(8, 16) =~= spec_u64_to_le_bytes(h.seq));
    assert(enc.subrange(16, 24) =~= spec_u64_to_le_bytes(h.pts.0));
    assert(enc.subrange(24, 32) =~= spec_u64_to_le_bytes(h.dts.0));
}

/// Every time packet decodes from its own encoding unchanged.
pub proof fn lemma_time_data_round_trip(t: TimePacketData)
    ensures
        spec_decode_time_data(spec_encode_time_data(t)) == t,
{
    vstd::bytes::lemma_auto_spec_u64_to_from_le_bytes();
    let enc = spec_encode_time_data(t);
    assert(enc.subrange(0, 8) =~= spec_u64_to_le_bytes(t.sid.0));
    assert(enc.subrange(8, 16) =~= spec_u64_to_le_bytes(t.rid.0));
    assert(enc.subrange(16, 24) =~= spec_u64_to_le_bytes(t.stream_1.0));
    assert(enc.subrange(24, 32) =~= spec_u64_to_le_bytes(t.receive_2.0));
    assert(enc.subrange(32, 40) =~= spec_u64_to_le_bytes(t.stream_3.0));
    assert(enc.subrange(40, 48) =~= spec_u64_to_le_bytes(t.receive_4.0));
}

/// A raw datagram in its allocation: the fixed header plus a payload.
#[derive(Debug)]
pub struct Packet(ByteBuffer);

/// Allocate the buffer every packet is built in or received into.
pub fn allocate_buffer() -> (r: ByteBuffer)
    ensures
        r.wf(),
        r.spec_capacity() == MAX_PACKET_SIZE,
        r@.len() == 0,
        r.full_window() == Seq::new(MAX_PACKET_SIZE as nat, |i: int| 0u8),
{
    ByteBuffer::allocate(MAX_PACKET_SIZE)
}

impl Packet {
    pub closed spec fn wf(&self) -> bool {
        &&& self.0.wf()
        &&& self.0@.len() >= PACKET_HEADER_SIZE
    }

    /// What the allocation can hold beyond the front offset.
    pub closed spec fn spec_capacity(&self) -> int {
        self.0.spec_capacity()
    }

    /// All bytes of the packet, fixed header included.
    pub closed spec fn spec_bytes(&self) -> Seq<u8> {
        self.0@
    }

    pub open spec fn spec_magic(&self) -> u32 {
        spec_u32_from_le_bytes(self.spec_bytes().subrange(0, 4))
    }

    pub open spec fn spec_flags(&self) -> u32 {
        spec_u32_from_le_bytes(self.spec_bytes().subrange(4, 8))
    }

    /// The payload: what follows the fixed header.
    pub open spec fn spec_payload(&self) -> Seq<u8> {
        self.spec_bytes().skip(PACKET_HEADER_SIZE as int)
    }

    /// A fresh packet of the given kind and payload length, its payload all
    /// zeroes.
    fn allocate(magic: u32, len: usize) -> (r: Packet)
        requires
            PACKET_HEADER_SIZE + len <= MAX_PACKET_SIZE,
        ensures
            r.wf(),
            r.spec_magic() == magic,
            r.spec_flags() == 0,
            r.spec_payload() == Seq::new(len as nat, |i: int| 0u8),
            r.spec_bytes().len() == PACKET_HEADER_SIZE + len,
            r.spec_bytes().subrange(8, PACKET_HEADER_SIZE as int) == Seq::new(8, |i: int| 0u8),
            r.spec_capacity() == MAX_PACKET_SIZE,
    {
        let mut buf: ByteBuffer = allocate_buffer();
        buf.set_len(PACKET_HEADER_SIZE + len);
        buf.put_u32_le(0, magic);
        buf.put_u32_le(4, 0u32);
        let r = Packet(buf);
        proof {
            vstd::bytes::lemma_auto_spec_u32_to_from_le_bytes();
            assert(r.spec_bytes().subrange(0, 4) =~= spec_u32_to_le_bytes(magic));
            assert(r.spec_bytes().subrange(4, 8) =~= spec_u32_to_le_bytes(0u32));
            assert(r.spec_payload() =~= Seq::new(len as nat, |i: int| 0u8));
            assert(r.spec_bytes().subrange(8, PACKET_HEADER_SIZE as int) =~= Seq::new(
                8,
                |i: int| 0u8,
            ));
        }
        r
    }

    /// Wrap received bytes; a datagram shorter than the fixed header is
    /// dropped.
    pub fn from_buffer(buffer: ByteBuffer) -> (r: Option<Packet>)
        requires
            buffer.wf(),
        ensures
            buffer@.len() >= PACKET_HEADER_SIZE ==> (r matches Some(p) && p.wf() && p.spec_bytes()
                == buffer@),
            buffer@.len() < PACKET_HEADER_SIZE ==> r is None,
    {
        if buffer.len() < PACKET_HEADER_SIZE {
            None
        } else {
            Some(Packet(buffer))
        }
    }

    pub fn as_buffer(&self) -> (r: &ByteBuffer)
        requires
            self.wf(),
        ensures
            r.wf(),
            r@ == self.spec_bytes(),
    {
        &self.0
    }

    /// The whole packet as wire bytes.
    pub fn as_slice(&self) -> (r: &[u8])
        requires
            self.wf(),
        ensures
            r@ == self.spec_bytes(),
    {
        self.0.as_slice()
    }

    pub fn header(&self) -> (r: PacketHeader)
        requires
            self.wf(),
        ensures
            r.magic == self.spec_magic(),
            r.flags == self.spec_flags(),
    {
        let magic: u32 = self.0.get_u32_le(0);
        let flags: u32 = self.0.get_u32_le(4);
        PacketHeader { magic, flags }
    }

    fn set_flags(&mut self, flags: u32)
        requires
            old(self).wf(),
        ensures
            final(self).wf(),
            final(self).spec_bytes() == splice_bytes(
                old(self).spec_bytes(),
                4,
                spec_u32_to_le_bytes(flags),
            ),
            final(self).spec_flags() == flags,
            final(self).spec_magic() == old(self).spec_magic(),
            final(self).spec_payload() == old(self).spec_payload(),
    {
        self.0.put_u32_le(4, flags);
        proof {
            vstd::bytes::lemma_auto_spec_u32_to_from_le_bytes();
            assert(final(self).spec_bytes().subrange(4, 8) =~= spec_u32_to_le_bytes(flags));
            assert(final(self).spec_bytes().subrange(0, 4) =~= old(self).spec_bytes().subrange(
                0,
                4,
            ));
            assert(final(self).spec_payload() =~= old(self).spec_payload());
        }
    }

    /// Resize the payload within the allocation. Bytes up to the shorter of
    /// the two lengths keep their values: in particular the sixteen header
    /// bytes never change. Growing exposes whatever the allocation holds
    /// beyond the old length (zero until something wrote there).
    pub fn set_len(&mut self, len: usize)
        requires
            old(self).wf(),
            PACKET_HEADER_SIZE + len <= old(self).spec_capacity(),
        ensures
            final(self).wf(),
            final(self).spec_capacity() == old(self).spec_capacity(),
            final(self).spec_bytes().len() == PACKET_HEADER_SIZE + len,
            forall|j: int|
                0 <= j < PACKET_HEADER_SIZE + len && j < old(self).spec_bytes().len() ==> final(self).spec_bytes()[j] == old(self).spec_bytes()[j],
            final(self).spec_magic() == old(self).spec_magic(),
            final(self).spec_flags() == old(self).spec_flags(),
    {
        let capacity: usize = self.0.capacity();
        proof {
            assert(PACKET_HEADER_SIZE + len <= capacity);
        }
        self.0.set_len(PACKET_HEADER_SIZE + len);
        proof {
            assert(final(self).spec_bytes().subrange(0, 4) =~= old(self).spec_bytes().subrange(
                0,
                4,
            ));
            assert(final(self).spec_bytes().subrange(4, 8) =~= old(self).spec_bytes().subrange(
                4,
                8,
            ));
        }
    }

    /// Payload length: what the wire length holds beyond the fixed header.
    pub fn len(&self) -> (r: usize)
        requires
            self.wf(),
        ensures
            r == self.spec_payload().len(),
    {
        self.0.len() - PACKET_HEADER_SIZE
    }

    /// The payload as wire bytes.
    pub fn as_bytes(&self) -> (r: &[u8])
        requires
            self.wf(),
        ensures
            r@ == self.spec_payload(),
    {
        let whole: &[u8] = self.0.as_slice();
        let r: &[u8] = vstd::slice::slice_subrange(whole, PACKET_HEADER_SIZE, self.0.len());
        proof {
            assert(r@ =~= self.spec_payload());
        }
        r
    }

    /// Dispatch on magic and length. Audio, time and stats request packets
    /// with non-zero flags are dropped; a stats reply carries a role flag
    /// there and keeps it.
    pub fn parse(self) -> (r: Option<PacketKind>)
        requires
            self.wf(),
        ensures
            (match r {
                Some(PacketKind::Audio(a)) => spec_is_audio_packet(self.spec_bytes()) && a.wf()
                    && a.spec_bytes() == self.spec_bytes(),
                Some(PacketKind::Time(t)) => spec_is_time_packet(self.spec_bytes()) && t.wf()
                    && t.spec_bytes() == self.spec_bytes(),
                Some(PacketKind::StatsRequest(q)) => spec_is_stats_request_packet(
                    self.spec_bytes(),
                ) && q.wf() && q.spec_bytes() == self.spec_bytes(),
                Some(PacketKind::StatsReply(y)) => spec_is_stats_reply_packet(self.spec_bytes())
                    && y.wf() && y.spec_bytes() == self.spec_bytes(),
                None => !spec_is_audio_packet(self.spec_bytes()) && !spec_is_time_packet(
                    self.spec_bytes(),
                ) && !spec_is_stats_request_packet(self.spec_bytes())
                    && !spec_is_stats_reply_packet(self.spec_bytes()),
            }),
    {
        let magic: u32 = self.header().magic;
        if magic == MAGIC_AUDIO {
            match Audio::parse(self) {
                Some(a) => Some(PacketKind::Audio(a)),
                None => None,
            }
        } else if magic == MAGIC_TIME {
            match Time::parse(self) {
                Some(t) => Some(PacketKind::Time(t)),
                None => None,
            }
        } else if magic == MAGIC_STATS_REQ {
            match StatsRequest::parse(self) {
                Some(q) => Some(PacketKind::StatsRequest(q)),
                None => None,
            }
        } else if magic == MAGIC_STATS_REPLY {
            match StatsReply::parse(self) {
                Some(y) => Some(PacketKind::StatsReply(y)),
                None => None,
            }
        } else {
            None
        }
    }
}

/// The magic field of a raw packet's bytes.
pub open spec fn spec_bytes_magic(s: Seq<u8>) -> u32 {
    spec_u32_from_le_bytes(s.subrange(0, 4))
}

/// The flags field of a raw packet's bytes.
pub open spec fn spec_bytes_flags(s: Seq<u8>) -> u32 {
    spec_u32_from_le_bytes(s.subrange(4, 8))
}

/// A well-formed audio packet: audio magic, zero flags, exact length.
pub open spec fn spec_is_audio_packet(s: Seq<u8>) -> bool {
    &&& s.len() == PACKET_HEADER_SIZE + AUDIO_PACKET_LENGTH
    &&& spec_bytes_magic(s) == MAGIC_AUDIO
    &&& spec_bytes_flags(s) == 0
}

/// A well-formed time packet: time magic, zero flags, at least the six
/// fields present; padding beyond them is tolerated.
pub open spec fn spec_is_time_packet(s: Seq<u8>) -> bool {
    &&& s.len() >= PACKET_HEADER_SIZE + TIME_DATA_SIZE
    &&& spec_bytes_magic(s) == MAGIC_TIME
    &&& spec_bytes_flags(s) == 0
}

/// A well-formed stats request: its magic, zero flags, empty payload.
pub open spec fn spec_is_stats_request_packet(s: Seq<u8>) -> bool {
    &&& s.len() == PACKET_HEADER_SIZE
    &&& spec_bytes_magic(s) == MAGIC_STATS_REQ
    &&& spec_bytes_flags(s) == 0
}

/// A well-formed stats reply: its magic and exact length; flags carry the
/// role bits and survive as they came.
pub open spec fn spec_is_stats_reply_packet(s: Seq<u8>) -> bool {
    &&& s.len() == PACKET_HEADER_SIZE + STATS_REPLY_LENGTH
    &&& spec_bytes_magic(s) == MAGIC_STATS_REPLY
}

/// A parsed packet of one of the four families.
#[derive(Debug)]
pub enum PacketKind {
    Audio(Audio),
    Time(Time),
    StatsRequest(StatsRequest),
    StatsReply(StatsReply),
}

/// A parsed or under-construction audio packet.
#[derive(Debug)]
pub struct Audio(Packet);

impl Audio {
    pub closed spec fn wf(&self) -> bool {
        &&& self.0.wf()
        &&& spec_is_audio_packet(self.0.spec_bytes())
    }

    pub closed spec fn spec_bytes(&self) -> Seq<u8> {
        self.0.spec_bytes()
    }

    /// The audio header this packet carries.
    pub open spec fn spec_header(&self) -> AudioPacketHeader {
        spec_decode_audio_header(
            self.spec_bytes().subrange(
                PACKET_HEADER_SIZE as int,
                PACKET_HEADER_SIZE as int + AUDIO_HEADER_SIZE as int,
            ),
        )
    }

    /// The sample words this packet carries.
    pub open spec fn spec_data(&self) -> Seq<u32> {
        crate::buffer::words_of_bytes(
            self.spec_bytes().skip(PACKET_HEADER_SIZE as int + AUDIO_HEADER_SIZE as int),
        )
    }

    /// Start building an audio packet: header and samples all zero.
    pub fn write() -> (w: AudioWriter)
        ensures
            w.wf(),
            w.spec_written() == 0,
            w.spec_data() == Seq::new(crate::protocol::SAMPLES_PER_PACKET as nat, |i: int| 0u32),
    {
        let mut packet: Packet = Packet::allocate(MAGIC_AUDIO, AUDIO_PACKET_LENGTH);
        let mut k: usize = 0;
        while k < crate::protocol::SAMPLES_PER_PACKET
            invariant
                packet.wf(),
                packet.spec_bytes().len() == PACKET_HEADER_SIZE + AUDIO_PACKET_LENGTH,
                packet.spec_magic() == MAGIC_AUDIO,
                packet.spec_flags() == 0,
                k <= crate::protocol::SAMPLES_PER_PACKET,
                forall|m: int|
                    0 <= m < k ==> crate::buffer::words_of_bytes(packet.spec_bytes().skip(48))[m]
                        == 0u32,
            decreases crate::protocol::SAMPLES_PER_PACKET - k,
        {
            let ghost bytes_before = packet.spec_bytes();
            packet.0.put_u32_le(PACKET_HEADER_SIZE + AUDIO_HEADER_SIZE + 4 * k, 0u32);
            proof {
                vstd::bytes::lemma_auto_spec_u32_to_from_le_bytes();
                let data_old = bytes_before.skip(48);
                let data_new = packet.spec_bytes().skip(48);
                assert(data_new =~= crate::buffer::splice_bytes(
                    data_old,
                    4 * k,
                    spec_u32_to_le_bytes(0u32),
                ));
                crate::buffer::lemma_words_after_put(data_old, data_new, k as int, 0u32);
                assert(packet.spec_bytes().subrange(0, 4) =~= bytes_before.subrange(0, 4));
                assert(packet.spec_bytes().subrange(4, 8) =~= bytes_before.subrange(4, 8));
            }
            k = k + 1;
        }
        let w = AudioWriter { packet: Audio(packet), written: crate::time::SampleDuration(0) };
        proof {
            assert(w.spec_data() =~= Seq::new(
                crate::protocol::SAMPLES_PER_PACKET as nat,
                |i: int| 0u32,
            ));
        }
        w
    }

    /// Check magic, flags and exact length.
    pub fn parse(packet: Packet) -> (r: Option<Audio>)
        requires
            packet.wf(),
        ensures
            spec_is_audio_packet(packet.spec_bytes()) ==> (r matches Some(a) && a.wf()
                && a.spec_bytes() == packet.spec_bytes()),
            !spec_is_audio_packet(packet.spec_bytes()) ==> r is None,
    {
        if packet.len() != AUDIO_PACKET_LENGTH {
            return None;
        }
        let h: PacketHeader = packet.header();
        if h.magic != MAGIC_AUDIO || h.flags != 0 {
            return None;
        }
        Some(Audio(packet))
    }

    /// The payload as consumable audio, the headers dropped.
    pub fn into_audio_buffer(self) -> (r: AudioBuffer)
        requires
            self.wf(),
        ensures
            r.wf(),
            r@ == self.spec_data(),
    {
        let Audio(Packet(buf)) = self;
        let rest: ByteBuffer = buf.offset(PACKET_HEADER_SIZE + AUDIO_HEADER_SIZE);
        AudioBuffer::from_buffer(rest)
    }

    pub fn as_packet(&self) -> (r: &Packet)
        requires
            self.wf(),
        ensures
            r.wf(),
            r.spec_bytes() == self.spec_bytes(),
    {
        &self.0
    }

    pub fn header(&self) -> (r: AudioPacketHeader)
        requires
            self.wf(),
        ensures
            r == self.spec_header(),
    {
        let sid: u64 = self.0.0.get_u64_le(16);
        let seq: u64 = self.0.0.get_u64_le(24);
        let pts: u64 = self.0.0.get_u64_le(32);
        let dts: u64 = self.0.0.get_u64_le(40);
        let r = AudioPacketHeader {
            sid: SessionId(sid),
            seq,
            pts: TimestampMicros(pts),
            dts: TimestampMicros(dts),
        };
        proof {
            let hdr = self.spec_bytes().subrange(16, 48);
            assert(self.spec_bytes().subrange(16, 24) =~= hdr.subrange(0, 8));
            assert(self.spec_bytes().subrange(24, 32) =~= hdr.subrange(8, 16));
            assert(self.spec_bytes().subrange(32, 40) =~= hdr.subrange(16, 24));
            assert(self.spec_bytes().subrange(40, 48) =~= hdr.subrange(24, 32));
        }
        r
    }

    /// Overwrite the audio header fields.
    fn set_header(&mut self, h: AudioPacketHeader)
        requires
            old(self).wf(),
        ensures
            final(self).wf(),
            final(self).spec_header() == h,
            final(self).spec_data() == old(self).spec_data(),
    {
        self.0.0.put_u64_le(16, h.sid.0);
        self.0.0.put_u64_le(24, h.seq);
        self.0.0.put_u64_le(32, h.pts.0);
        self.0.0.put_u64_le(40, h.dts.0);
        proof {
            vstd::bytes::lemma_auto_spec_u64_to_from_le_bytes();
            let s = final(self).spec_bytes();
            let hdr = s.subrange(16, 48);
            assert(hdr.subrange(0, 8) =~= spec_u64_to_le_bytes(h.sid.0));
            assert(hdr.subrange(8, 16) =~= spec_u64_to_le_bytes(h.seq));
            assert(hdr.subrange(16, 24) =~= spec_u64_to_le_bytes(h.pts.0));
            assert(hdr.subrange(24, 32) =~= spec_u64_to_le_bytes(h.dts.0));
            assert(s.subrange(0, 4) =~= old(self).spec_bytes().subrange(0, 4));
            assert(s.subrange(4, 8) =~= old(self).spec_bytes().subrange(4, 8));
            assert(s.skip(48) =~= old(self).spec_bytes().skip(48));
        }
    }
}

/// Builds one audio packet by appending whole frames until it is full.
#[derive(Debug)]
pub struct AudioWriter {
    packet: Audio,
    written: crate::time::SampleDuration,
}

impl AudioWriter {
    pub closed spec fn wf(&self) -> bool {
        &&& self.packet.wf()
        &&& self.written.0 <= crate::protocol::FRAMES_PER_PACKET
    }

    /// Frames written so far.
    pub closed spec fn spec_written(&self) -> int {
        self.written.0 as int
    }

    /// The sample words of the packet under construction.
    pub closed spec fn spec_data(&self) -> Seq<u32> {
        self.packet.spec_data()
    }

    /// A sound writer's packet always holds exactly one packet of words.
    pub proof fn lemma_wf_data_len(&self)
        requires
            self.wf(),
        ensures
            self.spec_data().len() == crate::protocol::SAMPLES_PER_PACKET,
            self.spec_written() <= crate::protocol::FRAMES_PER_PACKET,
    {
        assert(self.packet.spec_bytes().skip(48).len() == AUDIO_DATA_SIZE);
    }

    pub fn length(&self) -> (r: crate::time::SampleDuration)
        requires
            self.wf(),
        ensures
            r.0 == self.spec_written(),
    {
        self.written
    }

    pub fn remaining(&self) -> (r: crate::time::SampleDuration)
        requires
            self.wf(),
        ensures
            r.0 == crate::protocol::FRAMES_PER_PACKET - self.spec_written(),
    {
        crate::time::SampleDuration::one_packet().minus(self.length())
    }

    pub fn full(&self) -> (r: bool)
        requires
            self.wf(),
        ensures
            r == (self.spec_written() == crate::protocol::FRAMES_PER_PACKET),
    {
        self.remaining().is_zero()
    }

    /// Copy as much of `audio` as fits, returning the duration copied.
    pub fn write(&mut self, audio: &[u32]) -> (copied: crate::time::SampleDuration)
        requires
            old(self).wf(),
            audio@.len() as int % (crate::protocol::CHANNELS as int) == 0,
        ensures
            final(self).wf(),
            copied.0 == vstd::math::min(
                audio@.len() as int / (crate::protocol::CHANNELS as int),
                crate::protocol::FRAMES_PER_PACKET - old(self).spec_written(),
            ),
            final(self).spec_written() == old(self).spec_written() + copied.0,
            final(self).spec_data().len() == old(self).spec_data().len(),
            forall|k: int|
                0 <= k < old(self).spec_data().len() ==> final(self).spec_data()[k] == (if old(self).spec_written() * crate::protocol::CHANNELS <= k < (old(self).spec_written()
                    + copied.0) * crate::protocol::CHANNELS {
                    audio@[k - old(self).spec_written() * crate::protocol::CHANNELS]
                } else {
                    old(self).spec_data()[k]
                }),
    {
        let input_duration: crate::time::SampleDuration =
            crate::time::SampleDuration::from_buffer_offset(audio.len());
        let rem: crate::time::SampleDuration = self.remaining();
        let copy_duration: crate::time::SampleDuration = if input_duration.0 < rem.0 {
            input_duration
        } else {
            rem
        };
        let copy_len: usize = copy_duration.as_buffer_offset();
        let base: usize = self.written.as_buffer_offset();
        let ghost data0 = self.packet.spec_data();
        let mut j: usize = 0;
        while j < copy_len
            invariant
                self.packet.wf(),
                base + copy_len <= crate::protocol::SAMPLES_PER_PACKET,
                copy_len <= audio@.len(),
                j <= copy_len,
                self.written == old(self).written,
                data0.len() == crate::protocol::SAMPLES_PER_PACKET,
                self.packet.spec_data().len() == data0.len(),
                forall|k: int|
                    0 <= k < data0.len() ==> self.packet.spec_data()[k] == (if base <= k < base + j {
                        audio@[k - base]
                    } else {
                        data0[k]
                    }),
            decreases copy_len - j,
        {
            let pos: usize = PACKET_HEADER_SIZE + AUDIO_HEADER_SIZE + 4 * (base + j);
            let w: u32 = *vstd::slice::slice_index_get(audio, j);
            let ghost bytes_before = self.packet.0.0@;
            self.packet.0.0.put_u32_le(pos, w);
            proof {
                vstd::bytes::lemma_auto_spec_u32_to_from_le_bytes();
                let data_old = bytes_before.skip(48);
                let data_new = self.packet.0.0@.skip(48);
                assert(data_new =~= crate::buffer::splice_bytes(
                    data_old,
                    4 * (base + j),
                    spec_u32_to_le_bytes(w),
                ));
                crate::buffer::lemma_words_after_put(data_old, data_new, base + j, w);
                assert(self.packet.0.0@.subrange(0, 4) =~= bytes_before.subrange(0, 4));
                assert(self.packet.0.0@.subrange(4, 8) =~= bytes_before.subrange(4, 8));
            }
            j = j + 1;
        }
        self.written = self.written.plus(copy_duration);
        copy_duration
    }

    /// Stamp the header on a full packet.
    pub fn finalize(self, header: AudioPacketHeader) -> (r: Audio)
        requires
            self.wf(),
            self.spec_written() == crate::protocol::FRAMES_PER_PACKET,
        ensures
            r.wf(),
            r.spec_header() == header,
            r.spec_data() == self.spec_data(),
    {
        let AudioWriter { packet, written: _ } = self;
        let mut packet = packet;
        packet.set_header(header);
        packet
    }
}

/// A time packet: six instants of the clock exchange, padded to the byte
/// length of an audio packet so both see the same link delay.
#[derive(Debug)]
pub struct Time(Packet);

impl Time {
    pub closed spec fn wf(&self) -> bool {
        &&& self.0.wf()
        &&& spec_is_time_packet(self.0.spec_bytes())
    }

    pub closed spec fn spec_bytes(&self) -> Seq<u8> {
        self.0.spec_bytes()
    }

    /// The six fields this packet carries.
    pub open spec fn spec_data(&self) -> TimePacketData {
        spec_decode_time_data(
            self.spec_bytes().subrange(
                PACKET_HEADER_SIZE as int,
                PACKET_HEADER_SIZE as int + TIME_DATA_SIZE as int,
            ),
        )
    }

    /// A fresh time packet, every field zero, padded to audio length.
    pub fn allocate() -> (r: Time)
        ensures
            r.wf(),
            r.spec_bytes().len() == PACKET_HEADER_SIZE + TIME_PACKET_LENGTH,
            r.spec_data() == (TimePacketData {
                sid: SessionId(0),
                rid: ReceiverId(0),
                stream_1: TimestampMicros(0),
                receive_2: TimestampMicros(0),
                stream_3: TimestampMicros(0),
                receive_4: TimestampMicros(0),
            }),
    {
        let mut t = Time(Packet::allocate(MAGIC_TIME, TIME_PACKET_LENGTH));
        let zeroed = TimePacketData {
            sid: SessionId(0),
            rid: ReceiverId(0),
            stream_1: TimestampMicros(0),
            receive_2: TimestampMicros(0),
            stream_3: TimestampMicros(0),
            receive_4: TimestampMicros(0),
        };
        t.set_data(&zeroed);
        t
    }

    /// Check magic, flags, and that at least the six fields are present.
    pub fn parse(packet: Packet) -> (r: Option<Time>)
        requires
            packet.wf(),
        ensures
            spec_is_time_packet(packet.spec_bytes()) ==> (r matches Some(t) && t.wf()
                && t.spec_bytes() == packet.spec_bytes()),
            !spec_is_time_packet(packet.spec_bytes()) ==> r is None,
    {
        if packet.len() < TIME_DATA_SIZE {
            return None;
        }
        let h: PacketHeader = packet.header();
        if h.magic != MAGIC_TIME || h.flags != 0 {
            return None;
        }
        Some(Time(packet))
    }

    pub fn as_packet(&self) -> (r: &Packet)
        requires
            self.wf(),
        ensures
            r.wf(),
            r.spec_bytes() == self.spec_bytes(),
    {
        &self.0
    }

    pub fn data(&self) -> (r: TimePacketData)
        requires
            self.wf(),
        ensures
            r == self.spec_data(),
    {
        let sid: u64 = self.0.0.get_u64_le(16);
        let rid: u64 = self.0.0.get_u64_le(24);
        let stream_1: u64 = self.0.0.get_u64_le(32);
        let receive_2: u64 = self.0.0.get_u64_le(40);
        let stream_3: u64 = self.0.0.get_u64_le(48);
        let receive_4: u64 = self.0.0.get_u64_le(56);
        let r = TimePacketData {
            sid: SessionId(sid),
            rid: ReceiverId(rid),
            stream_1: TimestampMicros(stream_1),
            receive_2: TimestampMicros(receive_2),
            stream_3: TimestampMicros(stream_3),
            receive_4: TimestampMicros(receive_4),
        };
        proof {
            let d = self.spec_bytes().subrange(16, 64);
            assert(self.spec_bytes().subrange(16, 24) =~= d.subrange(0, 8));
            assert(self.spec_bytes().subrange(24, 32) =~= d.subrange(8, 16));
            assert(self.spec_bytes().subrange(32, 40) =~= d.subrange(16, 24));
            assert(self.spec_bytes().subrange(40, 48) =~= d.subrange(24, 32));
            assert(self.spec_bytes().subrange(48, 56) =~= d.subrange(32, 40));
            assert(self.spec_bytes().subrange(56, 64) =~= d.subrange(40, 48));
        }
        r
    }

    /// Overwrite the six fields; the padding and the header stay.
    pub fn set_data(&mut self, d: &TimePacketData)
        requires
            old(self).wf(),
        ensures
            final(self).wf(),
            final(self).spec_data() == *d,
            final(self).spec_bytes().len() == old(self).spec_bytes().len(),
    {
        self.0.0.put_u64_le(16, d.sid.0);
        self.0.0.put_u64_le(24, d.rid.0);
        self.0.0.put_u64_le(32, d.stream_1.0);
        self.0.0.put_u64_le(40, d.receive_2.0);
        self.0.0.put_u64_le(48, d.stream_3.0);
        self.0.0.put_u64_le(56, d.receive_4.0);
        proof {
            vstd::bytes::lemma_auto_spec_u64_to_from_le_bytes();
            let s = final(self).spec_bytes();
            let data = s.subrange(16, 64);
            assert(data.subrange(0, 8) =~= spec_u64_to_le_bytes(d.sid.0));
            assert(data.subrange(8, 16) =~= spec_u64_to_le_bytes(d.rid.0));
            assert(data.subrange(16, 24) =~= spec_u64_to_le_bytes(d.stream_1.0));
            assert(data.subrange(24, 32) =~= spec_u64_to_le_bytes(d.receive_2.0));
            assert(data.subrange(32, 40) =~= spec_u64_to_le_bytes(d.stream_3.0));
            assert(data.subrange(40, 48) =~= spec_u64_to_le_bytes(d.receive_4.0));
            assert(s.subrange(0, 4) =~= old(self).spec_bytes().subrange(0, 4));
            assert(s.subrange(4, 8) =~= old(self).spec_bytes().subrange(4, 8));
        }
    }
}

/// A stats request: the fixed header alone.
#[derive(Debug)]
pub struct StatsRequest(Packet);

impl StatsRequest {
    pub closed spec fn wf(&self) -> bool {
        &&& self.0.wf()
        &&& spec_is_stats_request_packet(self.0.spec_bytes())
    }

    pub closed spec fn spec_bytes(&self) -> Seq<u8> {
        self.0.spec_bytes()
    }

    pub fn new() -> (r: StatsRequest)
        ensures
            r.wf(),
    {
        StatsRequest(Packet::allocate(MAGIC_STATS_REQ, 0))
    }

    /// Check magic, flags and the empty payload.
    pub fn parse(packet: Packet) -> (r: Option<StatsRequest>)
        requires
            packet.wf(),
        ensures
            spec_is_stats_request_packet(packet.spec_bytes()) ==> (r matches Some(q) && q.wf()
                && q.spec_bytes() == packet.spec_bytes()),
            !spec_is_stats_request_packet(packet.spec_bytes()) ==> r is None,
    {
        if packet.len() != 0 {
            return None;
        }
        let h: PacketHeader = packet.header();
        if h.magic != MAGIC_STATS_REQ || h.flags != 0 {
            return None;
        }
        Some(StatsRequest(packet))
    }

    pub fn as_packet(&self) -> (r: &Packet)
        requires
            self.wf(),
        ensures
            r.wf(),
            r.spec_bytes() == self.spec_bytes(),
    {
        &self.0
    }
}

/// A stats reply: role flags in the fixed header, then session, receiver
/// metrics block, and node block.
#[derive(Debug)]
pub struct StatsReply(Packet);

impl StatsReply {
    pub closed spec fn wf(&self) -> bool {
        &&& self.0.wf()
        &&& spec_is_stats_reply_packet(self.0.spec_bytes())
    }

    pub closed spec fn spec_bytes(&self) -> Seq<u8> {
        self.0.spec_bytes()
    }

    pub open spec fn spec_flags(&self) -> u32 {
        spec_bytes_flags(self.spec_bytes())
    }

    pub open spec fn spec_sid(&self) -> SessionId {
        SessionId(spec_u64_from_le_bytes(self.spec_bytes().subrange(16, 24)))
    }

    pub open spec fn spec_receiver_stats(&self) -> ReceiverStats {
        spec_decode_receiver_stats(self.spec_bytes().subrange(24, 64))
    }

    pub open spec fn spec_node_bytes(&self) -> Seq<u8> {
        self.spec_bytes().subrange(64, 128)
    }

    fn new(flags: u32, sid: SessionId, receiver: &ReceiverStats, node: &NodeStats) -> (r:
        StatsReply)
        requires
            node.wf(),
        ensures
            r.wf(),
            r.spec_flags() == flags,
            r.spec_sid() == sid,
            r.spec_receiver_stats() == *receiver,
            r.spec_node_bytes() == node@,
    {
        let mut packet: Packet = Packet::allocate(MAGIC_STATS_REPLY, STATS_REPLY_LENGTH);
        let ghost s0 = packet.spec_bytes();
        proof {
            assert forall|j: int| 16 <= j < 128 implies s0[j] == 0u8 by {
                assert(packet.spec_payload()[j - 16] == 0u8);
            }
        }
        packet.set_flags(flags);
        let ghost s1 = packet.spec_bytes();
        packet.0.put_u64_le(16, sid.0);
        packet.0.set(24, receiver.flags);
        packet.0.set(25, receiver.stream_status);
        packet.0.put_u64_le(32, crate::stats::bias_i64(receiver.audio_latency_micros));
        packet.0.put_u64_le(40, crate::stats::bias_i64(receiver.buffer_length_micros));
        packet.0.put_u64_le(48, crate::stats::bias_i64(receiver.network_latency_micros));
        packet.0.put_u64_le(56, crate::stats::bias_i64(receiver.predict_offset_micros));
        proof {
            vstd::bytes::lemma_auto_spec_u32_to_from_le_bytes();
            vstd::bytes::lemma_auto_spec_u64_to_from_le_bytes();
            let s = packet.spec_bytes();
            let enc = spec_encode_receiver_stats(*receiver);
            assert(s.subrange(16, 24) =~= spec_u64_to_le_bytes(sid.0));
            assert(s[24] == receiver.flags);
            assert(s[25] == receiver.stream_status);
            assert(s[26] == 0u8 && s[27] == 0u8 && s[28] == 0u8 && s[29] == 0u8 && s[30] == 0u8
                && s[31] == 0u8);
            assert(s.subrange(32, 40) =~= spec_u64_to_le_bytes(
                crate::stats::spec_bias_i64(receiver.audio_latency_micros),
            ));
            assert(s.subrange(40, 48) =~= spec_u64_to_le_bytes(
                crate::stats::spec_bias_i64(receiver.buffer_length_micros),
            ));
            assert(s.subrange(48, 56) =~= spec_u64_to_le_bytes(
                crate::stats::spec_bias_i64(receiver.network_latency_micros),
            ));
            assert(s.subrange(56, 64) =~= spec_u64_to_le_bytes(
                crate::stats::spec_bias_i64(receiver.predict_offset_micros),
            ));
            assert(s.subrange(24, 64) =~= enc);
            assert(s.subrange(0, 4) =~= s1.subrange(0, 4));
            assert(s.subrange(4, 8) =~= s1.subrange(4, 8));
            assert(packet.spec_magic() == MAGIC_STATS_REPLY);
            assert(packet.spec_flags() == flags);
        }
        let ghost prefix = packet.spec_bytes().take(64);
        let node_slice: &[u8] = node.as_slice();
        let mut i: usize = 0;
        while i < crate::protocol::NODE_STATS_SIZE
            invariant
                packet.wf(),
                packet.spec_bytes().len() == PACKET_HEADER_SIZE + STATS_REPLY_LENGTH,
                node_slice@.len() == crate::protocol::NODE_STATS_SIZE,
                node_slice@ == node@,
                i <= crate::protocol::NODE_STATS_SIZE,
                packet.spec_bytes().take(64) == prefix,
                forall|j: int| 0 <= j < i ==> packet.spec_bytes()[64 + j] == node_slice@[j],
            decreases crate::protocol::NODE_STATS_SIZE - i,
        {
            let b: u8 = *vstd::slice::slice_index_get(node_slice, i);
            packet.0.set(64 + i, b);
            proof {
                assert(packet.spec_bytes().take(64) =~= prefix);
            }
            i = i + 1;
        }
        let r = StatsReply(packet);
        proof {
            vstd::bytes::lemma_auto_spec_u64_to_from_le_bytes();
            let s = r.spec_bytes();
            assert(s.subrange(16, 24) =~= prefix.subrange(16, 24));
            assert(s.subrange(24, 64) =~= prefix.subrange(24, 64));
            assert(prefix.subrange(16, 24) =~= spec_u64_to_le_bytes(sid.0));
            assert(prefix.subrange(24, 64) =~= spec_encode_receiver_stats(*receiver));
            crate::stats::lemma_receiver_stats_round_trip(*receiver);
            assert(s.subrange(0, 4) =~= prefix.subrange(0, 4));
            assert(s.subrange(4, 8) =~= prefix.subrange(4, 8));
            assert(prefix.subrange(0, 4) =~= s1.subrange(0, 4));
            assert(prefix.subrange(4, 8) =~= s1.subrange(4, 8));
            assert(r.spec_node_bytes() =~= node@);
        }
        r
    }

    /// A reply from a source: receiver metrics zeroed.
    pub fn source(sid: SessionId, node: &NodeStats) -> (r: StatsReply)
        requires
            node.wf(),
        ensures
            r.wf(),
            r.spec_flags() == STATS_REPLY_FLAG_STREAM,
            r.spec_sid() == sid,
            r.spec_receiver_stats() == ReceiverStats::zeroed(),
            r.spec_node_bytes() == node@,
    {
        let receiver: ReceiverStats = ReceiverStats::new();
        StatsReply::new(STATS_REPLY_FLAG_STREAM, sid, &receiver, node)
    }

    /// A reply from a receiver: its live metrics.
    pub fn receiver(sid: SessionId, receiver: &ReceiverStats, node: &NodeStats) -> (r: StatsReply)
        requires
            node.wf(),
        ensures
            r.wf(),
            r.spec_flags() == STATS_REPLY_FLAG_RECEIVER,
            r.spec_sid() == sid,
            r.spec_receiver_stats() == *receiver,
            r.spec_node_bytes() == node@,
    {
        StatsReply::new(STATS_REPLY_FLAG_RECEIVER, sid, receiver, node)
    }

    /// Check magic and exact length; flags carry the role and stay as they
    /// came.
    pub fn parse(packet: Packet) -> (r: Option<StatsReply>)
        requires
            packet.wf(),
        ensures
            spec_is_stats_reply_packet(packet.spec_bytes()) ==> (r matches Some(y) && y.wf()
                && y.spec_bytes() == packet.spec_bytes()),
            !spec_is_stats_reply_packet(packet.spec_bytes()) ==> r is None,
    {
        if packet.len() != STATS_REPLY_LENGTH {
            return None;
        }
        let h: PacketHeader = packet.header();
        if h.magic != MAGIC_STATS_REPLY {
            return None;
        }
        Some(StatsReply(packet))
    }

    pub fn as_packet(&self) -> (r: &Packet)
        requires
            self.wf(),
        ensures
            r.wf(),
            r.spec_bytes() == self.spec_bytes(),
    {
        &self.0
    }

    /// The role flags as they came off the wire.
    pub fn flags(&self) -> (r: u32)
        requires
            self.wf(),
        ensures
            r == self.spec_flags(),
    {
        self.0.header().flags
    }

    /// The session, metrics and node blocks this reply carries.
    pub fn data(&self) -> (r: StatsReplyPacket)
        requires
            self.wf(),
        ensures
            r.sid == self.spec_sid(),
            r.receiver == self.spec_receiver_stats(),
            r.node.wf(),
            r.node@ == self.spec_node_bytes(),
    {
        let sid: u64 = self.0.0.get_u64_le(16);
        let stats_flags: u8 = self.0.0.get(24);
        let stream_status: u8 = self.0.0.get(25);
        let audio_latency: u64 = self.0.0.get_u64_le(32);
        let buffer_length: u64 = self.0.0.get_u64_le(40);
        let network_latency: u64 = self.0.0.get_u64_le(48);
        let predict_offset: u64 = self.0.0.get_u64_le(56);
        let receiver = ReceiverStats {
            flags: stats_flags,
            stream_status,
            audio_latency_micros: crate::stats::unbias_u64(audio_latency),
            buffer_length_micros: crate::stats::unbias_u64(buffer_length),
            network_latency_micros: crate::stats::unbias_u64(network_latency),
            predict_offset_micros: crate::stats::unbias_u64(predict_offset),
        };
        let mut node_bytes: Vec<u8> = Vec::new();
        let mut i: usize = 0;
        while i < crate::protocol::NODE_STATS_SIZE
            invariant
                self.wf(),
                i <= crate::protocol::NODE_STATS_SIZE,
                node_bytes@.len() == i,
                forall|j: int| 0 <= j < i ==> node_bytes@[j] == self.spec_bytes()[64 + j],
            decreases crate::protocol::NODE_STATS_SIZE - i,
        {
            let b: u8 = self.0.0.get(64 + i);
            node_bytes.push(b);
            i = i + 1;
        }
        let node: NodeStats = NodeStats::from_bytes(&node_bytes);
        let r = StatsReplyPacket { sid: SessionId(sid), receiver, node };
        proof {
            let s = self.spec_bytes();
            let blk = s.subrange(24, 64);
            assert(s.subrange(32, 40) =~= blk.subrange(8, 16));
            assert(s.subrange(40, 48) =~= blk.subrange(16, 24));
            assert(s.subrange(48, 56) =~= blk.subrange(24, 32));
            assert(s.subrange(56, 64) =~= blk.subrange(32, 40));
            assert(r.node@ =~= self.spec_node_bytes());
        }
        r
    }
}

} // verus!
