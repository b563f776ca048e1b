//! Protocol constants: stream parameters, packet magics, and wire sizes.
//!
//! Sample rate, channel count and frames per packet are baked-in constants;
//! the source does not negotiate them. All wire integers are little-endian.

use vstd::prelude::*;

verus! {

/// Sample rate in frames per second, fixed for every stream.
pub const SAMPLE_RATE: u64 = 48000;

/// Interleaved channels per frame.
pub const CHANNELS: usize = 2;

/// Frames carried by one audio packet.
pub const FRAMES_PER_PACKET: usize = 960;

/// Interleaved samples carried by one audio packet.
pub const SAMPLES_PER_PACKET: usize = FRAMES_PER_PACKET * CHANNELS;

/// Bytes of one interleaved sample on the wire (32-bit little-endian float).
pub const BYTES_PER_SAMPLE: usize = 4;

pub const MICROS_PER_SECOND: u64 = 1_000_000;

/// Magic of an audio packet.
pub const MAGIC_AUDIO: u32 = 0x4155_4449;

/// Magic of a time (clock exchange) packet.
pub const MAGIC_TIME: u32 = 0x5449_4d45;

/// Magic of a stats request packet.
pub const MAGIC_STATS_REQ: u32 = 0x5354_5251;

/// Magic of a stats reply packet.
pub const MAGIC_STATS_REPLY: u32 = 0x5354_5250;

/// Bytes of the fixed packet header: magic, flags, and alignment padding.
pub const PACKET_HEADER_SIZE: usize = 16;

/// Bytes of the audio packet header: session, sequence, pts, dts.
pub const AUDIO_HEADER_SIZE: usize = 32;

/// Bytes of the audio payload behind the audio header.
pub const AUDIO_DATA_SIZE: usize = SAMPLES_PER_PACKET * BYTES_PER_SAMPLE;

/// Payload length of an audio packet (what follows the packet header).
pub const AUDIO_PACKET_LENGTH: usize = AUDIO_HEADER_SIZE + AUDIO_DATA_SIZE;

/// Bytes of the meaningful part of a time packet: six 64-bit fields.
pub const TIME_DATA_SIZE: usize = 48;

/// Payload length of a time packet. Packet delay grows with packet size, so
/// time packets are padded to the exact length of audio packets: both then
/// experience the same link delay, which the clock estimator relies on.
pub const TIME_PACKET_LENGTH: usize = AUDIO_PACKET_LENGTH;

/// Bytes of the receiver stats block on the wire.
pub const RECEIVER_STATS_SIZE: usize = 40;

/// Bytes of the node stats block on the wire.
pub const NODE_STATS_SIZE: usize = 64;

/// Payload length of a stats reply packet: session id plus both blocks.
pub const STATS_REPLY_LENGTH: usize = 8 + RECEIVER_STATS_SIZE + NODE_STATS_SIZE;

/// Size of the one allocation every packet lives in: large enough for the
/// largest packet kind.
pub const MAX_PACKET_SIZE: usize = PACKET_HEADER_SIZE + AUDIO_PACKET_LENGTH;

/// Time packets are padded to the byte length of audio packets, so both
/// kinds see the same link delay.
pub proof fn lemma_time_packet_length_matches_audio()
    ensures
        TIME_PACKET_LENGTH == AUDIO_PACKET_LENGTH,
{
}

} // verus!
