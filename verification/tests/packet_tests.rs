//! Wire codec tests: every packet kind survives an encode-decode round
//! trip bitwise, lengths are enforced, and flags are rejected everywhere
//! but the stats reply.

use bark::buffer::ByteBuffer;
use bark::packet::{
    Audio, AudioPacketHeader, Packet, PacketKind, ReceiverId, SessionId, StatsReply, StatsRequest,
    Time, TimePacketData, TimePhase, STATS_REPLY_FLAG_RECEIVER, STATS_REPLY_FLAG_STREAM,
};
use bark::protocol::{
    AUDIO_PACKET_LENGTH, MAX_PACKET_SIZE, PACKET_HEADER_SIZE, SAMPLES_PER_PACKET,
    STATS_REPLY_LENGTH, TIME_PACKET_LENGTH,
};
use bark::stats::{NodeStats, ReceiverStats};
use bark::time::TimestampMicros;

fn build_audio(sid: u64, seq: u64, pts: u64, dts: u64, samples: &[u32]) -> Audio {
    let mut writer = Audio::write();
    let copied = writer.write(samples);
    assert_eq!(copied.0 as usize * 2, samples.len());
    writer.finalize(AudioPacketHeader {
        sid: SessionId(sid),
        seq,
        pts: TimestampMicros(pts),
        dts: TimestampMicros(dts),
    })
}

fn reparse(bytes: &[u8]) -> Option<PacketKind> {
    let buffer = ByteBuffer::from_vec(bytes.to_vec());
    Packet::from_buffer(buffer)?.parse()
}

#[test]
fn audio_round_trip_is_bitwise() {
    let samples: Vec<u32> = (0..SAMPLES_PER_PACKET as u32).collect();
    let audio = build_audio(7, 42, 123_456, 123_400, &samples);
    let bytes = audio.as_packet().as_slice().to_vec();
    assert_eq!(bytes.len(), PACKET_HEADER_SIZE + AUDIO_PACKET_LENGTH);

    match reparse(&bytes) {
        Some(PacketKind::Audio(parsed)) => {
            let header = parsed.header();
            assert_eq!(header.sid, SessionId(7));
            assert_eq!(header.seq, 42);
            assert_eq!(header.pts, TimestampMicros(123_456));
            assert_eq!(header.dts, TimestampMicros(123_400));
            let data = parsed.into_audio_buffer();
            assert_eq!(data.samples(), &samples[..]);
        }
        other => panic!("expected an audio packet, got {:?}", other.is_some()),
    }
}

#[test]
fn time_round_trip_is_bitwise() {
    let mut time = Time::allocate();
    let fields = TimePacketData {
        sid: SessionId(9),
        rid: ReceiverId(11),
        stream_1: TimestampMicros(100),
        receive_2: TimestampMicros(1200),
        stream_3: TimestampMicros(1300),
        receive_4: TimestampMicros(250),
    };
    time.set_data(&fields);
    let bytes = time.as_packet().as_slice().to_vec();

    match reparse(&bytes) {
        Some(PacketKind::Time(parsed)) => {
            assert_eq!(parsed.data(), fields);
            assert_eq!(parsed.data().phase(), Some(TimePhase::StreamReply));
        }
        _ => panic!("expected a time packet"),
    }
}

#[test]
fn time_packet_length_equals_audio_packet_length() {
    assert_eq!(TIME_PACKET_LENGTH, AUDIO_PACKET_LENGTH);
    let time = Time::allocate();
    let audio = build_audio(1, 1, 0, 0, &vec![0u32; SAMPLES_PER_PACKET]);
    assert_eq!(
        time.as_packet().as_slice().len(),
        audio.as_packet().as_slice().len()
    );
}

#[test]
fn stats_request_round_trip() {
    let req = StatsRequest::new();
    let bytes = req.as_packet().as_slice().to_vec();
    assert_eq!(bytes.len(), PACKET_HEADER_SIZE);
    assert!(matches!(reparse(&bytes), Some(PacketKind::StatsRequest(_))));
}

#[test]
fn stats_reply_round_trip_keeps_fields_and_flags() {
    let mut stats = ReceiverStats::new();
    stats.set_network_latency(250);
    stats.set_predict_offset(-40);
    let node = NodeStats::from_bytes(&b"unit-host".to_vec());
    let reply = StatsReply::receiver(SessionId(5), &stats, &node);
    let bytes = reply.as_packet().as_slice().to_vec();
    assert_eq!(bytes.len(), PACKET_HEADER_SIZE + STATS_REPLY_LENGTH);

    match reparse(&bytes) {
        Some(PacketKind::StatsReply(parsed)) => {
            assert_eq!(parsed.flags(), STATS_REPLY_FLAG_RECEIVER);
            let data = parsed.data();
            assert_eq!(data.sid, SessionId(5));
            assert_eq!(data.receiver.network_latency(), Some(250));
            assert_eq!(data.receiver.predict_offset(), Some(-40));
            assert_eq!(data.receiver.audio_latency(), None);
            assert_eq!(&data.node.as_slice()[..9], b"unit-host");
            assert!(data.node.as_slice()[9..].iter().all(|b| *b == 0));
        }
        _ => panic!("expected a stats reply"),
    }
}

#[test]
fn stats_reply_from_source_has_zero_receiver_block() {
    let node = NodeStats::zeroed();
    let reply = StatsReply::source(SessionId(3), &node);
    assert_eq!(reply.flags(), STATS_REPLY_FLAG_STREAM);
    let data = reply.data();
    assert_eq!(data.receiver.flags, 0);
    assert_eq!(data.receiver.network_latency(), None);
}

#[test]
fn nonzero_flags_reject_all_but_stats_reply() {
    // audio with flags set
    let audio = build_audio(1, 1, 0, 0, &vec![0u32; SAMPLES_PER_PACKET]);
    let mut bytes = audio.as_packet().as_slice().to_vec();
    bytes[4] = 1;
    assert!(reparse(&bytes).is_none());

    // time with flags set
    let time = Time::allocate();
    let mut bytes = time.as_packet().as_slice().to_vec();
    bytes[4] = 1;
    assert!(reparse(&bytes).is_none());

    // stats request with flags set
    let req = StatsRequest::new();
    let mut bytes = req.as_packet().as_slice().to_vec();
    bytes[4] = 1;
    assert!(reparse(&bytes).is_none());

    // stats reply keeps whatever flag bits came, defined or not
    let reply = StatsReply::source(SessionId(3), &NodeStats::zeroed());
    let mut bytes = reply.as_packet().as_slice().to_vec();
    bytes[4] = 0xAA;
    bytes[5] = 0x55;
    match reparse(&bytes) {
        Some(PacketKind::StatsReply(parsed)) => {
            assert_eq!(parsed.flags(), 0x55AA);
        }
        _ => panic!("expected a stats reply"),
    }
}

#[test]
fn wrong_lengths_reject() {
    // audio one byte short
    let audio = build_audio(1, 1, 0, 0, &vec![0u32; SAMPLES_PER_PACKET]);
    let mut bytes = audio.as_packet().as_slice().to_vec();
    bytes.pop();
    assert!(reparse(&bytes).is_none());

    // stats request with payload
    let req = StatsRequest::new();
    let mut bytes = req.as_packet().as_slice().to_vec();
    bytes.push(0);
    assert!(reparse(&bytes).is_none());

    // datagram shorter than the fixed header is dropped before parse
    let buffer = ByteBuffer::from_vec(vec![0u8; PACKET_HEADER_SIZE - 1]);
    assert!(Packet::from_buffer(buffer).is_none());
}

#[test]
fn time_packet_tolerates_padding_but_not_truncation() {
    let mut time = Time::allocate();
    time.set_data(&TimePacketData {
        sid: SessionId(1),
        rid: ReceiverId(0),
        stream_1: TimestampMicros(77),
        receive_2: TimestampMicros(0),
        stream_3: TimestampMicros(0),
        receive_4: TimestampMicros(0),
    });
    let bytes = time.as_packet().as_slice().to_vec();

    // padded to audio length: parses
    assert!(matches!(reparse(&bytes), Some(PacketKind::Time(_))));
    assert_eq!(
        reparse(&bytes)
            .and_then(|k| match k {
                PacketKind::Time(t) => t.data().phase(),
                _ => None,
            }),
        Some(TimePhase::Broadcast)
    );

    // cut below the six fields: dropped
    let truncated = bytes[..PACKET_HEADER_SIZE + 40].to_vec();
    assert!(reparse(&truncated).is_none());
}

#[test]
fn unknown_magic_is_dropped() {
    let mut bytes = vec![0u8; MAX_PACKET_SIZE];
    bytes[0] = 0xde;
    bytes[1] = 0xad;
    bytes[2] = 0xbe;
    bytes[3] = 0xef;
    assert!(reparse(&bytes).is_none());
}

#[test]
fn receiver_id_matching() {
    assert!(ReceiverId::broadcast().matches(&ReceiverId(42)));
    assert!(ReceiverId(42).matches(&ReceiverId(42)));
    assert!(!ReceiverId(41).matches(&ReceiverId(42)));
}
