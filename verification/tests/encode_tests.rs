//! Encoder tests: capture samples fill packets; each full packet carries
//! the right stamps and the samples bit-exactly.

use bark::encode::PcmFloat32;
use bark::packet::Audio;
use bark::packet::SessionId;
use bark::protocol::SAMPLES_PER_PACKET;
use bark::time::{Timestamp, TimestampMicros};

fn words_of(audio: Audio) -> Vec<u32> {
    let buffer = audio.into_audio_buffer();
    buffer.samples().to_vec()
}

#[test]
fn exact_packet_fills_and_stamps() {
    let mut encoder = PcmFloat32::new(SessionId(77));
    let samples: Vec<u32> = (0..SAMPLES_PER_PACKET as u32).collect();
    let packets = encoder.write_samples(&samples, Timestamp(4800), TimestampMicros(55));
    assert_eq!(packets.len(), 1);
    let header = packets[0].header();
    assert_eq!(header.sid, SessionId(77));
    assert_eq!(header.seq, 1);
    // 4800 frames = 100 ms
    assert_eq!(header.pts, TimestampMicros(100_000));
    assert_eq!(header.dts, TimestampMicros(55));
    let mut packets = packets;
    let audio = words_of(packets.remove(0));
    assert_eq!(audio, samples);
}

#[test]
fn partial_writes_accumulate_across_calls() {
    let mut encoder = PcmFloat32::new(SessionId(1));
    let first: Vec<u32> = (0..1000u32).collect();
    let second: Vec<u32> = (1000..1000 + SAMPLES_PER_PACKET as u32).collect();

    let packets = encoder.write_samples(&first, Timestamp(0), TimestampMicros(0));
    assert_eq!(packets.len(), 0);

    // the second call completes packet one and leaves a new remainder
    let packets = encoder.write_samples(&second, Timestamp(500), TimestampMicros(9));
    assert_eq!(packets.len(), 1);
    let header = packets[0].header();
    assert_eq!(header.seq, 1);
    // packet one began at the first call's instant
    assert_eq!(header.pts, TimestampMicros(0));
    let mut packets = packets;
    let words = words_of(packets.remove(0));
    let expected: Vec<u32> = (0..SAMPLES_PER_PACKET as u32).collect();
    assert_eq!(words, expected);
}

#[test]
fn long_capture_produces_sequenced_packets() {
    let mut encoder = PcmFloat32::new(SessionId(5));
    let samples: Vec<u32> = (0..3 * SAMPLES_PER_PACKET as u32 + 100).collect();
    let packets = encoder.write_samples(&samples, Timestamp(0), TimestampMicros(1));
    assert_eq!(packets.len(), 3);
    for (k, p) in packets.into_iter().enumerate() {
        let header = p.header();
        assert_eq!(header.seq, (k + 1) as u64);
        // packet k starts 960 frames (20 ms) after its predecessor
        assert_eq!(header.pts, TimestampMicros(20_000 * k as u64));
        let words = words_of(p);
        assert_eq!(words[0], (k * SAMPLES_PER_PACKET) as u32);
    }
}
