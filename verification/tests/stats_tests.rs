//! Stats block tests: present bits guard every metric, and the stream
//! status survives its wire byte.

use bark::stats::{ReceiverStats, StreamStatus};
use bark::time::{SampleDuration, Timestamp};

#[test]
fn metrics_are_absent_until_set() {
    let stats = ReceiverStats::new();
    assert_eq!(stats.audio_latency(), None);
    assert_eq!(stats.buffer_length(), None);
    assert_eq!(stats.network_latency(), None);
    assert_eq!(stats.predict_offset(), None);
    assert_eq!(stats.stream(), None);
}

#[test]
fn setters_mark_their_present_bits() {
    let mut stats = ReceiverStats::new();
    stats.set_audio_latency(Timestamp(96), Timestamp(48));
    // 96 frames = 2000 us, 48 frames = 1000 us
    assert_eq!(stats.audio_latency(), Some(1000));
    assert_eq!(stats.buffer_length(), None);

    stats.set_buffer_length(SampleDuration(480));
    assert_eq!(stats.buffer_length(), Some(10_000));

    stats.set_network_latency(314);
    assert_eq!(stats.network_latency(), Some(314));

    stats.set_predict_offset(-12);
    assert_eq!(stats.predict_offset(), Some(-12));

    // everything set stays set
    assert_eq!(stats.audio_latency(), Some(1000));
}

#[test]
fn clear_resets_to_seeking() {
    let mut stats = ReceiverStats::new();
    stats.set_network_latency(5);
    stats.set_stream(StreamStatus::Sync);
    stats.clear();
    assert_eq!(stats.network_latency(), None);
    assert_eq!(stats.stream(), Some(StreamStatus::Seek));
}

#[test]
fn stream_status_wire_byte_round_trips() {
    for status in [
        StreamStatus::Seek,
        StreamStatus::Sync,
        StreamStatus::Slew,
        StreamStatus::Miss,
    ] {
        assert_eq!(StreamStatus::from_u8(status.into_u8()), Some(status));
    }
    assert_eq!(StreamStatus::from_u8(0), None);
    assert_eq!(StreamStatus::from_u8(250), None);
}
