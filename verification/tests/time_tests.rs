//! Time primitive tests: sample/microsecond conversions and delta math.

use bark::time::{ClockDelta, SampleDuration, Timestamp, TimestampDelta, TimestampMicros};

#[test]
fn timestamp_micros_conversions_are_lossy_floor() {
    // 1 ms at 48 kHz is exactly 48 frames
    assert_eq!(Timestamp::from_micros_lossy(TimestampMicros(1000)).0, 48);
    // sub-frame precision rounds down: 10 us * 48000 / 1e6 = 0.48
    assert_eq!(Timestamp::from_micros_lossy(TimestampMicros(10)).0, 0);
    // 48 frames back to micros: 1000
    assert_eq!(Timestamp(48).to_micros_lossy().0, 1000);
    // one frame is 20.8 us, floored to 20
    assert_eq!(Timestamp(1).to_micros_lossy().0, 20);
}

#[test]
fn duration_buffer_offsets_count_channels() {
    let d = SampleDuration::from_buffer_offset(1920);
    assert_eq!(d.0, 960);
    assert_eq!(d.as_buffer_offset(), 1920);
    assert_eq!(SampleDuration::one_packet().0, 960);
    assert!(SampleDuration::zero().is_zero());
}

#[test]
fn duration_micros_conversions() {
    assert_eq!(SampleDuration::from_micros_lossy(2000).0, 96);
    assert_eq!(SampleDuration(96).as_micros_lossy(), 2000);
    assert_eq!(SampleDuration::from_micros_lossy(100).0, 4);
}

#[test]
fn timestamp_arithmetic() {
    let t = Timestamp(1000);
    assert_eq!(t.add_duration(SampleDuration(960)).0, 1960);
    assert_eq!(t.duration_since(Timestamp(400)).0, 600);
    assert_eq!(t.delta(Timestamp(1500)).0, -500);
    assert_eq!(t.delta(Timestamp(200)).0, 800);
    assert_eq!(t.adjust(TimestampDelta(-1000)).0, 0);
    assert_eq!(t.adjust(TimestampDelta(24)).0, 1024);
}

#[test]
fn delta_magnitude_and_clock_conversion() {
    assert_eq!(TimestampDelta(-7).abs().0, 7);
    assert_eq!(TimestampDelta(7).abs().0, 7);
    assert_eq!(TimestampDelta(i64::MIN).abs().0, 1u64 << 63);
    // 1000 us of clock offset is 48 frames
    assert_eq!(
        TimestampDelta::from_clock_delta_lossy(ClockDelta(1000)).0,
        48
    );
    // truncation is toward zero for negative offsets: -10 us -> -0.48 -> 0
    assert_eq!(TimestampDelta::from_clock_delta_lossy(ClockDelta(-10)).0, 0);
    assert_eq!(
        TimestampDelta::from_clock_delta_lossy(ClockDelta(-1000)).0,
        -48
    );
}

#[test]
fn sequence_counts_from_one() {
    let mut seq = bark::util::Sequence::new();
    assert_eq!(seq.next(), 1);
    assert_eq!(seq.next(), 2);
    assert_eq!(seq.next(), 3);
}

#[test]
fn frame_alignment_check() {
    assert!(bark::util::frame_aligned_buffer(&[0u32; 4]));
    assert!(!bark::util::frame_aligned_buffer(&[0u32; 5]));
    assert!(bark::util::frame_aligned_buffer(&[]));
}
