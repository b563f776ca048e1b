//! Slew controller tests: hysteresis and clamping of the commanded rate.

use bark::protocol::SAMPLE_RATE;
use bark::rate::{RateAdjust as TimingRateAdjust, Timing};
use bark::slew::{RateAdjust, MAX_PLAYBACK_RATE, MIN_PLAYBACK_RATE};
use bark::time::{Timestamp, TimestampDelta};

/// An offset given in microseconds, as the frame delta the controller sees.
fn offset_micros(micros: i64) -> TimestampDelta {
    TimestampDelta(micros * SAMPLE_RATE as i64 / 1_000_000)
}

#[test]
fn small_offsets_never_engage_the_slew() {
    // traversal 0 -> 1500 us -> 0: the flag never becomes true
    let mut rate = RateAdjust::new();
    for micros in [0i64, 500, 1000, 1500, 1000, 500, 0] {
        let commanded = rate.calculate(offset_micros(micros));
        assert_eq!(commanded, None);
        assert!(!rate.slew());
    }
}

#[test]
fn slew_engages_at_start_and_releases_at_stop() {
    // traversal 0 -> 3000 us -> 500 us -> 50 us: true during the middle,
    // false at the end
    let mut rate = RateAdjust::new();
    assert_eq!(rate.calculate(offset_micros(0)), None);
    assert!(!rate.slew());

    let commanded = rate.calculate(offset_micros(3000));
    assert!(commanded.is_some());
    assert!(rate.slew());

    // 500 us is below the start threshold but the correction keeps running
    let commanded = rate.calculate(offset_micros(500));
    assert!(commanded.is_some());
    assert!(rate.slew());

    // 50 us is below the stop threshold: released
    assert_eq!(rate.calculate(offset_micros(50)), None);
    assert!(!rate.slew());
}

#[test]
fn commanded_rate_is_clamped_for_any_offset() {
    let mut rate = RateAdjust::new();
    assert_eq!(rate.calculate(TimestampDelta(i64::MAX)), Some(MAX_PLAYBACK_RATE));
    assert_eq!(rate.calculate(TimestampDelta(i64::MIN)), Some(MIN_PLAYBACK_RATE));
    assert_eq!(MAX_PLAYBACK_RATE, 2 * SAMPLE_RATE);
    assert_eq!(MIN_PLAYBACK_RATE, SAMPLE_RATE * 98 / 100);
}

#[test]
fn rate_drains_offset_over_half_a_second() {
    let mut rate = RateAdjust::new();
    // 5000 us = 240 frames; over a 500 ms window that adds 480 frames/s
    assert_eq!(rate.calculate(offset_micros(5000)), Some(48480));
    // a receiver clock 0.05% fast settles near R * (1 + 5e-4):
    // an offset of 250 us (12 frames) commands 48024
    assert_eq!(rate.calculate(offset_micros(250)), Some(48024));
    // negative offsets slow playback down
    assert_eq!(rate.calculate(offset_micros(-5000)), Some(47520));
}

#[test]
fn timing_pair_form_measures_the_offset() {
    let mut rate = TimingRateAdjust::new();
    // requested instant 240 frames ahead of what is playing
    let commanded = rate.sample_rate(Timing { real: Timestamp(1240), play: Timestamp(1000) });
    assert_eq!(commanded, 48480);
    assert!(rate.slew());
    // in phase: nominal rate and release
    let commanded = rate.sample_rate(Timing { real: Timestamp(1000), play: Timestamp(1000) });
    assert_eq!(commanded, SAMPLE_RATE);
    assert!(!rate.slew());
}

#[test]
fn sustained_clock_drift_settles_at_the_compensating_rate() {
    // a receiver clock 0.05% fast adds 0.24 frames of offset per 10 ms
    // step; the controller, once engaged, drains the offset over the slew
    // window. the loop settles where drain equals drift: an offset of 12
    // frames (250 us) and a rate of 48024 = R * (1 + 5e-4).
    let mut rate = RateAdjust::new();
    let mut offset = 0.0f64;
    let mut commanded = SAMPLE_RATE as f64;
    for _step in 0..1000 {
        offset += 48_000.0 * 5e-4 * 0.01;
        offset -= (commanded - 48_000.0) * 0.01;
        commanded = match rate.calculate(TimestampDelta(offset as i64)) {
            Some(r) => r as f64,
            None => SAMPLE_RATE as f64,
        };
    }
    assert!(rate.slew());
    assert!((commanded - 48_024.0).abs() <= 4.0, "commanded {}", commanded);
    // the offset holds at the proportional fixed point, inside the start
    // threshold but above the stop threshold, so the correction keeps
    // running
    assert!(offset.abs() < 96.0, "offset {}", offset);
    assert!(offset.abs() >= 4.0, "offset {}", offset);
}
