//! Clock estimator tests: the rolling median and the four-timestamp
//! round-trip and offset formulas.

use bark::clock::{clock_delta_estimate_micros, rtt_estimate_micros, Aggregate, Timing};
use bark::packet::{ReceiverId, SessionId, TimePacketData};
use bark::time::{Timestamp, TimestampMicros};

fn exchange(s1: u64, r2: u64, s3: u64, r4: u64) -> TimePacketData {
    TimePacketData {
        sid: SessionId(1),
        rid: ReceiverId(2),
        stream_1: TimestampMicros(s1),
        receive_2: TimestampMicros(r2),
        stream_3: TimestampMicros(s3),
        receive_4: TimestampMicros(r4),
    }
}

#[test]
fn rolling_median_of_known_sequence() {
    let inputs: [i64; 11] = [3, 1, 4, 1, 5, 9, 2, 6, 5, 3, 5];
    let mut agg = Aggregate::new();
    assert_eq!(agg.median(), None);
    for v in inputs.iter() {
        agg.observe(*v);
    }
    // sorted: [1,1,2,3,3,4,5,5,5,6,9]; index 11/2 = 5 holds 4
    assert_eq!(agg.median(), Some(4));
}

#[test]
fn median_is_sorted_snapshot_midpoint() {
    let mut agg = Aggregate::new();
    agg.observe(10);
    assert_eq!(agg.median(), Some(10));
    agg.observe(-5);
    // sorted: [-5, 10]; index 1 holds 10
    assert_eq!(agg.median(), Some(10));
    agg.observe(3);
    // sorted: [-5, 3, 10]; index 1 holds 3
    assert_eq!(agg.median(), Some(3));
}

#[test]
fn window_overwrites_oldest_when_full() {
    let mut agg = Aggregate::new();
    for _ in 0..64 {
        agg.observe(1);
    }
    assert_eq!(agg.median(), Some(1));
    // overwrite more than half the window with a larger value
    for _ in 0..40 {
        agg.observe(9);
    }
    assert_eq!(agg.median(), Some(9));
}

#[test]
fn clock_delta_and_rtt_formulas() {
    let d = exchange(100, 1200, 1300, 250);
    // clock_delta = ((1200-100)+(250-1300))/2 = 25
    assert_eq!(clock_delta_estimate_micros(&d), 25);
    // rtt = (250-100)-(1300-1200) = 50
    assert_eq!(rtt_estimate_micros(&d), 50);
}

#[test]
fn timing_observes_both_windows() {
    let mut timing = Timing::new();
    assert_eq!(timing.network_latency(), None);
    assert_eq!(timing.clock_delta_median(), None);
    timing.receive_time(&exchange(100, 1200, 1300, 250));
    // one-way latency = rtt / 2 = 25; clock delta = 25
    assert_eq!(timing.network_latency(), Some(25));
    assert_eq!(timing.clock_delta_median(), Some(25));
}

#[test]
fn adjust_pts_subtracts_median_offset() {
    let mut timing = Timing::new();
    assert_eq!(timing.adjust_pts(Timestamp(1000)), None);
    // a delta of 1_000_000 us means the receiver is one second ahead:
    // 48000 frames are subtracted
    timing.receive_time(&exchange(0, 1_000_000, 0, 1_000_000));
    assert_eq!(timing.clock_delta_median(), Some(1_000_000));
    assert_eq!(timing.adjust_pts(Timestamp(50_000)), Some(Timestamp(2000)));
    // shifting below zero yields nothing
    assert_eq!(timing.adjust_pts(Timestamp(10)), None);
}

#[test]
fn adjust_wire_pts_converts_then_shifts() {
    let mut timing = Timing::new();
    // zero offset exchange: symmetric timestamps
    timing.receive_time(&exchange(100, 150, 200, 250));
    assert_eq!(timing.clock_delta_median(), Some(50));
    // 1_000_000 us = 48000 frames; minus 50 us (= 2 frames) of offset
    assert_eq!(
        timing.adjust_wire_pts(TimestampMicros(1_000_000)),
        Some(Timestamp(47998))
    );
}

#[test]
fn negative_rtt_and_delta_round_toward_zero() {
    // delta sum = (0-100)+(0-100) = -200 -> -100; rtt = (0-100)-(100-0) = -200
    let d = exchange(100, 0, 100, 0);
    assert_eq!(clock_delta_estimate_micros(&d), -100);
    assert_eq!(rtt_estimate_micros(&d), -200);
    // odd negative sum truncates toward zero: ((5-10)+(0-0))/2 = -2
    let d2 = exchange(10, 5, 0, 0);
    assert_eq!(clock_delta_estimate_micros(&d2), -2);
}
