//! Sync state machine tests: the skew decisions of one output callback.

use bark::buffer::AudioBuffer;
use bark::protocol::{CHANNELS, SAMPLES_PER_PACKET};
use bark::queue::PacketQueue;
use bark::stats::StreamStatus;
use bark::sync::fill_output;
use bark::time::Timestamp;

/// A packet whose sample at interleaved index `i` is `base + i`, so any
/// slice of the output identifies its source offset.
fn indexed_audio(base: u32) -> AudioBuffer {
    AudioBuffer::from_words((0..SAMPLES_PER_PACKET as u32).map(|i| base + i).collect())
}

#[test]
fn late_by_less_than_a_packet_consumes_from_skew() {
    // head PTS 0, output PTS 500: playback starts at frame 500
    let mut q = PacketQueue::new(12);
    q.push(1, Some(Timestamp(0)), indexed_audio(0));
    let mut out = vec![u32::MAX; 100 * CHANNELS];
    let status = fill_output(&mut q, Timestamp(500), &mut out, StreamStatus::Seek);
    assert_eq!(status, StreamStatus::Sync);
    for (i, v) in out.iter().enumerate() {
        assert_eq!(*v, (500 * CHANNELS + i) as u32);
    }
    // the head stands consumed to frame 600
    let head = q.pop_front().unwrap();
    assert_eq!(head.consumed.0, 600);
}

#[test]
fn late_by_more_than_a_packet_drops_head() {
    // head PTS 0, output PTS 2000: the head lies wholly in the past
    let mut q = PacketQueue::new(12);
    q.push(1, Some(Timestamp(0)), indexed_audio(0));
    q.push(2, Some(Timestamp(960)), indexed_audio(10_000));
    let mut out = vec![u32::MAX; 100 * CHANNELS];
    let status = fill_output(&mut q, Timestamp(2000), &mut out, StreamStatus::Seek);
    // first head popped; second head (PTS 960) is late by 1040 >= 960: popped
    // too; the queue runs dry and the span is silence
    assert_eq!(status, StreamStatus::Miss);
    assert!(out.iter().all(|v| *v == 0));
    assert_eq!(q.len(), 0);
}

#[test]
fn late_head_is_skipped_to_reach_a_closer_slot() {
    let mut q = PacketQueue::new(12);
    q.push(1, Some(Timestamp(0)), indexed_audio(0));
    q.push(2, Some(Timestamp(960)), indexed_audio(50_000));
    let mut out = vec![u32::MAX; 100 * CHANNELS];
    // PTS 1000 is past the first packet's first 40 frames... within it:
    // late by 1000 >= 960 for head one, then 40 into head two
    let status = fill_output(&mut q, Timestamp(1000), &mut out, StreamStatus::Seek);
    assert_eq!(status, StreamStatus::Sync);
    for (i, v) in out.iter().enumerate() {
        assert_eq!(*v, 50_000 + (40 * CHANNELS + i) as u32);
    }
}

#[test]
fn early_output_leads_with_silence() {
    // head PTS 400, output PTS 0, span of 800 frames: 400 frames of
    // silence, then the head from its start
    let mut q = PacketQueue::new(12);
    q.push(1, Some(Timestamp(400)), indexed_audio(0));
    let mut out = vec![u32::MAX; 800 * CHANNELS];
    let status = fill_output(&mut q, Timestamp(0), &mut out, StreamStatus::Seek);
    assert_eq!(status, StreamStatus::Sync);
    for i in 0..400 * CHANNELS {
        assert_eq!(out[i], 0);
    }
    for i in 0..400 * CHANNELS {
        assert_eq!(out[400 * CHANNELS + i], i as u32);
    }
}

#[test]
fn early_by_whole_span_keeps_head_and_state() {
    let mut q = PacketQueue::new(12);
    q.push(1, Some(Timestamp(5000)), indexed_audio(0));
    let mut out = vec![u32::MAX; 100 * CHANNELS];
    // out of sync before: Miss
    let status = fill_output(&mut q, Timestamp(0), &mut out, StreamStatus::Seek);
    assert_eq!(status, StreamStatus::Miss);
    assert!(out.iter().all(|v| *v == 0));
    assert_eq!(q.len(), 1);
    // in sync before: unchanged
    let mut out = vec![u32::MAX; 100 * CHANNELS];
    let status = fill_output(&mut q, Timestamp(0), &mut out, StreamStatus::Sync);
    assert_eq!(status, StreamStatus::Sync);
    assert_eq!(q.len(), 1);
}

#[test]
fn head_without_pts_is_dropped_with_silence() {
    let mut q = PacketQueue::new(12);
    q.push(1, None, indexed_audio(0));
    let mut out = vec![u32::MAX; 100 * CHANNELS];
    let status = fill_output(&mut q, Timestamp(0), &mut out, StreamStatus::Sync);
    assert_eq!(status, StreamStatus::Miss);
    assert!(out.iter().all(|v| *v == 0));
    assert_eq!(q.len(), 0);
}

#[test]
fn empty_queue_is_underrun_silence() {
    let mut q = PacketQueue::new(12);
    let mut out = vec![u32::MAX; 576 * CHANNELS];
    let status = fill_output(&mut q, Timestamp(0), &mut out, StreamStatus::Sync);
    assert_eq!(status, StreamStatus::Miss);
    assert!(out.iter().all(|v| *v == 0));
}

#[test]
fn consumption_crosses_packet_boundaries_in_order() {
    let mut q = PacketQueue::new(12);
    q.push(1, Some(Timestamp(0)), indexed_audio(0));
    q.push(2, Some(Timestamp(960)), indexed_audio(1_000_000));
    // read 1200 frames from PTS 0: 960 from head one, 240 from head two
    let mut out = vec![u32::MAX; 1200 * CHANNELS];
    let status = fill_output(&mut q, Timestamp(0), &mut out, StreamStatus::Seek);
    assert_eq!(status, StreamStatus::Sync);
    for i in 0..SAMPLES_PER_PACKET {
        assert_eq!(out[i], i as u32);
    }
    for i in 0..240 * CHANNELS {
        assert_eq!(out[SAMPLES_PER_PACKET + i], 1_000_000 + i as u32);
    }
    // head two stands consumed to frame 240
    let head = q.pop_front().unwrap();
    assert_eq!(head.seq, 2);
    assert_eq!(head.consumed.0, 240);
}
