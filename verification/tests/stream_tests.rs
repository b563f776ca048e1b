//! Output ring tests: writer backpressure, reader offset publication, and
//! the underrun fill.

use bark::protocol::CHANNELS;
use bark::stream::StreamBuffer;
use bark::time::{SampleDuration, Timestamp};

#[test]
fn write_available_places_what_fits() {
    // capacity 480 frames = 960 samples
    let mut ring = StreamBuffer::create(SampleDuration(480));
    let samples: Vec<u32> = (0..1200u32).collect();
    let placed = ring.write_available(Timestamp(0), &samples);
    assert_eq!(placed, 960);
    assert_eq!(ring.buffered(), 960);
    assert_eq!(ring.free(), 0);
    // nothing fits until the reader drains
    assert_eq!(ring.write_available(Timestamp(480), &samples[960..]), 0);
}

#[test]
fn read_drains_in_order_and_publishes_offset() {
    let mut ring = StreamBuffer::create(SampleDuration(480));
    let samples: Vec<u32> = (0..960u32).collect();
    assert_eq!(ring.write_available(Timestamp(100), &samples), 960);

    let mut out = vec![u32::MAX; 200 * CHANNELS];
    let underrun = ring.read(Timestamp(130), &mut out);
    assert!(!underrun);
    // offset = requested instant - front span instant = 30 frames
    assert_eq!(ring.offset().map(|d| d.0), Some(30));
    for (i, v) in out.iter().enumerate() {
        assert_eq!(*v, i as u32);
    }
    // the front span advanced by 200 frames
    let front = ring.front_span().unwrap();
    assert_eq!(front.timestamp, Some(Timestamp(300)));
    assert_eq!(front.remaining.0, 280);
}

#[test]
fn underrun_fills_with_silence_and_appends_silence_span() {
    // an empty ring asked for 1152 samples
    let mut ring = StreamBuffer::create(SampleDuration(480));
    let mut out = vec![u32::MAX; 1152];
    let underrun = ring.read(Timestamp(0), &mut out);
    assert!(underrun);
    assert!(out.iter().all(|v| *v == 0));
    // a silence span covering the whole buffer was appended
    assert_eq!(ring.span_count(), 1);
    let span = ring.front_span().unwrap();
    assert_eq!(span.timestamp, None);
    assert_eq!(span.remaining.0, 480);
    assert_eq!(ring.buffered(), 960);
    // no timed span at the front: no offset published
    assert_eq!(ring.offset(), None);
}

#[test]
fn partial_underrun_plays_what_there_is() {
    let mut ring = StreamBuffer::create(SampleDuration(480));
    let samples: Vec<u32> = (1..=100u32).collect();
    assert_eq!(ring.write_available(Timestamp(0), &samples), 100);
    let mut out = vec![u32::MAX; 200];
    let underrun = ring.read(Timestamp(0), &mut out);
    assert!(underrun);
    for i in 0..100 {
        assert_eq!(out[i], (i + 1) as u32);
    }
    assert!(out[100..].iter().all(|v| *v == 0));
}

#[test]
fn silence_alone_publishes_no_offset() {
    let mut ring = StreamBuffer::create(SampleDuration(480));
    let mut out = vec![0u32; 100];
    let _ = ring.read(Timestamp(0), &mut out);
    // the ring now holds only the silence span: nothing to measure against
    let mut out2 = vec![u32::MAX; 100];
    let underrun = ring.read(Timestamp(50), &mut out2);
    assert!(!underrun);
    assert_eq!(ring.offset(), None);
    assert!(out2.iter().all(|v| *v == 0));
}

#[test]
fn offset_skips_leading_silence_spans() {
    // exactly the state an underrun leaves behind: a silence span in front,
    // fresh timed audio behind it
    let mut ring = StreamBuffer::create(SampleDuration(480));
    let mut out = vec![0u32; 100];
    let _ = ring.read(Timestamp(0), &mut out);
    assert_eq!(ring.span_count(), 1);
    // drain most of the silence so fresh audio fits behind what is left
    let mut drained = vec![0u32; 860];
    assert!(!ring.read(Timestamp(50), &mut drained));
    let samples: Vec<u32> = vec![5; 860];
    assert_eq!(ring.write_available(Timestamp(700), &samples), 860);
    assert_eq!(ring.span_count(), 2);
    assert_eq!(ring.front_span().unwrap().timestamp, None);

    // the offset is measured against the timed span behind the silence
    let mut out2 = vec![u32::MAX; 100];
    let underrun = ring.read(Timestamp(730), &mut out2);
    assert!(!underrun);
    assert_eq!(ring.offset().map(|d| d.0), Some(30));
    // the samples drained are still the silence at the front
    assert!(out2.iter().all(|v| *v == 0));
}

#[test]
fn spans_keep_their_instants_across_reads() {
    let mut ring = StreamBuffer::create(SampleDuration(480));
    let first: Vec<u32> = vec![7; 200];
    let second: Vec<u32> = vec![9; 200];
    assert_eq!(ring.write_available(Timestamp(0), &first), 200);
    assert_eq!(ring.write_available(Timestamp(100), &second), 200);
    assert_eq!(ring.span_count(), 2);

    // drain the first span exactly
    let mut out = vec![0u32; 200];
    assert!(!ring.read(Timestamp(0), &mut out));
    assert!(out.iter().all(|v| *v == 7));
    assert_eq!(ring.span_count(), 1);
    let front = ring.front_span().unwrap();
    assert_eq!(front.timestamp, Some(Timestamp(100)));
    assert_eq!(front.remaining.0, 100);
}
