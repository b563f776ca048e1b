//! Jitter queue tests: contiguity under gaps and reorders, the reset on
//! out-of-range numbers, and the head-drop bound.

use bark::buffer::AudioBuffer;
use bark::protocol::SAMPLES_PER_PACKET;
use bark::queue::PacketQueue;
use bark::time::Timestamp;

fn audio_of(value: u32) -> AudioBuffer {
    AudioBuffer::from_words(vec![value; SAMPLES_PER_PACKET])
}

fn seqs(queue: &mut PacketQueue) -> Vec<u64> {
    let mut out = Vec::new();
    while let Some(slot) = queue.pop_front() {
        out.push(slot.seq);
    }
    out
}

#[test]
fn pushes_within_gap_stay_contiguous() {
    let mut q = PacketQueue::new(12);
    q.push(10, Some(Timestamp(0)), audio_of(1));
    q.push(14, Some(Timestamp(4 * 960)), audio_of(2));
    q.push(12, Some(Timestamp(2 * 960)), audio_of(3));
    let seqs = seqs(&mut q);
    assert_eq!(seqs, vec![10, 11, 12, 13, 14]);
}

#[test]
fn holes_are_unfilled_slots() {
    let mut q = PacketQueue::new(12);
    q.push(5, Some(Timestamp(0)), audio_of(1));
    q.push(7, Some(Timestamp(2 * 960)), audio_of(2));
    let mut kinds = Vec::new();
    while let Some(slot) = q.pop_front() {
        kinds.push((slot.seq, slot.audio.is_some(), slot.pts.is_some()));
    }
    assert_eq!(kinds, vec![(5, true, true), (6, false, false), (7, true, true)]);
}

#[test]
fn out_of_range_resets_queue() {
    let mut q = PacketQueue::new(12);
    q.push(100, Some(Timestamp(0)), audio_of(1));
    // far beyond back + gap: full reset, re-opened at the new number
    q.push(200, Some(Timestamp(0)), audio_of(2));
    assert_eq!(q.len(), 1);
    let front = q.pop_front().unwrap();
    assert_eq!(front.seq, 200);

    // behind the front: also a reset
    let mut q = PacketQueue::new(12);
    q.push(100, Some(Timestamp(0)), audio_of(1));
    q.push(99, Some(Timestamp(0)), audio_of(2));
    assert_eq!(seqs(&mut q), vec![99]);
}

#[test]
fn queue_never_stretches_past_gap_bound() {
    let mut q = PacketQueue::new(4);
    q.push(1, Some(Timestamp(0)), audio_of(1));
    q.push(2, Some(Timestamp(960)), audio_of(2));
    // 2 + gap = 6 is still accepted; heads drop to keep the bound
    q.push(6, Some(Timestamp(5 * 960)), audio_of(3));
    assert_eq!(q.len(), 5);
    assert_eq!(seqs(&mut q), vec![2, 3, 4, 5, 6]);
}

#[test]
fn reorder_fills_existing_hole() {
    let mut q = PacketQueue::new(12);
    q.push(1, Some(Timestamp(0)), audio_of(1));
    q.push(3, Some(Timestamp(2 * 960)), audio_of(3));
    // out-of-order arrival lands in its hole
    q.push(2, Some(Timestamp(960)), audio_of(2));
    let mut got = Vec::new();
    while let Some(slot) = q.pop_front() {
        let audio = slot.audio.expect("every slot should be filled");
        got.push((slot.seq, audio.samples()[0]));
    }
    assert_eq!(got, vec![(1, 1), (2, 2), (3, 3)]);
}

#[test]
fn duplicate_overwrites_slot_and_keeps_consumed() {
    let mut q = PacketQueue::new(12);
    q.push(1, Some(Timestamp(0)), audio_of(1));
    q.set_head_consumed(bark::time::SampleDuration(100));
    q.push(1, Some(Timestamp(0)), audio_of(9));
    let slot = q.pop_front().unwrap();
    assert_eq!(slot.consumed.0, 100);
    assert_eq!(slot.audio.unwrap().samples()[0], 9);
}

#[test]
fn audio_buffer_drains_to_front_of_output() {
    let mut buffer = AudioBuffer::from_words((1..=8u32).collect());
    let mut out = vec![0u32; 4];
    let copied = buffer.drain_to(&mut out);
    assert_eq!(copied.0, 2);
    assert_eq!(out, vec![1, 2, 3, 4]);
    assert_eq!(buffer.samples(), &[5, 6, 7, 8]);
    // a larger request copies what is left and keeps the tail of out
    let mut out = vec![9u32; 8];
    let copied = buffer.drain_to(&mut out);
    assert_eq!(copied.0, 2);
    assert_eq!(out, vec![5, 6, 7, 8, 9, 9, 9, 9]);
    assert!(buffer.is_empty());
}
