//! End-to-end scenarios over a simulated loopback: a source encoder feeds
//! a receiver, and the receiver's output is compared against the original
//! waveform bit for bit.
//!
//! The stream starts at frame 9600, which survives the microsecond wire
//! conversion exactly; a first packet adopts the session (resetting the
//! clock estimator), one zero-offset time exchange gives the estimator its
//! median, and the stream is then fed in full.

use bark::encode::PcmFloat32;
use bark::packet::{Audio, ReceiverId, SessionId, TimePacketData, TimePhase};
use bark::protocol::{CHANNELS, SAMPLES_PER_PACKET};
use bark::receive::{stamp_receive_4, Receiver, SessionDisposition};
use bark::source::{source_should_yield, stamp_broadcast, stamp_stream_reply};
use bark::stats::StreamStatus;
use bark::time::{Timestamp, TimestampMicros};

const START_PTS: u64 = 9600;

/// One second of a 440 Hz sine at 48 kHz, two interleaved channels, as the
/// bit patterns of 32-bit floats.
fn sine_second() -> Vec<u32> {
    let mut samples: Vec<u32> = Vec::with_capacity(48_000 * CHANNELS);
    for frame in 0..48_000u32 {
        let t = frame as f32 / 48_000.0;
        let v = (2.0 * std::f32::consts::PI * 440.0 * t).sin();
        for _ in 0..CHANNELS {
            samples.push(v.to_bits());
        }
    }
    samples
}

/// One time exchange whose two skews cancel: the clock delta median is
/// exactly zero, so wire instants stand in the receiver's own timebase.
fn sync_clocks(receiver: &mut Receiver) {
    let exact = TimePacketData {
        sid: SessionId(1),
        rid: ReceiverId(7),
        stream_1: TimestampMicros(1000),
        receive_2: TimestampMicros(950),
        stream_3: TimestampMicros(1100),
        receive_4: TimestampMicros(1150),
    };
    // delta = ((950-1000)+(1150-1100))/2 = 0
    receiver.receive_time(&exact);
}

fn encode_stream(sid: u64, samples: &[u32]) -> Vec<Audio> {
    let mut encoder = PcmFloat32::new(SessionId(sid));
    encoder.write_samples(samples, Timestamp(START_PTS), TimestampMicros(0))
}

/// Set up a receiver locked on session 1 with a zero clock median.
fn adopted_receiver(samples: &[u32]) -> Receiver {
    let mut receiver = Receiver::new(ReceiverId(7), 12);
    let mut first = encode_stream(1, samples);
    let p = first.remove(0);
    let h = p.header();
    let d = receiver.receive_audio(h, p.into_audio_buffer(), TimestampMicros(0));
    assert!(matches!(d, SessionDisposition::Takeover));
    sync_clocks(&mut receiver);
    receiver
}

fn feed(receiver: &mut Receiver, packets: Vec<Audio>, skip: &[u64]) {
    for p in packets {
        let header = p.header();
        if skip.contains(&header.seq) {
            continue;
        }
        let d = receiver.receive_audio(header, p.into_audio_buffer(), TimestampMicros(0));
        assert!(matches!(d, SessionDisposition::Accept));
    }
}

fn play_out(receiver: &mut Receiver, start_pts: Timestamp, frames: usize) -> Vec<u32> {
    let mut all: Vec<u32> = Vec::new();
    let mut pts = start_pts;
    let mut left = frames;
    while left > 0 {
        let chunk = if left < 480 { left } else { 480 };
        let mut out = vec![u32::MAX; chunk * CHANNELS];
        let _ = receiver.fill_output(pts, &mut out);
        all.extend_from_slice(&out);
        pts = Timestamp(pts.0 + chunk as u64);
        left -= chunk;
    }
    all
}

/// Run a live stream: one packet interval per step, arrivals landing as
/// scheduled, playback running four packets behind so reorders and gaps are
/// absorbed by the jitter queue, as they would be in flight.
fn run_stream(receiver: &mut Receiver, schedule: Vec<Option<Audio>>) -> Vec<u32> {
    let steps = schedule.len();
    let mut all: Vec<u32> = Vec::new();
    for (t, slot) in schedule.into_iter().enumerate() {
        if let Some(p) = slot {
            let header = p.header();
            let d = receiver.receive_audio(header, p.into_audio_buffer(), TimestampMicros(0));
            assert!(matches!(d, SessionDisposition::Accept));
        }
        if t >= 4 {
            let pts = Timestamp(START_PTS + (t as u64 - 4) * 960);
            all.extend_from_slice(&play_out(receiver, pts, 960));
        }
    }
    for k in 0..4u64 {
        let pts = Timestamp(START_PTS + (steps as u64 - 4 + k) * 960);
        all.extend_from_slice(&play_out(receiver, pts, 960));
    }
    all
}

#[test]
fn zero_loss_stream_recovers_waveform() {
    let samples = sine_second();
    let packets = encode_stream(1, &samples);
    assert_eq!(packets.len(), 50);

    let mut receiver = adopted_receiver(&samples);
    let schedule: Vec<Option<Audio>> = packets.into_iter().map(Some).collect();
    let out = run_stream(&mut receiver, schedule);
    assert_eq!(&out[..], &samples[..]);
}

#[test]
fn burst_loss_becomes_silence_then_resumes_in_phase() {
    let samples = sine_second();
    let packets = encode_stream(1, &samples);
    let mut receiver = adopted_receiver(&samples);

    // lose packets 26 and 27: frames 24000..25920 of the stream
    let schedule: Vec<Option<Audio>> = packets
        .into_iter()
        .map(|p| {
            let seq = p.header().seq;
            if seq == 26 || seq == 27 {
                None
            } else {
                Some(p)
            }
        })
        .collect();
    let out = run_stream(&mut receiver, schedule);
    let lost = 25 * SAMPLES_PER_PACKET..27 * SAMPLES_PER_PACKET;
    for (i, v) in out.iter().enumerate() {
        if lost.contains(&i) {
            assert_eq!(*v, 0, "expected silence at {}", i);
        } else {
            assert_eq!(*v, samples[i], "mismatch at {}", i);
        }
    }
}

#[test]
fn reordered_packets_still_play_in_order() {
    let samples = sine_second();
    let packets = encode_stream(1, &samples);
    let mut receiver = adopted_receiver(&samples);

    // the last three packets of every ten arrive in reverse
    let mut arrival: Vec<Audio> = Vec::new();
    let mut group: Vec<Audio> = Vec::new();
    for p in packets {
        group.push(p);
        if group.len() == 10 {
            let mut tail: Vec<Audio> = group.split_off(7);
            tail.reverse();
            arrival.append(&mut group);
            arrival.append(&mut tail);
        }
    }
    arrival.append(&mut group);
    let schedule: Vec<Option<Audio>> = arrival.into_iter().map(Some).collect();
    let out = run_stream(&mut receiver, schedule);
    assert_eq!(&out[..], &samples[..]);
}

#[test]
fn higher_session_takes_over_and_lower_is_ignored() {
    let mut receiver = Receiver::new(ReceiverId(7), 12);
    let old_packets = encode_stream(5, &vec![1u32; SAMPLES_PER_PACKET]);
    let new_packets = encode_stream(9, &vec![2u32; SAMPLES_PER_PACKET]);
    let late_old = encode_stream(5, &vec![3u32; SAMPLES_PER_PACKET]);

    for p in old_packets {
        let h = p.header();
        assert!(matches!(
            receiver.receive_audio(h, p.into_audio_buffer(), TimestampMicros(0)),
            SessionDisposition::Takeover
        ));
    }
    assert_eq!(receiver.current_session(), Some(SessionId(5)));

    for p in new_packets {
        let h = p.header();
        assert!(matches!(
            receiver.receive_audio(h, p.into_audio_buffer(), TimestampMicros(0)),
            SessionDisposition::Takeover
        ));
    }
    assert_eq!(receiver.current_session(), Some(SessionId(9)));

    for p in late_old {
        let h = p.header();
        assert!(matches!(
            receiver.receive_audio(h, p.into_audio_buffer(), TimestampMicros(0)),
            SessionDisposition::Ignore
        ));
    }
    assert_eq!(receiver.current_session(), Some(SessionId(9)));

    // the old source sees the new session's audio and yields
    assert!(source_should_yield(SessionId(5), SessionId(9)));
    assert!(!source_should_yield(SessionId(9), SessionId(5)));
}

#[test]
fn time_exchange_walks_all_four_stamps() {
    let mut receiver = Receiver::new(ReceiverId(7), 12);
    let broadcast = stamp_broadcast(SessionId(1), TimestampMicros(100));
    assert_eq!(broadcast.phase(), Some(TimePhase::Broadcast));

    let reply = receiver.stamp_receiver_reply(&broadcast, TimestampMicros(1200));
    assert_eq!(reply.phase(), Some(TimePhase::ReceiverReply));
    assert_eq!(reply.rid, ReceiverId(7));

    let stream_reply = stamp_stream_reply(&reply, TimestampMicros(1300));
    assert_eq!(stream_reply.phase(), Some(TimePhase::StreamReply));

    let done = stamp_receive_4(&stream_reply, TimestampMicros(250));
    assert_eq!(done.stream_1, TimestampMicros(100));
    assert_eq!(done.receive_2, TimestampMicros(1200));
    assert_eq!(done.stream_3, TimestampMicros(1300));
    assert_eq!(done.receive_4, TimestampMicros(250));
    receiver.receive_time(&done);
}

#[test]
fn receiver_stats_follow_playback_state() {
    let mut receiver = Receiver::new(ReceiverId(7), 12);
    let mut out = vec![0u32; 96 * CHANNELS];
    let status = receiver.fill_output(Timestamp(0), &mut out);
    assert_eq!(status, StreamStatus::Miss);
    assert_eq!(receiver.stats().stream(), Some(StreamStatus::Miss));
}

#[test]
fn predict_offset_is_published_once_medians_exist() {
    let samples = vec![4u32; 2 * SAMPLES_PER_PACKET];
    let packets = encode_stream(1, &samples);
    let mut receiver = adopted_receiver(&samples);
    assert_eq!(receiver.stats().predict_offset(), None);
    // both medians are zero from the exchange: the predicted send instant
    // equals now, and the packets carry dts 0
    feed(&mut receiver, packets, &[]);
    let probe = encode_stream(1, &samples);
    let p = probe.into_iter().next().unwrap();
    let h = p.header();
    receiver.receive_audio(h, p.into_audio_buffer(), TimestampMicros(1000));
    assert_eq!(receiver.stats().predict_offset(), Some(1000));
}

#[test]
fn slew_status_follows_the_rate_controller() {
    let samples = sine_second();
    let packets = encode_stream(1, &samples);
    let mut receiver = adopted_receiver(&samples);
    let mut packets = packets.into_iter();
    let p = packets.next().unwrap();
    let h = p.header();
    receiver.receive_audio(h, p.into_audio_buffer(), TimestampMicros(0));

    // get in phase first
    let mut out = vec![0u32; 480 * CHANNELS];
    let status = receiver.fill_output(Timestamp(START_PTS), &mut out);
    assert_eq!(status, StreamStatus::Sync);

    // a large playback offset engages the slew and the status follows
    let rate = receiver.apply_rate(bark::time::TimestampDelta(240));
    assert_eq!(rate, Some(48480));
    assert_eq!(receiver.stats().stream(), Some(StreamStatus::Slew));

    // in-phase consumption keeps the slewing status
    let p = packets.next().unwrap();
    let h = p.header();
    receiver.receive_audio(h, p.into_audio_buffer(), TimestampMicros(0));
    let mut out = vec![0u32; 480 * CHANNELS];
    let status = receiver.fill_output(Timestamp(START_PTS + 480), &mut out);
    assert_eq!(status, StreamStatus::Slew);

    // once the offset falls under the stop threshold the slew releases
    let rate = receiver.apply_rate(bark::time::TimestampDelta(2));
    assert_eq!(rate, None);
    assert_eq!(receiver.stats().stream(), Some(StreamStatus::Sync));

    // while seeking, the controller does not touch the status
    let mut fresh = Receiver::new(ReceiverId(8), 12);
    let _ = fresh.apply_rate(bark::time::TimestampDelta(240));
    assert_eq!(fresh.stats().stream(), None);
}
