//! Time primitives: sample-counted timestamps and durations.
//!
//! A timestamp is an unsigned frame counter on a monotonic clock; a sample
//! duration is a count of frames; a timestamp delta is a signed count of
//! frames. Wire values are microseconds since an arbitrary but stable epoch;
//! the conversions are lossy below one microsecond, and all arithmetic
//! internal to the receiver stays in frames, which is exact.

use vstd::prelude::*;

use crate::protocol::{CHANNELS, FRAMES_PER_PACKET, MICROS_PER_SECOND, SAMPLE_RATE};

verus! {

/// Truncating division (rounds toward zero), the behaviour of `/` on the
/// machine's signed integers, for a positive divisor.
pub open spec fn div_trunc(x: int, d: int) -> int
    recommends
        d > 0,
{
    if x >= 0 {
        x / d
    } else {
        -((-x) / d)
    }
}

/// Microseconds since an arbitrary but stable epoch: the wire form of an
/// instant.
#[derive(Clone, Copy, Debug, PartialEq, Eq, Structural)]
pub struct TimestampMicros(pub u64);

/// An instant as a monotonic frame counter at the fixed sample rate.
#[derive(Clone, Copy, Debug, PartialEq, Eq, Structural)]
pub struct Timestamp(pub u64);

/// A length of audio as a count of frames.
#[derive(Clone, Copy, Debug, PartialEq, Eq, Structural)]
pub struct SampleDuration(pub u64);

/// A signed difference of two timestamps, in frames.
#[derive(Clone, Copy, Debug, PartialEq, Eq, Structural)]
pub struct TimestampDelta(pub i64);

/// A signed source-to-receiver clock offset, in microseconds. Positive
/// means the receiver clock is ahead of the source clock.
#[derive(Clone, Copy, Debug, PartialEq, Eq, Structural)]
pub struct ClockDelta(pub i64);

impl Timestamp {
    pub fn zero() -> (r: Timestamp)
        ensures
            r.0 == 0,
    {
        Timestamp(0)
    }

    /// The frame counter standing for a wire instant, rounded down to the
    /// nearest whole frame.
    pub fn from_micros_lossy(micros: TimestampMicros) -> (r: Timestamp)
        requires
            micros.0 * SAMPLE_RATE <= u64::MAX,
        ensures
            r.0 == micros.0 * SAMPLE_RATE / (MICROS_PER_SECOND as int),
    {
        Timestamp(micros.0 * SAMPLE_RATE / MICROS_PER_SECOND)
    }

    /// The wire instant of this frame counter, rounded down to the nearest
    /// whole microsecond.
    pub fn to_micros_lossy(self) -> (r: TimestampMicros)
        requires
            self.0 * MICROS_PER_SECOND <= u64::MAX,
        ensures
            r.0 == self.0 * MICROS_PER_SECOND / (SAMPLE_RATE as int),
    {
        TimestampMicros(self.0 * MICROS_PER_SECOND / SAMPLE_RATE)
    }

    /// The instant one duration later.
    pub fn add_duration(self, d: SampleDuration) -> (r: Timestamp)
        requires
            self.0 + d.0 <= u64::MAX,
        ensures
            r.0 == self.0 + d.0,
    {
        Timestamp(self.0 + d.0)
    }

    /// Frames elapsed since an earlier instant.
    pub fn duration_since(self, earlier: Timestamp) -> (r: SampleDuration)
        requires
            earlier.0 <= self.0,
        ensures
            r.0 == self.0 - earlier.0,
    {
        SampleDuration(self.0 - earlier.0)
    }

    /// The signed difference `self - other`, in frames.
    pub fn delta(self, other: Timestamp) -> (r: TimestampDelta)
        requires
            self.0 - other.0 <= i64::MAX,
            other.0 - self.0 <= i64::MAX,
        ensures
            r.0 == self.0 - other.0,
    {
        if self.0 >= other.0 {
            TimestampDelta((self.0 - other.0) as i64)
        } else {
            TimestampDelta(-((other.0 - self.0) as i64))
        }
    }

    /// The instant shifted by a signed delta.
    pub fn adjust(self, d: TimestampDelta) -> (r: Timestamp)
        requires
            0 <= self.0 + d.0,
            self.0 + d.0 <= u64::MAX,
        ensures
            r.0 == self.0 + d.0,
    {
        if d.0 >= 0 {
            Timestamp(self.0 + (d.0 as u64))
        } else {
            let magnitude: u64 = (-(d.0 as i128)) as u64;
            Timestamp(self.0 - magnitude)
        }
    }
}

impl SampleDuration {
    pub fn zero() -> (r: SampleDuration)
        ensures
            r.0 == 0,
    {
        SampleDuration(0)
    }

    /// The duration of exactly one audio packet.
    pub fn one_packet() -> (r: SampleDuration)
        ensures
            r.0 == FRAMES_PER_PACKET,
    {
        SampleDuration(FRAMES_PER_PACKET as u64)
    }

    pub fn is_zero(self) -> (r: bool)
        ensures
            r == (self.0 == 0),
    {
        self.0 == 0
    }

    /// The duration of a whole-frame interleaved sample buffer of the given
    /// length.
    pub fn from_buffer_offset(offset: usize) -> (r: SampleDuration)
        requires
            offset % CHANNELS == 0,
        ensures
            r.0 == offset as int / CHANNELS as int,
            r.0 * CHANNELS == offset,
    {
        SampleDuration((offset / CHANNELS) as u64)
    }

    /// The length of the interleaved sample buffer holding this duration.
    pub fn as_buffer_offset(self) -> (r: usize)
        requires
            self.0 * CHANNELS <= usize::MAX,
        ensures
            r == self.0 * CHANNELS,
    {
        (self.0 as usize) * CHANNELS
    }

    /// The duration standing for a wire value in microseconds, rounded down
    /// to the nearest whole frame.
    pub fn from_micros_lossy(micros: u64) -> (r: SampleDuration)
        requires
            micros * SAMPLE_RATE <= u64::MAX,
        ensures
            r.0 == micros * SAMPLE_RATE / (MICROS_PER_SECOND as int),
    {
        SampleDuration(micros * SAMPLE_RATE / MICROS_PER_SECOND)
    }

    /// This duration in microseconds, rounded down.
    pub fn as_micros_lossy(self) -> (r: u64)
        requires
            self.0 * MICROS_PER_SECOND <= u64::MAX,
        ensures
            r == self.0 * MICROS_PER_SECOND / (SAMPLE_RATE as int),
    {
        self.0 * MICROS_PER_SECOND / SAMPLE_RATE
    }

    pub fn plus(self, other: SampleDuration) -> (r: SampleDuration)
        requires
            self.0 + other.0 <= u64::MAX,
        ensures
            r.0 == self.0 + other.0,
    {
        SampleDuration(self.0 + other.0)
    }

    pub fn minus(self, other: SampleDuration) -> (r: SampleDuration)
        requires
            other.0 <= self.0,
        ensures
            r.0 == self.0 - other.0,
    {
        SampleDuration(self.0 - other.0)
    }
}

impl TimestampDelta {
    pub fn zero() -> (r: TimestampDelta)
        ensures
            r.0 == 0,
    {
        TimestampDelta(0)
    }

    /// The magnitude of this delta as an unsigned duration.
    pub fn abs(self) -> (r: SampleDuration)
        ensures
            r.0 == if self.0 >= 0 {
                self.0 as int
            } else {
                -(self.0 as int)
            },
    {
        if self.0 >= 0 {
            SampleDuration(self.0 as u64)
        } else {
            SampleDuration((-(self.0 as i128)) as u64)
        }
    }

    /// This delta as a signed frame count.
    pub fn as_frames(self) -> (r: i64)
        ensures
            r == self.0,
    {
        self.0
    }

    /// The frame delta standing for a clock offset in microseconds, rounded
    /// toward zero to a whole frame.
    pub fn from_clock_delta_lossy(delta: ClockDelta) -> (r: TimestampDelta)
        ensures
            r.0 == div_trunc(delta.0 * SAMPLE_RATE, MICROS_PER_SECOND as int),
    {
        let micros: i128 = delta.0 as i128;
        if micros >= 0 {
            TimestampDelta((micros * (SAMPLE_RATE as i128) / (MICROS_PER_SECOND as i128)) as i64)
        } else {
            let magnitude: i128 = -micros;
            assert(0 < magnitude <= 0x8000_0000_0000_0000);
            let frames: i128 = magnitude * (SAMPLE_RATE as i128) / (MICROS_PER_SECOND as i128);
            assert(0 <= frames <= magnitude * (SAMPLE_RATE as int));
            TimestampDelta((-frames) as i64)
        }
    }
}

impl ClockDelta {
    pub fn zero() -> (r: ClockDelta)
        ensures
            r.0 == 0,
    {
        ClockDelta(0)
    }

    /// This offset in microseconds.
    pub fn as_micros(self) -> (r: i64)
        ensures
            r == self.0,
    {
        self.0
    }
}

} // verus!
