//! The slew rate controller: from the current playback offset, choose a
//! fractional input rate that nudges playback into alignment without an
//! audible discontinuity.
//!
//! Below the stop threshold the controller is idle and playback runs at the
//! nominal rate. Once the offset passes the start threshold the slew flag
//! is set and the rate is offset so the error would drain over the slew
//! window; the flag keeps the correction running until the offset falls
//! back under the stop threshold (hysteresis). The rate is clamped: slow
//! down by at most two percent, speed up by at most a factor of two.

use vstd::prelude::*;

use crate::protocol::SAMPLE_RATE;
use crate::time::TimestampDelta;

verus! {

/// Offset magnitude that engages the slew, in microseconds.
pub const START_SLEW_MICROS: u64 = 2000;

/// Offset magnitude that releases the slew, in microseconds.
pub const STOP_SLEW_MICROS: u64 = 100;

/// Time the correction would take to drain the offset, in microseconds.
pub const SLEW_WINDOW_MICROS: u64 = 500_000;

/// `START_SLEW_MICROS` as whole frames (rounded down, as every microsecond
/// threshold is).
pub const START_SLEW_FRAMES: u64 = 96;

/// `STOP_SLEW_MICROS` as whole frames (rounded down).
pub const STOP_SLEW_FRAMES: u64 = 4;

/// The slowest playback rate the controller will command: two percent
/// under nominal.
pub const MIN_PLAYBACK_RATE: u64 = 47040;

/// The fastest playback rate the controller will command: twice nominal.
pub const MAX_PLAYBACK_RATE: u64 = 96000;

/// The frame thresholds are the microsecond parameters, converted.
pub proof fn lemma_slew_thresholds()
    ensures
        START_SLEW_FRAMES == START_SLEW_MICROS * SAMPLE_RATE / (crate::protocol::MICROS_PER_SECOND
            as int),
        STOP_SLEW_FRAMES == STOP_SLEW_MICROS * SAMPLE_RATE / (crate::protocol::MICROS_PER_SECOND
            as int),
        MIN_PLAYBACK_RATE == SAMPLE_RATE * 98 / 100,
        MAX_PLAYBACK_RATE == SAMPLE_RATE * 2,
{
}

/// A failure of the resampler that performs the commanded rate; rare and
/// treated as fatal by the session.
#[derive(Clone, Copy, Debug, PartialEq, Eq, Structural)]
pub enum SlewError {
    /// The commanded ratio was refused by the resampler.
    RatioOutOfRange,
}

/// The magnitude of a signed frame offset.
pub open spec fn spec_abs_frames(offset: int) -> int {
    if offset >= 0 {
        offset
    } else {
        -offset
    }
}

/// The rate commanded while slewing: nominal plus the offset drained over
/// the slew window, clamped. Over a half-second window every offset frame
/// adds exactly two frames per second to the rate.
pub open spec fn spec_slew_rate(offset: int) -> int {
    let raw = SAMPLE_RATE + 2 * offset;
    if raw < MIN_PLAYBACK_RATE {
        MIN_PLAYBACK_RATE as int
    } else if raw > MAX_PLAYBACK_RATE {
        MAX_PLAYBACK_RATE as int
    } else {
        raw
    }
}

/// One step of the controller: from the slew flag and the offset, the flag
/// after and the commanded rate (nothing means nominal).
pub open spec fn spec_rate_decision(slewing: bool, offset: int) -> (bool, Option<u64>) {
    if spec_abs_frames(offset) < STOP_SLEW_FRAMES {
        (false, None)
    } else if spec_abs_frames(offset) < START_SLEW_FRAMES && !slewing {
        (slewing, None)
    } else {
        (true, Some(spec_slew_rate(offset) as u64))
    }
}

/// While the controller is idle, an offset under the start threshold never
/// engages the slew, and playback stays at the nominal rate.
pub proof fn lemma_slew_hysteresis(offset: int)
    requires
        spec_abs_frames(offset) < START_SLEW_FRAMES,
    ensures
        !spec_rate_decision(false, offset).0,
        spec_rate_decision(false, offset).1 is None,
{
}

/// Whatever the offset, a commanded rate never leaves the clamp range:
/// at most twice nominal, at least two percent under nominal.
pub proof fn lemma_slew_rate_clamped(slewing: bool, offset: int)
    ensures
        (match spec_rate_decision(slewing, offset).1 {
            Some(rate) => MIN_PLAYBACK_RATE <= rate <= MAX_PLAYBACK_RATE,
            None => true,
        }),
{
}

/// Once the offset falls under the stop threshold the slew disengages,
/// whatever it was doing.
pub proof fn lemma_slew_release(slewing: bool, offset: int)
    requires
        spec_abs_frames(offset) < STOP_SLEW_FRAMES,
    ensures
        !spec_rate_decision(slewing, offset).0,
        spec_rate_decision(slewing, offset).1 is None,
{
}

/// The rate controller: the slew flag is its whole state.
pub struct RateAdjust {
    slew: bool,
}

impl RateAdjust {
    pub closed spec fn spec_slew(&self) -> bool {
        self.slew
    }

    pub fn new() -> (r: RateAdjust)
        ensures
            !r.spec_slew(),
    {
        RateAdjust { slew: false }
    }

    /// Whether a correction is in effect.
    pub fn slew(&self) -> (r: bool)
        ensures
            r == self.spec_slew(),
    {
        self.slew
    }

    /// One step of the controller. Nothing means play at the nominal rate.
    pub fn calculate(&mut self, offset: TimestampDelta) -> (r: Option<u64>)
        ensures
            (final(self).spec_slew(), r) == spec_rate_decision(
                old(self).spec_slew(),
                offset.0 as int,
            ),
    {
        let magnitude: u64 = offset.abs().0;
        if magnitude < STOP_SLEW_FRAMES {
            self.slew = false;
            return None;
        }
        if magnitude < START_SLEW_FRAMES && !self.slew {
            return None;
        }
        let raw: i128 = (SAMPLE_RATE as i128) + 2 * (offset.0 as i128);
        let rate: u64 = if raw < MIN_PLAYBACK_RATE as i128 {
            MIN_PLAYBACK_RATE
        } else if raw > MAX_PLAYBACK_RATE as i128 {
            MAX_PLAYBACK_RATE
        } else {
            raw as u64
        };
        self.slew = true;
        Some(rate)
    }
}

} // verus!
