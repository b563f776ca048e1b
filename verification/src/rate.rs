//! Rate adjustment from a pair of instants: the real (requested) playback
//! instant against the instant actually playing. The decision itself is the
//! slew controller's; this form takes the two timestamps and measures the
//! offset between them.

use vstd::prelude::*;

use crate::protocol::SAMPLE_RATE;
use crate::slew::spec_rate_decision;
use crate::time::{Timestamp, TimestampDelta};

verus! {

/// The two instants the controller compares on each callback.
#[derive(Clone, Copy, Debug, PartialEq, Eq, Structural)]
pub struct Timing {
    /// The instant the output requested.
    pub real: Timestamp,
    /// The instant at the front of what is playing.
    pub play: Timestamp,
}

/// The rate controller keyed by timestamp pairs.
pub struct RateAdjust {
    inner: crate::slew::RateAdjust,
}

impl RateAdjust {
    pub closed spec fn spec_slew(&self) -> bool {
        self.inner.spec_slew()
    }

    pub fn new() -> (r: RateAdjust)
        ensures
            !r.spec_slew(),
    {
        RateAdjust { inner: crate::slew::RateAdjust::new() }
    }

    /// Whether a correction is in effect.
    pub fn slew(&self) -> (r: bool)
        ensures
            r == self.spec_slew(),
    {
        self.inner.slew()
    }

    /// The playback rate for one callback: the slewed rate while a
    /// correction is running, the nominal rate otherwise.
    pub fn sample_rate(&mut self, timing: Timing) -> (r: u64)
        requires
            timing.real.0 - timing.play.0 <= i64::MAX,
            timing.play.0 - timing.real.0 <= i64::MAX,
        ensures
            ({
                let decision = spec_rate_decision(
                    old(self).spec_slew(),
                    timing.real.0 - timing.play.0,
                );
                final(self).spec_slew() == decision.0 && r == (match decision.1 {
                    Some(rate) => rate,
                    None => SAMPLE_RATE,
                })
            }),
    {
        let offset: TimestampDelta = timing.real.delta(timing.play);
        match self.inner.calculate(offset) {
            Some(rate) => rate,
            None => SAMPLE_RATE,
        }
    }
}

} // verus!
