//! The per-module heading filter: it prefers reversing a wheel over turning
//! it by more than a quarter turn.
use vstd::prelude::*;
use crate::angle::{angular_delta, delta, distance, opposite, wrap, HALF_TURN, QUARTER_TURN};

verus! {

/// What one module does: a signed speed along a heading. A negative speed
/// means that the wheel's contact point moves against the heading.
#[derive(Clone, Copy, Debug, PartialEq, Eq, Structural)]
pub struct ModuleState {
    /// Signed speed in micrometres per second.
    pub speed: i64,
    /// Steer heading in microdegrees, not necessarily normalized.
    pub heading: i64,
}

/// Whether an observation that lies `d` away from the last commanded heading
/// is reported reversed. Exactly a quarter turn is not.
pub open spec fn flips(d: int) -> bool {
    d > QUARTER_TURN || d < -QUARTER_TURN
}

/// What the filter reports for `observed` when the last commanded heading is
/// `last`: the heading first, then the speed.
pub open spec fn adjust(last: int, observed: ModuleState) -> (int, int) {
    if flips(delta(last, observed.heading as int)) {
        (wrap(observed.heading as int + HALF_TURN), -(observed.speed as int))
    } else {
        (observed.heading as int, observed.speed as int)
    }
}

/// The continuity filter of one module. It remembers the heading it reported
/// last; every call of `optimize` advances that memory.
#[derive(Debug)]
pub struct ModuleHeadingOptimizer {
    last_commanded_heading: i64,
}

impl ModuleHeadingOptimizer {
    /// The heading reported by the latest call, or the initial one.
    pub closed spec fn last(&self) -> int {
        self.last_commanded_heading as int
    }

    /// A filter whose memory starts at heading zero.
    pub fn new() -> (r: Self)
        ensures
            r.last() == 0,
    {
        ModuleHeadingOptimizer { last_commanded_heading: 0 }
    }

    /// A filter whose memory starts at `heading`.
    pub fn with_heading(heading: i64) -> (r: Self)
        ensures
            r.last() == heading,
    {
        ModuleHeadingOptimizer { last_commanded_heading: heading }
    }

    /// The heading reported by the latest call, or the initial one.
    pub fn last_commanded_heading(&self) -> (h: i64)
        ensures
            h == self.last(),
    {
        self.last_commanded_heading
    }

    /// Reports `observed` unchanged when it lies within a quarter turn of the
    /// last commanded heading (a quarter turn exactly included), and otherwise
    /// as the opposite heading, normalized, with the speed negated. The
    /// reported heading becomes the last commanded one.
    ///
    /// The most negative speed has no negation in 64 bits and is left out.
    pub fn optimize(&mut self, observed: ModuleState) -> (adjusted: ModuleState)
        requires
            observed.speed > i64::MIN,
        ensures
            (adjusted.heading as int, adjusted.speed as int) == adjust(old(self).last(), observed),
            final(self).last() == adjusted.heading,
            distance(old(self).last(), adjusted.heading as int) <= QUARTER_TURN,
    {
        let d: i64 = angular_delta(self.last_commanded_heading, observed.heading);
        let adjusted = if d > QUARTER_TURN || d < -QUARTER_TURN {
            ModuleState { speed: -observed.speed, heading: opposite(observed.heading) }
        } else {
            observed
        };
        self.last_commanded_heading = adjusted.heading;
        adjusted
    }
}

} // verus!
