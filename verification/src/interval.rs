//! Closed interval of ray parameters, used to restrict a nearest-hit
//! search to distances that can still improve on the best hit so far.
use vstd::prelude::*;

verus! {

#[derive(Clone, Copy, Debug, PartialEq, Eq, Structural)]
pub struct Interval {
    pub min: i64,
    pub max: i64,
}

impl Interval {
    pub fn new(min: i64, max: i64) -> (r: Interval)
        ensures
            r == (Interval { min, max }),
    {
        Interval { min, max }
    }

    /// Whether a ray parameter lies inside the interval.
    pub open spec fn spec_contains(self, t: i64) -> bool {
        self.min <= t <= self.max
    }

    pub fn contains(&self, t: i64) -> (r: bool)
        ensures
            r == self.spec_contains(t),
    {
        self.min <= t && t <= self.max
    }

    /// The value, pulled into the interval at whichever end it leaves.
    pub open spec fn spec_clamp(self, t: i64) -> i64 {
        if t < self.min {
            self.min
        } else if t > self.max {
            self.max
        } else {
            t
        }
    }

    pub fn clamp(&self, t: i64) -> (r: i64)
        ensures
            r == self.spec_clamp(t),
    {
        if t < self.min {
            self.min
        } else if t > self.max {
            self.max
        } else {
            t
        }
    }
}

} // verus!
