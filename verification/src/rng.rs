//! A small deterministic pseudo-random source. Every draw is a pure
//! function of the state, so callers' contracts can say exactly what
//! came out; each rendering thread owns its own state, which keeps
//! concurrent sampling safe without coordination.
use vstd::prelude::*;

verus! {

use crate::UNIT;

/// Xorshift state; never zero.
#[derive(Clone, Copy, Debug, PartialEq, Eq, Structural)]
pub struct RngState {
    pub s: u64,
}

/// One xorshift step.
pub open spec fn spec_step(s: u64) -> u64 {
    let a = s ^ (s << 13u64);
    let b = a ^ (a >> 7u64);
    b ^ (b << 17u64)
}

/// A unit draw: the low bits of the stepped state, in `[0, UNIT)`.
pub open spec fn spec_unit_draw(s: u64) -> i64 {
    (spec_step(s) % (UNIT as u64)) as i64
}

impl RngState {
    /// Seeds the generator; a zero seed is replaced, because zero is
    /// a fixed point of the step function.
    pub fn new(seed: u64) -> (r: RngState)
        ensures
            r.s == (if seed == 0 { 0x9e3779b97f4a7c15u64 } else { seed }),
    {
        if seed == 0 {
            RngState { s: 0x9e3779b97f4a7c15u64 }
        } else {
            RngState { s: seed }
        }
    }

    pub fn next_u64(&mut self) -> (r: u64)
        ensures
            final(self).s == spec_step(old(self).s),
            r == spec_step(old(self).s),
    {
        let mut x = self.s;
        x = x ^ (x << 13u64);
        x = x ^ (x >> 7u64);
        x = x ^ (x << 17u64);
        self.s = x;
        x
    }

    /// A fixed-point draw in `[0, UNIT)`.
    pub fn next_unit(&mut self) -> (r: i64)
        ensures
            final(self).s == spec_step(old(self).s),
            r == spec_unit_draw(old(self).s),
            0 <= r < UNIT,
    {
        let x = self.next_u64();
        (x % (UNIT as u64)) as i64
    }

    /// A fair coin: whether the next unit draw lands in the lower
    /// half.
    pub fn coin(&mut self) -> (r: bool)
        ensures
            final(self).s == spec_step(old(self).s),
            r == (spec_unit_draw(old(self).s) < UNIT / 2),
    {
        let u = self.next_unit();
        u < UNIT / 2
    }
}

} // verus!
