//! The explicit source of randomness.
//!
//! Every stochastic operation draws from a `Sampler`: a tape of values
//! drawn up front, consumed left to right.  This makes each rendering
//! computation a pure function of its inputs and the tape, so the whole
//! pipeline is deterministic for a fixed tape; once the tape is exhausted
//! every further draw is zero.  `rng::fill_sampler` builds a tape from a
//! seeded generator.

use crate::fix::{clip, fma_raw, Fix, SCALE};
use vstd::prelude::*;

verus! {

/// Mathematical model of a sampler: the tape and the read position.
pub struct SamplerModel {
    pub vals: Seq<u64>,
    pub pos: int,
}

/// The value the next draw returns (zero once the tape is exhausted).
pub open spec fn s_peek(m: SamplerModel) -> u64 {
    if 0 <= m.pos < m.vals.len() {
        m.vals[m.pos]
    } else {
        0
    }
}

/// The model after one draw.
pub open spec fn s_adv(m: SamplerModel) -> SamplerModel {
    SamplerModel {
        vals: m.vals,
        pos: if 0 <= m.pos < m.vals.len() {
            m.pos + 1
        } else {
            m.pos
        },
    }
}

/// The model after `n` draws.
pub open spec fn s_adv_n(m: SamplerModel, n: nat) -> SamplerModel
    decreases n,
{
    if n == 0 {
        m
    } else {
        s_adv_n(s_adv(m), (n - 1) as nat)
    }
}

/// A raw draw folded into `[0, 1)`: the tape value modulo one million.
pub open spec fn unit_of(w: u64) -> int {
    (w % (SCALE as u64)) as int
}

/// A draw folded into `[lo, hi)` by `(hi - lo) * u + lo` with a fused rounding.
pub open spec fn ranged_of(lo: int, hi: int, w: u64) -> int {
    fma_raw(clip(hi - lo), unit_of(w), lo)
}

/// A tape of pre-drawn values, consumed left to right.
pub struct Sampler {
    vals: Vec<u64>,
    pos: usize,
}

impl View for Sampler {
    type V = SamplerModel;

    closed spec fn view(&self) -> SamplerModel {
        SamplerModel { vals: self.vals@, pos: self.pos as int }
    }
}

impl Sampler {
    #[verifier::type_invariant]
    spec fn well_formed(self) -> bool {
        self.pos <= self.vals.len()
    }

    /// Wrap a tape of drawn values.
    pub fn new(vals: Vec<u64>) -> (r: Sampler)
        ensures
            r@.vals == vals@,
            r@.pos == 0,
    {
        Sampler { vals, pos: 0 }
    }

    /// How many draws are left on the tape.
    pub fn remaining(&self) -> (r: usize)
        ensures
            r == self@.vals.len() - self@.pos,
    {
        proof {
            use_type_invariant(self);
        }
        self.vals.len() - self.pos
    }

    /// Draw the next raw tape value.
    pub fn next_u64(&mut self) -> (r: u64)
        ensures
            r == s_peek(old(self)@),
            final(self)@ == s_adv(old(self)@),
    {
        proof {
            use_type_invariant(&*self);
        }
        if self.pos < self.vals.len() {
            let v = self.vals[self.pos];
            self.pos = self.pos + 1;
            v
        } else {
            0
        }
    }

    /// Draw a value in `[0, 1)`.
    pub fn next_unit(&mut self) -> (r: Fix)
        ensures
            r@ == unit_of(s_peek(old(self)@)),
            final(self)@ == s_adv(old(self)@),
            0 <= r@ < SCALE,
    {
        let w = self.next_u64();
        let m = w % (SCALE as u64);
        Fix::from_micros(m as i64)
    }

    /// Draw a value in `[lo, hi)`: `(hi - lo) * u + lo` with a single
    /// fused rounding, `u` a fresh draw in `[0, 1)`.
    pub fn next_ranged(&mut self, lo: Fix, hi: Fix) -> (r: Fix)
        ensures
            r@ == ranged_of(lo@, hi@, s_peek(old(self)@)),
            final(self)@ == s_adv(old(self)@),
    {
        let u = self.next_unit();
        hi.sub(lo).mul_add(u, lo)
    }
}

} // verus!
