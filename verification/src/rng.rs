//! The bridge to the `fastrand` generator.
//!
//! The verified code never touches generator state directly: it fills a
//! `Sampler` tape through the two trusted wrappers below and computes from
//! the tape.

use crate::sampler::Sampler;
use vstd::prelude::*;

verus! {

#[verifier::external_type_specification]
#[verifier::external_body]
pub struct ExRng(fastrand::Rng);

/// Relies on fastrand::Rng::with_seed: builds a generator from a seed.
/// Nothing is assumed of the values it will produce.
#[verifier::external_body]
pub fn rng_with_seed(seed: u64) -> fastrand::Rng {
    fastrand::Rng::with_seed(seed)
}

/// Relies on fastrand::Rng::u64: a draw from `0..n` stays below `n`
/// (`n` must be positive: the call panics on an empty range).
#[verifier::external_body]
pub fn rng_u64_below(rng: &mut fastrand::Rng, n: u64) -> (r: u64)
    requires
        n > 0,
    ensures
        r < n,
{
    rng.u64(0..n)
}

/// Fill a sampler tape with `count` draws in `[0, 1)` scaled to millionths.
pub fn fill_sampler(rng: &mut fastrand::Rng, count: usize) -> (r: Sampler)
    ensures
        r@.pos == 0,
        r@.vals.len() == count,
        forall|i: int| 0 <= i < count ==> #[trigger] r@.vals[i] < 1_000_000,
{
    let mut vals: Vec<u64> = Vec::new();
    let mut k: usize = 0;
    while k < count
        invariant
            k <= count,
            vals@.len() == k,
            forall|i: int| 0 <= i < k ==> #[trigger] vals@[i] < 1_000_000,
        decreases count - k,
    {
        let w = rng_u64_below(rng, 1_000_000);
        vals.push(w);
        k = k + 1;
    }
    Sampler::new(vals)
}

} // verus!
