//! The seeded random source that every stochastic step draws from.
use vstd::prelude::*;
use rand::Rng;

verus! {

/// The generator from `rand` that a run owns and lends to every step.
#[verifier::external_type_specification]
#[verifier::external_body]
pub struct ExStdRng(rand::rngs::StdRng);

/// Relies on `rand::Rng::gen_range` over `0..n`: a value drawn from `[0, n)`;
/// it panics on an empty range, which `requires` leaves out.
#[verifier::external_body]
pub(crate) fn draw_below(rng: &mut rand::rngs::StdRng, n: u64) -> (r: u64)
    requires
        n > 0,
    ensures
        r < n,
{
    rng.gen_range(0..n)
}

/// A value drawn uniformly from the closed range `[lo, hi]`, which may span
/// fewer than `u64::MAX` steps.
pub fn draw_between(rng: &mut rand::rngs::StdRng, lo: i64, hi: i64) -> (r: i64)
    requires
        lo <= hi,
        hi - lo < u64::MAX,
    ensures
        lo <= r <= hi,
{
    let width: u64 = (hi as i128 - lo as i128) as u64;
    let d = draw_below(rng, width + 1);
    (lo as i128 + d as i128) as i64
}

} // verus!

verus! {

/// Relies on `rand::SeedableRng::seed_from_u64`: a generator whose stream is
/// fixed by `seed`. Nothing about the stream is stated.
#[verifier::external_body]
pub(crate) fn seeded(seed: u64) -> (r: rand::rngs::StdRng) {
    <rand::rngs::StdRng as rand::SeedableRng>::seed_from_u64(seed)
}

} // verus!
