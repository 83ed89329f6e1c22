use vstd::prelude::*;

use rand::rngs::{OsRng, SmallRng};
use rand::{Rng, SeedableRng};

verus! {

#[verifier::external_type_specification]
#[verifier::external_body]
pub struct ExSmallRng(SmallRng);

/// Relies on `SeedableRng::seed_from_u64` for `SmallRng`: a generator whose
/// sequence depends on the seed alone.
#[verifier::external_body]
fn small_rng_from_seed(seed: u64) -> SmallRng {
    SmallRng::seed_from_u64(seed)
}

/// Relies on `SeedableRng::from_rng` for `SmallRng` over `OsRng`: a generator
/// seeded from the operating system, or `None` when the operating system
/// cannot supply the seed (an error, not a panic).
#[verifier::external_body]
fn small_rng_from_os() -> Option<SmallRng> {
    SmallRng::from_rng(OsRng).ok()
}

/// Relies on `Rng::gen_range` over `0..bound`: a value in that range; it
/// panics only on an empty range.
#[verifier::external_body]
fn gen_below(rng: &mut SmallRng, bound: u64) -> (r: u64)
    requires
        bound > 0,
    ensures
        r < bound,
{
    rng.gen_range(0..bound)
}

/// Relies on `Rng::gen_ratio`: `false` when the numerator is zero, `true`
/// when it equals the denominator; it panics when the denominator is zero or
/// smaller than the numerator.
#[verifier::external_body]
fn gen_ratio(rng: &mut SmallRng, numerator: u32, denominator: u32) -> (r: bool)
    requires
        0 < denominator,
        numerator <= denominator,
    ensures
        numerator == 0 ==> !r,
        numerator == denominator ==> r,
{
    rng.gen_ratio(numerator, denominator)
}

/// A small pseudo-random generator; seeded with `seed`, it yields the same
/// sequence on every run.
pub struct Rand {
    r: SmallRng,
    seed: Ghost<Option<u64>>,
}

impl Rand {
    /// The seed the generator was made from; `None` for one seeded by the
    /// operating system. Drawing never changes it.
    pub closed spec fn spec_seed(&self) -> Option<u64> {
        self.seed@
    }

    /// A generator seeded with `seed`.
    pub fn seed(seed: u64) -> (r: Self)
        ensures
            r.spec_seed() == Some(seed),
    {
        Rand { r: small_rng_from_seed(seed), seed: Ghost(Some(seed)) }
    }

    /// A generator seeded by the operating system; `None` when the operating
    /// system cannot supply a seed.
    pub fn new() -> (r: Option<Self>)
        ensures
            r matches Some(g) ==> g.spec_seed() is None,
    {
        match small_rng_from_os() {
            Some(r) => Some(Rand { r, seed: Ghost(None) }),
            None => None,
        }
    }

    /// One of the values of `v`.
    pub fn pick<T: Copy>(&mut self, v: &[T]) -> (r: T)
        requires
            v@.len() > 0,
        ensures
            v@.contains(r),
            final(self).spec_seed() == old(self).spec_seed(),
    {
        let i = self.pick_idx(v);
        proof {
            assert(v@[i as int] == v[i as int]);
        }
        v[i]
    }

    /// A position of `v`; zero when `v` is empty.
    pub fn pick_idx<T>(&mut self, v: &[T]) -> (r: usize)
        ensures
            final(self).spec_seed() == old(self).spec_seed(),
            v@.len() > 0 ==> r < v@.len(),
            v@.len() == 0 ==> r == 0,
    {
        let n = v.len();
        if n == 0 {
            0
        } else {
            gen_below(&mut self.r, n as u64) as usize
        }
    }

    /// A value in `min..max`; `min` itself when that range is empty.
    pub fn range_n(&mut self, min: i32, max: i32) -> (r: i32)
        ensures
            final(self).spec_seed() == old(self).spec_seed(),
            min < max ==> min <= r < max,
            min >= max ==> r == min,
    {
        if min >= max {
            min
        } else {
            let span = (max as i64 - min as i64) as u64;
            let k = gen_below(&mut self.r, span);
            (min as i64 + k as i64) as i32
        }
    }

    /// `true` with a chance of `numerator` in `denominator`; never when the
    /// numerator is zero, always when it equals the denominator.
    pub fn chance(&mut self, numerator: u32, denominator: u32) -> (r: bool)
        requires
            0 < denominator,
            numerator <= denominator,
        ensures
            final(self).spec_seed() == old(self).spec_seed(),
            numerator == 0 ==> !r,
            numerator == denominator ==> r,
    {
        gen_ratio(&mut self.r, numerator, denominator)
    }
}

} // verus!
