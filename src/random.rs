//! The random source: a seeded `SmallRng` of the `rand` crate, with a record
//! of the draws made from it, in order.

use rand::distr::{Distribution, Uniform};
use rand::rngs::SmallRng;
use rand::seq::IndexedRandom;
use rand::SeedableRng;
use vstd::prelude::*;

verus! {

#[verifier::external_type_specification]
#[verifier::external_body]
pub struct ExSmallRng(SmallRng);

/// Relies on `rand::random::<u64>`: a value from the thread-local,
/// entropy-seeded generator. Nothing is known of it.
#[verifier::external_body]
fn entropy_seed() -> u64 {
    rand::random::<u64>()
}

/// Relies on `SeedableRng::seed_from_u64` for `SmallRng`: a generator whose
/// stream is fixed by `seed`.
#[verifier::external_body]
fn seeded_rng(seed: u64) -> SmallRng {
    SmallRng::seed_from_u64(seed)
}

/// Relies on `Uniform::new_inclusive`, which fails only when `lo > hi`, and on
/// `Distribution::sample` of the resulting `Uniform<usize>`: one value of
/// `lo..=hi`.
#[verifier::external_body]
fn sample_inclusive(rng: &mut SmallRng, lo: usize, hi: usize) -> (r: usize)
    requires
        lo <= hi,
    ensures
        lo <= r <= hi,
{
    Uniform::new_inclusive(lo, hi).unwrap().sample(rng)
}

/// Relies on `IndexedRandom::choose`, which returns `None` only on an empty
/// slice: one element of `options`.
#[verifier::external_body]
fn choose_one(rng: &mut SmallRng, options: &[u8]) -> (r: u8)
    requires
        options@.len() > 0,
    ensures
        options@.contains(r),
{
    *options.choose(rng).unwrap()
}

/// Relies on `IndexedRandom::choose_iter`, which returns `None` only on an
/// empty slice and otherwise endlessly samples `options` with replacement:
/// the first `count` samples.
#[verifier::external_body]
fn choose_many(rng: &mut SmallRng, options: &[u8], count: usize) -> (r: Vec<u8>)
    requires
        options@.len() > 0,
    ensures
        r@.len() == count,
        forall|i: int| 0 <= i < count ==> options@.contains(#[trigger] r@[i]),
{
    options.choose_iter(rng).unwrap().take(count).copied().collect()
}

/// The given seed, or a fresh one from the entropy-seeded generator.
pub fn seed_or_random(seed: Option<u64>) -> (r: u64)
    ensures
        seed matches Some(v) ==> r == v,
{
    match seed {
        Some(v) => v,
        None => entropy_seed(),
    }
}

/// One draw: a value of `lo..=hi`, or for a pick among `k` options, an index
/// of `0..=k - 1`.
pub type Draw = (int, int);

/// `count` picks among `k` options.
pub open spec fn picks(count: nat, k: int) -> Seq<Draw> {
    Seq::new(count, |i: int| (0, k - 1))
}

/// A seeded random stream, owned by one generation run.
pub struct RandomSource {
    rng: SmallRng,
    draws: Ghost<Seq<Draw>>,
}

impl RandomSource {
    /// The draws made so far, oldest first.
    pub closed spec fn history(&self) -> Seq<Draw> {
        self.draws@
    }

    /// A stream fixed by `seed`, with nothing drawn yet.
    pub fn from_seed(seed: u64) -> (r: Self)
        ensures
            r.history() == Seq::<Draw>::empty(),
    {
        RandomSource { rng: seeded_rng(seed), draws: Ghost(Seq::empty()) }
    }

    /// Draws a value of `lo..=hi`.
    pub fn draw_inclusive(&mut self, lo: usize, hi: usize) -> (r: usize)
        requires
            lo <= hi,
        ensures
            lo <= r <= hi,
            final(self).history() == old(self).history().push((lo as int, hi as int)),
    {
        let r = sample_inclusive(&mut self.rng, lo, hi);
        self.draws = Ghost(self.draws@.push((lo as int, hi as int)));
        r
    }

    /// Picks one of `options`.
    pub fn pick(&mut self, options: &[u8]) -> (r: u8)
        requires
            options@.len() > 0,
        ensures
            options@.contains(r),
            final(self).history() == old(self).history() + picks(1, options@.len() as int),
    {
        let r = choose_one(&mut self.rng, options);
        self.draws = Ghost(self.draws@ + picks(1, options@.len() as int));
        r
    }

    /// Picks `count` of `options` one after another, with replacement.
    pub fn pick_many(&mut self, options: &[u8], count: usize) -> (r: Vec<u8>)
        requires
            options@.len() > 0,
        ensures
            r@.len() == count,
            forall|i: int| 0 <= i < count ==> options@.contains(#[trigger] r@[i]),
            final(self).history() == old(self).history() + picks(count as nat, options@.len() as int),
    {
        let r = choose_many(&mut self.rng, options, count);
        self.draws = Ghost(self.draws@ + picks(count as nat, options@.len() as int));
        r
    }
}

} // verus!
