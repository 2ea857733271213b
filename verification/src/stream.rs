//! The random stream: the only place where the simulation meets the `rand`
//! and `rand_pcg` crates.
//!
//! The generator is a PCG-64 (`rand_pcg::Lcg128Xsl64`). Nothing in this module
//! is proved: each function below makes one call into those crates and states
//! what comes back, as far as their source shows it. What a draw returns is
//! written as a function of the generator's state before the draw, so that
//! everything built on the draws is a function of the starting state.

use rand::distributions::Bernoulli;
use rand::distributions::Distribution;
use rand::seq::SliceRandom;
use rand::Rng;
use rand::SeedableRng;
use rand_pcg::Lcg128Xsl64;
use vstd::prelude::*;

verus! {

/// `rand_pcg::Lcg128Xsl64`, the PCG-64 generator. Its two fields, the state of
/// the congruential generator and the stream's increment, are private.
#[verifier::external_type_specification]
#[verifier::external_body]
pub struct ExLcg128Xsl64(Lcg128Xsl64);

/// `rand::distributions::Bernoulli`, a coin with a fixed weight.
#[verifier::external_type_specification]
#[verifier::external_body]
pub struct ExBernoulli(Bernoulli);

/// What a generator holds: its 128-bit state and its 128-bit increment. Two
/// generators with the same pair produce the same draws.
pub uninterp spec fn generator_state(rng: Lcg128Xsl64) -> (u128, u128);

/// The state that `seed_from_u64` gives a fresh generator.
pub uninterp spec fn seeded_state(seed: u64) -> (u128, u128);

/// What `gen_range(0..bound)` draws from a generator in `state`, and the state
/// it leaves the generator in.
pub uninterp spec fn range_draw(state: (u128, u128), bound: u32) -> (u32, (u128, u128));

/// The weight a coin holds, as the 64-bit threshold it was built with.
pub uninterp spec fn coin_threshold(coin: Bernoulli) -> u64;

/// The threshold that `Bernoulli::from_ratio` computes for a ratio.
pub uninterp spec fn ratio_threshold(numerator: u32, denominator: u32) -> u64;

/// How a coin with the given threshold falls when tossed with a generator in
/// `state`, and the state the toss leaves the generator in.
pub uninterp spec fn coin_toss(state: (u128, u128), threshold: u64) -> (bool, (u128, u128));

/// The position that `choose` picks in a slice of `len` items with a generator
/// in `state`, and the state the choice leaves the generator in.
pub uninterp spec fn choice_draw(state: (u128, u128), len: nat) -> (nat, (u128, u128));

/// `Lcg128Xsl64::seed_from_u64`: a generator whose state is determined by the
/// seed alone.
#[verifier::external_body]
pub(crate) fn seeded_generator(seed: u64) -> (rng: Lcg128Xsl64)
    ensures
        generator_state(rng) == seeded_state(seed),
{
    Lcg128Xsl64::seed_from_u64(seed)
}

/// `Rng::gen_range` on `0..bound`: a number below `bound`, determined by the
/// generator's state and the bound. The call panics on an empty range, so the
/// bound is positive.
#[verifier::external_body]
pub(crate) fn uniform_below(rng: &mut Lcg128Xsl64, bound: u32) -> (drawn: u32)
    requires
        bound > 0,
    ensures
        drawn < bound,
        drawn == range_draw(generator_state(*old(rng)), bound).0,
        generator_state(*final(rng)) == range_draw(generator_state(*old(rng)), bound).1,
{
    rng.gen_range(0..bound)
}

/// `Bernoulli::from_ratio`: a coin for the ratio, or nothing where the crate
/// returns its error, which it does exactly when the numerator exceeds the
/// denominator or the denominator is zero. The coin's threshold is determined
/// by the ratio, and it is zero for the numerator zero.
#[verifier::external_body]
pub(crate) fn coin_from_ratio(numerator: u32, denominator: u32) -> (coin: Option<Bernoulli>)
    ensures
        coin.is_some() == (numerator <= denominator && denominator != 0),
        coin matches Some(c) ==> coin_threshold(c) == ratio_threshold(numerator, denominator),
        coin matches Some(c) ==> numerator == 0 ==> coin_threshold(c) == 0,
{
    Bernoulli::from_ratio(numerator, denominator).ok()
}

/// `Bernoulli::sample`: one toss of the coin, determined by the coin's
/// threshold and the generator's state. A coin with the threshold zero never
/// hits.
#[verifier::external_body]
pub(crate) fn toss(coin: &Bernoulli, rng: &mut Lcg128Xsl64) -> (hit: bool)
    ensures
        hit == coin_toss(generator_state(*old(rng)), coin_threshold(*coin)).0,
        hit ==> coin_threshold(*coin) != 0,
        generator_state(*final(rng)) == coin_toss(
            generator_state(*old(rng)),
            coin_threshold(*coin),
        ).1,
{
    coin.sample(rng)
}

/// `SliceRandom::choose` on the items of a vector: nothing from an empty
/// vector, which leaves the generator as it was; else the item at a position
/// below the length, determined by the generator's state and the length.
#[verifier::external_body]
pub(crate) fn pick<'a, T>(items: &'a Vec<T>, rng: &mut Lcg128Xsl64) -> (chosen: Option<&'a T>)
    ensures
        chosen.is_none() == (items@.len() == 0),
        chosen matches Some(item) ==> {
            &&& choice_draw(generator_state(*old(rng)), items@.len()).0 < items@.len()
            &&& *item == items@[choice_draw(generator_state(*old(rng)), items@.len()).0 as int]
        },
        generator_state(*final(rng)) == (if items@.len() == 0 {
            generator_state(*old(rng))
        } else {
            choice_draw(generator_state(*old(rng)), items@.len()).1
        }),
{
    items.choose(rng)
}

} // verus!
