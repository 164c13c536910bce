//! The seeded random number generator of the composition engine.
//!
//! `rand::rngs::StdRng` is a deterministic generator: everything it hands
//! out is fixed by the stream of 32-bit words it will produce from its
//! current state. That stream is what `rng_stream` names. Each draw is a
//! function of the stream and of the draw's arguments alone, and so is the
//! stream that remains after it; the declarations below name those
//! functions and state the ranges that `rand` documents.

use rand::rngs::StdRng;
use rand::{Rng, SeedableRng};
use vstd::prelude::*;

verus! {

#[verifier::external_type_specification]
#[verifier::external_body]
pub struct ExStdRng(StdRng);

/// The stream of words that a generator will produce from its current state.
pub uninterp spec fn rng_stream(rng: StdRng) -> Map<int, u32>;

/// The stream of a generator seeded with `seed` by `SeedableRng::seed_from_u64`.
pub uninterp spec fn seeded_stream(seed: u64) -> Map<int, u32>;

/// `gen_range::<u64>(0..n)` on a stream: the value drawn and the stream left.
pub uninterp spec fn index_draw(stream: Map<int, u32>, n: u64) -> (u64, Map<int, u32>);

/// `gen_range::<i32>(0..n)` on a stream: the value drawn and the stream left.
pub uninterp spec fn i32_draw(stream: Map<int, u32>, n: i32) -> (i32, Map<int, u32>);

/// `gen_range::<u8>(0..n)` on a stream: the value drawn and the stream left.
pub uninterp spec fn u8_draw(stream: Map<int, u32>, n: u8) -> (u8, Map<int, u32>);

/// `gen_range::<u32>(lo..=hi)` on a stream: the value drawn and the stream left.
pub uninterp spec fn u32_inclusive_draw(stream: Map<int, u32>, lo: u32, hi: u32) -> (
    u32,
    Map<int, u32>,
);

/// `gen_ratio(num, den)` on a stream: the outcome drawn and the stream left.
pub uninterp spec fn ratio_draw(stream: Map<int, u32>, num: u32, den: u32) -> (bool, Map<int, u32>);

/// `StdRng::seed_from_u64`: the generator's stream is the one that the seed
/// determines.
#[verifier::external_body]
pub(crate) fn seeded_rng(seed: u64) -> (rng: StdRng)
    ensures
        rng_stream(rng) == seeded_stream(seed),
{
    StdRng::seed_from_u64(seed)
}

/// `rand::random::<u64>()`: a fresh seed from the thread-local generator,
/// which the operating system seeds; nothing is stated of its value.
#[verifier::external_body]
pub(crate) fn fresh_seed() -> (seed: u64) {
    rand::random::<u64>()
}

/// `Rng::gen_range::<u64>(0..n)`, taken as a position: a value below `n`;
/// value and remaining stream are functions of the stream and `n`. The draw
/// is made over `u64` so that it is the same on every target, whatever the
/// width of `usize`. `gen_range` panics on an empty range, which `requires`
/// leaves out.
#[verifier::external_body]
pub(crate) fn gen_index(rng: &mut StdRng, n: usize) -> (r: usize)
    requires
        n > 0,
    ensures
        r < n,
        (r as u64, rng_stream(*final(rng))) == index_draw(rng_stream(*old(rng)), n as u64),
{
    rng.gen_range(0..n as u64) as usize
}

/// `Rng::gen_range::<i32>(0..n)`: a value in `0..n`; value and remaining
/// stream are functions of the stream and `n`.
#[verifier::external_body]
pub(crate) fn gen_i32_below(rng: &mut StdRng, n: i32) -> (r: i32)
    requires
        n > 0,
    ensures
        0 <= r < n,
        (r, rng_stream(*final(rng))) == i32_draw(rng_stream(*old(rng)), n),
{
    rng.gen_range(0..n)
}

/// `Rng::gen_range::<u8>(0..n)`: a value below `n`; value and remaining
/// stream are functions of the stream and `n`.
#[verifier::external_body]
pub(crate) fn gen_u8_below(rng: &mut StdRng, n: u8) -> (r: u8)
    requires
        n > 0,
    ensures
        r < n,
        (r, rng_stream(*final(rng))) == u8_draw(rng_stream(*old(rng)), n),
{
    rng.gen_range(0..n)
}

/// `Rng::gen_range::<u32>(lo..=hi)`: a value in `lo..=hi`; value and
/// remaining stream are functions of the stream, `lo` and `hi`.
#[verifier::external_body]
pub(crate) fn gen_u32_inclusive(rng: &mut StdRng, lo: u32, hi: u32) -> (r: u32)
    requires
        lo <= hi,
    ensures
        lo <= r <= hi,
        (r, rng_stream(*final(rng))) == u32_inclusive_draw(rng_stream(*old(rng)), lo, hi),
{
    rng.gen_range(lo..=hi)
}

/// `Rng::gen_ratio(num, den)`: true with chance `num` in `den`; outcome and
/// remaining stream are functions of the stream, `num` and `den`.
/// `rand` documents that `num == den` always gives true and `num == 0`
/// always gives false. `gen_ratio` panics unless `num <= den` and `den > 0`.
#[verifier::external_body]
pub(crate) fn gen_ratio(rng: &mut StdRng, num: u32, den: u32) -> (b: bool)
    requires
        num <= den,
        den > 0,
    ensures
        num == den ==> b,
        num == 0 ==> !b,
        (b, rng_stream(*final(rng))) == ratio_draw(rng_stream(*old(rng)), num, den),
{
    rng.gen_ratio(num, den)
}

} // verus!
