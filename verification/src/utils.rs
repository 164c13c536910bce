//! Utility functions.

use core::cmp::Ordering;
use rand::rngs::StdRng;
use vstd::prelude::*;
use vstd::std_specs::cmp::PartialOrdSpec;

use crate::random::{fresh_seed, rng_stream, seeded_rng, seeded_stream};

verus! {

/// MIDI ticks per quarter note.
pub const TICKS_PER_BEAT: u32 = 480;

// Tick times follow beat positions held as single-precision numbers: a
// position of `b` beats is `b * 480` ticks. That product is the exact
// integer when it is representable, that is when its odd part times a
// power of two fits in 24 bits. The bounds below are the lengths up to
// which every tick time that a generator computes is exact; within them the
// contracts state those exact integers, far below `u32::MAX`.

/// The longest melody, in beats. Melody notes start at quarter-beat
/// positions `k / 4` before the tune's end, at `120 * k` ticks, exact while
/// `15 * k < 2^24`: for every `k` below `4 * 279,620`.
pub const MELODY_MAX_BEATS: u32 = 279620;

/// The longest drum part, in beats. Drum hits fall on every beat `b` and
/// its off-beat, at `240 * (2 * b + 1)` ticks, exact while
/// `15 * (2 * b + 1) < 2^24`: for every beat `b` up to 559,240.
pub const DRUM_MAX_BEATS: u32 = 559241;

/// The latest beat at which a bass note may start: bass notes start on
/// whole beats `b`, at `480 * b` ticks, exact while `15 * b < 2^24`.
pub const BASS_LAST_BEAT: u32 = 1118481;

/// The longest tune, in beats, that the composition engine takes: the
/// smallest of the bounds above, which is the melody's.
pub const MAX_BEATS: u32 = MELODY_MAX_BEATS;

/// Create a seeded RNG from an optional seed; without one, a fresh seed is
/// drawn.
pub fn create_rng(seed: Option<u64>) -> (rng: StdRng)
    ensures
        seed matches Some(s) ==> rng_stream(rng) == seeded_stream(s),
        exists|s: u64| rng_stream(rng) == seeded_stream(s),
{
    match seed {
        Some(s) => seeded_rng(s),
        None => {
            let s = fresh_seed();
            seeded_rng(s)
        },
    }
}

/// What `clamp` returns for a type whose comparison follows its
/// specification.
pub open spec fn spec_clamp<T: PartialOrd>(value: T, min: T, max: T) -> T {
    if value.partial_cmp_spec(&min) == Some(Ordering::Less) {
        min
    } else if value.partial_cmp_spec(&max) == Some(Ordering::Greater) {
        max
    } else {
        value
    }
}

/// Clamp a value between `min` and `max`: `min` when it is below `min`,
/// else `max` when it is above `max`, else the value itself.
pub fn clamp<T: PartialOrd>(value: T, min: T, max: T) -> (r: T)
    ensures
        r == value || r == min || r == max,
        T::obeys_partial_cmp_spec() ==> r == spec_clamp(value, min, max),
{
    if value < min {
        min
    } else if value > max {
        max
    } else {
        value
    }
}


/// For any type whose comparison of `min` and `max` is that of an order
/// (each equals itself, `min` is not above `max`, and `max` is not below
/// `min`), `clamp` lands between `min` and `max`, keeps a value that lies
/// there, gives `min` for a value below it and `max` for one above, and
/// clamping again changes nothing.
pub proof fn lemma_clamp_law<T: PartialOrd>(value: T, min: T, max: T)
    requires
        min.partial_cmp_spec(&min) == Some(Ordering::Equal),
        max.partial_cmp_spec(&max) == Some(Ordering::Equal),
        min.partial_cmp_spec(&max) matches Some(Ordering::Less | Ordering::Equal),
        max.partial_cmp_spec(&min) matches Some(Ordering::Greater | Ordering::Equal),
    ensures
        spec_clamp(value, min, max).partial_cmp_spec(&min) != Some(Ordering::Less),
        spec_clamp(value, min, max).partial_cmp_spec(&max) != Some(Ordering::Greater),
        value.partial_cmp_spec(&min) != Some(Ordering::Less) && value.partial_cmp_spec(&max)
            != Some(Ordering::Greater) ==> spec_clamp(value, min, max) == value,
        value.partial_cmp_spec(&min) == Some(Ordering::Less) ==> spec_clamp(value, min, max)
            == min,
        value.partial_cmp_spec(&min) != Some(Ordering::Less) && value.partial_cmp_spec(&max)
            == Some(Ordering::Greater) ==> spec_clamp(value, min, max) == max,
        spec_clamp(spec_clamp(value, min, max), min, max) == spec_clamp(value, min, max),
{
}

/// For integers with `min <= max`, `clamp` lands between `min` and `max`,
/// and leaves a value that already lies there unchanged.
pub proof fn lemma_clamp_i64(value: i64, min: i64, max: i64)
    requires
        min <= max,
    ensures
        min <= spec_clamp(value, min, max) <= max,
        min <= value <= max ==> spec_clamp(value, min, max) == value,
        value < min ==> spec_clamp(value, min, max) == min,
        value > max ==> spec_clamp(value, min, max) == max,
{
}

} // verus!
