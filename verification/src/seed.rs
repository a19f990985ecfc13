//! Seeds of automatic colors. A seed is a 64-bit number, the hash of a path
//! or a random draw. Two bit ranges of it choose the hue and the saturation
//! of the color, as steps within the ranges that the user has configured;
//! turning the steps into a color is arithmetic in floating point and is
//! left to the caller.

use std::collections::hash_map::DefaultHasher;
use std::hash::Hasher;
use vstd::prelude::*;
use vstd::std_specs::hash::DefaultHasherAdditionalSpecFns;

verus! {

/// The number of the highest hue step.
pub const HUE_STEPS: u16 = 0xFFFF;

/// The number of the highest saturation step.
pub const SATURATION_STEPS: u8 = 0xFF;

/// What a seed chooses: a hue, as a step from 0 to `HUE_STEPS` between the
/// lowest and the highest configured hue, and a saturation, as a step from 0
/// to `SATURATION_STEPS` between the lowest and the highest configured
/// saturation.
#[derive(Debug, Clone, Copy, PartialEq, Eq, Structural)]
pub struct AutoSeed {
    pub hue_step: u16,
    pub saturation_step: u8,
}

/// The steps that a seed chooses: the hue from its lowest 16 bits, the
/// saturation from the 8 bits above them.
pub open spec fn seed_parts(seed: u64) -> AutoSeed {
    AutoSeed { hue_step: (seed & 0xFFFF) as u16, saturation_step: ((seed >> 16) & 0xFF) as u8 }
}

impl AutoSeed {
    /// The steps that `seed` chooses.
    pub fn from_seed(seed: u64) -> (parts: AutoSeed)
        ensures
            parts == seed_parts(seed),
    {
        assert(seed & 0xFFFF <= 0xFFFF) by (bit_vector);
        assert((seed >> 16) & 0xFF <= 0xFF) by (bit_vector);
        AutoSeed { hue_step: (seed & 0xFFFF) as u16, saturation_step: ((seed >> 16) & 0xFF) as u8 }
    }
}

/// What hashing a path as a `std::path::Path` writes to a hasher.
pub uninterp spec fn path_writes(path: Seq<char>) -> Seq<Seq<u8>>;

/// The seed of a path: what the standard hasher, freshly made, gives once
/// the path has been hashed into it.
pub open spec fn path_seed(path: Seq<char>) -> u64 {
    DefaultHasher::spec_finish(path_writes(path))
}

/// Hashes `path` into `state` with the `Hash` impl of `std::path::Path`.
/// Taken on trust: equal paths hash alike, as `Hash` and `Eq` promise of
/// each other, so that what is written to the hasher is the function
/// `path_writes` of the path. Nothing is claimed of the hash itself, which
/// may differ from one release of the standard library to the next.
#[verifier::external_body]
fn hash_path(path: &str, state: &mut DefaultHasher)
    ensures
        final(state)@ == old(state)@ + path_writes(path@),
{
    std::hash::Hash::hash(std::path::Path::new(path), state)
}

/// The steps of the automatic color of a path. The path is hashed as it is
/// given: a caller who wants two names of one directory to get one color
/// hands in the canonical path.
pub fn generate_from_path(path: &str) -> (parts: AutoSeed)
    ensures
        parts == seed_parts(path_seed(path@)),
{
    let mut hasher = DefaultHasher::new();
    hash_path(path, &mut hasher);
    assert(hasher@ =~= path_writes(path@));
    let seed = hasher.finish();
    AutoSeed::from_seed(seed)
}

/// Draws 64 bits from the thread's random number generator, with
/// `rand::thread_rng` and `Rng::gen`. Nothing is claimed of what is drawn.
#[verifier::external_body]
fn random_seed() -> u64 {
    rand::Rng::gen::<u64>(&mut rand::thread_rng())
}

/// The steps of a random color: those that a random seed chooses. Which
/// seed is drawn is left to chance; whatever it is, the steps are made from
/// it as they are made from the seed of a path.
pub fn generate_random_color() -> (parts: AutoSeed)
    ensures
        exists|seed: u64| parts == #[trigger] seed_parts(seed),
{
    let seed = random_seed();
    let parts = AutoSeed::from_seed(seed);
    assert(parts == seed_parts(seed));
    parts
}

} // verus!
