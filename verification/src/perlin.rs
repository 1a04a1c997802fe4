//! Perlin noise as a field, computed by the `noise` crate.
//!
//! The seed is the generator's one setting: `PerlinSampler::with_seed` takes
//! one, and `PerlinSampler::new` takes `DEFAULT_SEED`. The generator is built
//! once, when the sampler is made, and kept; every read goes to it.
//!
//! A sampler reads the noise at points of whole-number coordinates only, and
//! there Perlin noise is zero, whatever the seed: the noise is a weighted sum
//! over the four corners of the cell a point lies in, the weight of a corner
//! falls to nothing at distance one, and the term of the corner that the point
//! lies on is a product with its distance, which is zero.
use crate::height_map::height_map;
use crate::height_map::lemma_uniform_height_map;
use crate::sample::lemma_height_zero_iff;
use crate::sample::NoiseSample;
use crate::sample::ZERO_BITS;
use crate::sampler::uniform_field;
use crate::sampler::NoiseFieldSampler;
use noise::NoiseFn;
use noise::Perlin;
use noise::Seedable;
use vstd::prelude::*;

verus! {

/// The seed of a sampler that was not given one. It is the seed that the
/// generator itself starts with.
pub const DEFAULT_SEED: u32 = 0;

/// `noise::Perlin`, the generator: a seed and the permutation table derived
/// from it. Nothing inside it is visible here.
#[verifier::external_type_specification]
#[verifier::external_body]
pub struct ExPerlin(noise::Perlin);

/// `Perlin::new` followed by `Seedable::set_seed`: a generator for the given
/// seed. Nothing is claimed of it.
#[verifier::external_body]
fn generator_for(seed: u32) -> (generator: Perlin) {
    Perlin::new().set_seed(seed)
}

/// `NoiseFn::get` on a `Perlin`, at a point of two whole-number coordinates;
/// the coordinates are converted exactly, and the value comes back as its bit
/// pattern.
///
/// The claim is that the value is `+0.0`. `get` takes the floor of the point,
/// which is the point itself, and so finds the distance `(0, 0)` to the near
/// corner of the cell and `-1` along each axis to the far ones. A corner
/// contributes only where one minus its squared distance is above zero. That
/// leaves the near corner, whose part is a finite weight times the product of
/// its gradient with `(0, 0)`: a zero of either sign. The other three corners
/// contribute `+0.0` each, the sum of a zero and `+0.0` is `+0.0`, and scaling
/// and clamping to `[-1, 1]` leave it so.
///
/// `get` also adds one to each coordinate, as an `isize`. The largest `i32` is
/// left out, so that the sum fits where an `isize` has 32 bits.
#[verifier::external_body]
fn value_bits_at(generator: &Perlin, x: i32, y: i32) -> (bits: u64)
    requires
        x < i32::MAX,
        y < i32::MAX,
    ensures
        bits == ZERO_BITS,
{
    generator.get([x.into(), y.into()]).to_bits()
}

/// Perlin noise over the points of whole-number coordinates: `+0.0`
/// everywhere, whatever the seed.
pub open spec fn perlin_lattice_field() -> spec_fn(int, int) -> NoiseSample {
    uniform_field(NoiseSample { bits: ZERO_BITS })
}

/// A sampler of Perlin noise.
pub struct PerlinSampler {
    seed: u32,
    generator: Perlin,
}

impl PerlinSampler {
    /// The seed that the generator was made with.
    pub closed spec fn spec_seed(&self) -> u32 {
        self.seed
    }

    /// The sampler whose generator has `DEFAULT_SEED`.
    pub fn new() -> (sampler: PerlinSampler)
        ensures
            sampler.spec_seed() == DEFAULT_SEED,
    {
        PerlinSampler::with_seed(DEFAULT_SEED)
    }

    /// The sampler whose generator has the given seed.
    pub fn with_seed(seed: u32) -> (sampler: PerlinSampler)
        ensures
            sampler.spec_seed() == seed,
    {
        PerlinSampler { seed, generator: generator_for(seed) }
    }

    /// The seed that the generator was made with.
    #[verifier::when_used_as_spec(spec_seed)]
    pub fn seed(&self) -> (seed: u32)
        ensures
            seed == self.spec_seed(),
    {
        self.seed
    }
}

impl NoiseFieldSampler for PerlinSampler {
    open spec fn field(&self) -> spec_fn(int, int) -> NoiseSample {
        perlin_lattice_field()
    }

    /// Reads the noise from the generator. At the largest coordinate the
    /// generator is not asked, since it looks one past the point it is given;
    /// the noise is zero there as at every point of whole-number coordinates.
    fn sample(&self, x: i32, y: i32) -> (sample: NoiseSample) {
        if x == i32::MAX || y == i32::MAX {
            NoiseSample::from_bits(ZERO_BITS)
        } else {
            NoiseSample::from_bits(value_bits_at(&self.generator, x, y))
        }
    }
}

/// Every height map of Perlin noise is flat: all its bytes are 0.
pub proof fn lemma_perlin_height_map_is_flat(width: nat, height: nat, channels: nat)
    ensures
        height_map(perlin_lattice_field(), width, height, channels) == Seq::new(
            width * height * channels,
            |offset: int| 0u8,
        ),
{
    let zero = NoiseSample { bits: ZERO_BITS };
    lemma_height_zero_iff(zero);
    lemma_uniform_height_map(zero, width, height, channels);
    assert(height_map(perlin_lattice_field(), width, height, channels) =~= Seq::new(
        width * height * channels,
        |offset: int| 0u8,
    ));
}

} // verus!
