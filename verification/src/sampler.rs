//! Scalar fields over the integer plane.
use crate::height_map::index_of;
use crate::sample::NoiseSample;
use vstd::arithmetic::div_mod::lemma_fundamental_div_mod;
use vstd::prelude::*;

verus! {

/// A scalar field that can be sampled at every point of the integer plane.
///
/// `field` is the field itself: the function that gives the sample at each
/// point. `sample` reads it. Since the field is a function, two reads of one
/// sampler at one point give the same sample, bit for bit, and reading changes
/// nothing.
pub trait NoiseFieldSampler {
    /// The field that the sampler reads.
    spec fn field(&self) -> spec_fn(int, int) -> NoiseSample;

    /// Reads the field at `(x, y)`. Every point is allowed; there is no failure.
    fn sample(&self, x: i32, y: i32) -> (sample: NoiseSample)
        ensures
            sample == (self.field())(x as int, y as int),
    ;
}

/// The field that holds `value` at every point.
pub open spec fn uniform_field(value: NoiseSample) -> spec_fn(int, int) -> NoiseSample {
    |x: int, y: int| value
}

/// The field that holds one and the same sample at every point.
#[derive(Clone, Copy, Debug)]
pub struct UniformSampler {
    pub value: NoiseSample,
}

impl UniformSampler {
    /// The field that holds `value` everywhere.
    pub fn new(value: NoiseSample) -> (sampler: UniformSampler)
        ensures
            sampler.value == value,
    {
        UniformSampler { value }
    }
}

impl NoiseFieldSampler for UniformSampler {
    open spec fn field(&self) -> spec_fn(int, int) -> NoiseSample {
        uniform_field(self.value)
    }

    fn sample(&self, x: i32, y: i32) -> (sample: NoiseSample) {
        self.value
    }
}

/// The field that is read off a table of samples laid out row by row, `width`
/// to a row, and that holds `elsewhere` at every point the table does not
/// reach.
pub open spec fn tabulated_field(
    width: nat,
    samples: Seq<NoiseSample>,
    elsewhere: NoiseSample,
) -> spec_fn(int, int) -> NoiseSample {
    |x: int, y: int|
        if 0 <= x < width && 0 <= y && index_of(x, y, width as int) < samples.len() {
            samples[index_of(x, y, width as int)]
        } else {
            elsewhere
        }
}

/// A field given by a table of samples.
#[derive(Debug)]
pub struct TabulatedSampler {
    pub width: usize,
    pub samples: Vec<NoiseSample>,
    pub elsewhere: NoiseSample,
}

impl TabulatedSampler {
    /// The field of the given table.
    pub fn new(width: usize, samples: Vec<NoiseSample>, elsewhere: NoiseSample) -> (sampler:
        TabulatedSampler)
        ensures
            sampler.width == width,
            sampler.samples@ == samples@,
            sampler.elsewhere == elsewhere,
    {
        TabulatedSampler { width, samples, elsewhere }
    }
}

impl NoiseFieldSampler for TabulatedSampler {
    open spec fn field(&self) -> spec_fn(int, int) -> NoiseSample {
        tabulated_field(self.width as nat, self.samples@, self.elsewhere)
    }

    fn sample(&self, x: i32, y: i32) -> (sample: NoiseSample) {
        if x < 0 || y < 0 {
            return self.elsewhere;
        }
        let column: usize = x as usize;
        let row: usize = y as usize;
        if column >= self.width {
            return self.elsewhere;
        }
        let full_rows: usize = self.samples.len() / self.width;
        let partial: usize = self.samples.len() % self.width;
        proof {
            lemma_fundamental_div_mod(self.samples.len() as int, self.width as int);
            lemma_row_in_table(
                column as int,
                row as int,
                self.width as int,
                full_rows as int,
                partial as int,
            );
        }
        if row < full_rows || (row == full_rows && column < partial) {
            self.samples[row * self.width + column]
        } else {
            self.elsewhere
        }
    }
}

/// In a table of `full_rows` whole rows and `partial` further samples, the
/// cell in column `x` of row `y` has a sample exactly if its row is whole, or
/// is the last one and reaches as far as the column.
proof fn lemma_row_in_table(x: int, y: int, width: int, full_rows: int, partial: int)
    by (nonlinear_arith)
    requires
        0 <= x < width,
        0 <= y,
        0 <= full_rows,
        0 <= partial < width,
    ensures
        0 <= y * width,
        y * width + x < width * full_rows + partial <==> y < full_rows || (y == full_rows && x
            < partial),
{
}

} // verus!
