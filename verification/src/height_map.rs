//! Height maps: a noise field sampled over a grid and packed into pixels.
//!
//! The grid has `width` columns and `height` rows. Its cells are numbered row by
//! row: cell `i` lies in column `i mod width` of row `i div width`. Each cell
//! becomes one pixel of `channels` bytes, every one of them the height of the
//! sample at that cell, and the pixels follow one another in the order of their
//! cells.
use crate::sample::NoiseSample;
use crate::sampler::uniform_field;
use crate::sampler::NoiseFieldSampler;
use vstd::arithmetic::div_mod::lemma_div_multiples_vanish_fancy;
use vstd::arithmetic::div_mod::lemma_fundamental_div_mod;
use vstd::arithmetic::div_mod::lemma_fundamental_div_mod_converse;
use vstd::arithmetic::div_mod::lemma_mod_bound;
use vstd::arithmetic::mul::lemma_mul_is_commutative;
use vstd::prelude::*;

verus! {

/// Grid dimensions may not exceed this, so that every column and row number is
/// a coordinate that a sampler accepts.
pub const COORDINATE_LIMIT: usize = 0x8000_0000;

/// The number of bits in each channel of a pixel.
pub const CHANNEL_BITS: u8 = 8;

/// The column of the cell with the given number.
pub open spec fn column_of(index: int, width: int) -> int {
    index % width
}

/// The row of the cell with the given number.
pub open spec fn row_of(index: int, width: int) -> int {
    index / width
}

/// The number of the cell in column `x` of row `y`.
pub open spec fn index_of(x: int, y: int, width: int) -> int {
    y * width + x
}

/// A cell of the grid: column `x` of row `y`.
#[derive(Clone, Copy, Debug, PartialEq, Eq, Structural)]
pub struct GridCoordinate {
    pub x: usize,
    pub y: usize,
}

impl GridCoordinate {
    /// The cell with the given number in a grid of `width` columns.
    pub fn from_index(index: usize, width: usize) -> (cell: GridCoordinate)
        requires
            width > 0,
        ensures
            cell.x == column_of(index as int, width as int),
            cell.y == row_of(index as int, width as int),
            cell.x < width,
            index_of(cell.x as int, cell.y as int, width as int) == index,
    {
        proof {
            lemma_cell_number_round_trip(index as int, width as int);
        }
        GridCoordinate { x: index % width, y: index / width }
    }
}

/// What the bytes of a pixel are: how many channels, and how wide each is.
/// Every channel is an unsigned integer.
#[derive(Clone, Copy, Debug, PartialEq, Eq, Structural)]
pub struct PixelFormat {
    pub channels: usize,
    pub bits_per_channel: u8,
}

/// A packed image together with its shape.
#[derive(Debug)]
pub struct PixelBuffer {
    pub width: usize,
    pub height: usize,
    pub format: PixelFormat,
    pub bytes: Vec<u8>,
}

impl View for PixelBuffer {
    type V = Seq<u8>;

    open spec fn view(&self) -> Seq<u8> {
        self.bytes@
    }
}

impl PixelBuffer {
    /// There is one byte for each channel of each cell.
    pub open spec fn well_formed(&self) -> bool {
        &&& self.format.bits_per_channel == CHANNEL_BITS
        &&& self.bytes@.len() == self.width * self.height * self.format.channels
    }

    /// The cell in column `x` of row `y` is a cell of the grid, and `channel`
    /// is one of its channels.
    pub open spec fn holds(&self, x: int, y: int, channel: int) -> bool {
        &&& 0 <= x < self.width
        &&& 0 <= y < self.height
        &&& 0 <= channel < self.format.channels
    }

    /// The byte of channel `channel` of the pixel in column `x` of row `y`.
    pub open spec fn spec_byte_at(&self, x: int, y: int, channel: int) -> u8 {
        self@[index_of(x, y, self.width as int) * self.format.channels + channel]
    }

    /// Reads the byte of channel `channel` of the pixel in column `x` of row
    /// `y`, where the buffer has such a byte.
    pub fn byte_at(&self, x: usize, y: usize, channel: usize) -> (byte: Option<u8>)
        requires
            self.well_formed(),
        ensures
            byte.is_some() <==> self.holds(x as int, y as int, channel as int),
            byte.is_some() ==> byte.unwrap() == self.spec_byte_at(
                x as int,
                y as int,
                channel as int,
            ),
    {
        if x < self.width && y < self.height && channel < self.format.channels {
            proof {
                assert(self.bytes@.len() == self.bytes.len());
                lemma_cells_fit(
                    self.width as int,
                    self.height as int,
                    self.format.channels as int,
                );
                lemma_index_in_grid(x as int, y as int, self.width as int, self.height as int);
                lemma_pixel_fits(
                    index_of(x as int, y as int, self.width as int),
                    self.width * self.height,
                    self.format.channels as int,
                );
                let index = index_of(x as int, y as int, self.width as int);
                assert(index * self.format.channels + channel < (index + 1)
                    * self.format.channels) by (nonlinear_arith)
                    requires
                        channel < self.format.channels,
                ;
            }
            Some(self.bytes[(y * self.width + x) * self.format.channels + channel])
        } else {
            None
        }
    }

    /// Gives up the bytes.
    pub fn into_bytes(self) -> (bytes: Vec<u8>)
        ensures
            bytes@ == self@,
    {
        self.bytes
    }
}

/// The bytes of the height map of a field over a grid: for each cell in turn,
/// `channels` times the height of the field's sample at that cell.
pub open spec fn height_map(
    field: spec_fn(int, int) -> NoiseSample,
    width: nat,
    height: nat,
    channels: nat,
) -> Seq<u8> {
    Seq::new(
        width * height * channels,
        |offset: int|
            {
                let cell = offset / channels as int;
                field(column_of(cell, width as int), row_of(cell, width as int)).height()
            },
    )
}

/// Builds height maps.
pub struct HeightMapBuilder {}

impl HeightMapBuilder {
    /// Samples the field at every cell of a grid of `width` columns and
    /// `height` rows, row by row, and packs the heights into pixels of
    /// `channels` bytes each. The sampler is left as it was.
    ///
    /// The whole buffer must fit in memory, and the dimensions must not exceed
    /// `COORDINATE_LIMIT`.
    pub fn build<S: NoiseFieldSampler>(
        sampler: &S,
        width: usize,
        height: usize,
        channels: usize,
    ) -> (buffer: PixelBuffer)
        requires
            width * height * channels <= usize::MAX,
            width <= COORDINATE_LIMIT,
            height <= COORDINATE_LIMIT,
        ensures
            buffer@ == height_map(sampler.field(), width as nat, height as nat, channels as nat),
            buffer@.len() == width * height * channels,
            buffer.width == width,
            buffer.height == height,
            buffer.format.channels == channels,
            buffer.well_formed(),
            forall|x: int, y: int, channel: int|
                buffer.holds(x, y, channel) ==> #[trigger] buffer.spec_byte_at(x, y, channel) == (
                sampler.field())(x, y).height(),
    {
        let ghost expected = height_map(
            sampler.field(),
            width as nat,
            height as nat,
            channels as nat,
        );
        let mut bytes: Vec<u8> = Vec::new();
        if channels > 0 {
            proof {
                lemma_cells_fit(width as int, height as int, channels as int);
            }
            let cells: usize = width * height;
            let mut index: usize = 0;
            while index < cells
                invariant
                    channels > 0,
                    cells == width * height,
                    width <= COORDINATE_LIMIT,
                    height <= COORDINATE_LIMIT,
                    index <= cells,
                    expected == height_map(
                        sampler.field(),
                        width as nat,
                        height as nat,
                        channels as nat,
                    ),
                    bytes@.len() == index * channels,
                    bytes@.len() <= expected.len(),
                    forall|k: int| 0 <= k < bytes@.len() ==> bytes@[k] == expected[k],
                decreases cells - index,
            {
                assert(width > 0) by (nonlinear_arith)
                    requires
                        index < width * height,
                ;
                let cell = GridCoordinate::from_index(index, width);
                proof {
                    lemma_cell_in_grid(index as int, width as int, height as int);
                }
                let sample = sampler.sample(cell.x as i32, cell.y as i32);
                let value = sample.normalized();
                let mut channel: usize = 0;
                proof {
                    lemma_pixel_fits(index as int, cells as int, channels as int);
                }
                while channel < channels
                    invariant
                        channel <= channels,
                        index < cells,
                        cells == width * height,
                        width > 0,
                        expected == height_map(
                            sampler.field(),
                            width as nat,
                            height as nat,
                            channels as nat,
                        ),
                        value == (sampler.field())(
                            column_of(index as int, width as int),
                            row_of(index as int, width as int),
                        ).height(),
                        bytes@.len() == index * channels + channel,
                        (index + 1) * channels <= expected.len(),
                        forall|k: int| 0 <= k < bytes@.len() ==> bytes@[k] == expected[k],
                    decreases channels - channel,
                {
                    proof {
                        lemma_height_map_row_major(
                            sampler.field(),
                            width as nat,
                            height as nat,
                            channels as nat,
                            index as int,
                            channel as int,
                        );
                    }
                    bytes.push(value);
                    channel = channel + 1;
                }
                proof {
                    assert(index * channels + channels == (index + 1) * channels)
                        by (nonlinear_arith);
                }
                index = index + 1;
            }
        }
        assert(bytes@ =~= expected);
        let buffer = PixelBuffer {
            width,
            height,
            format: PixelFormat { channels, bits_per_channel: CHANNEL_BITS },
            bytes,
        };
        assert forall|x: int, y: int, channel: int| buffer.holds(x, y, channel) implies #[trigger]
            buffer.spec_byte_at(x, y, channel) == (sampler.field())(x, y).height() by {
            lemma_height_map_at(
                sampler.field(),
                width as nat,
                height as nat,
                channels as nat,
                x,
                y,
                channel,
            );
        }
        buffer
    }
}

/// Where every pixel has at least one byte, the cells are no more than the
/// bytes.
proof fn lemma_cells_fit(width: int, height: int, channels: int)
    by (nonlinear_arith)
    requires
        0 <= width,
        0 <= height,
        1 <= channels,
    ensures
        0 <= width * height <= width * height * channels,
{
}

/// The bytes of one cell's pixel end within the bytes of all cells.
proof fn lemma_pixel_fits(index: int, cells: int, channels: int)
    by (nonlinear_arith)
    requires
        0 <= index < cells,
        0 <= channels,
    ensures
        (index + 1) * channels <= cells * channels,
{
}

/// Numbering the cells row by row: the column and the row of a cell give back
/// its number, and the column lies within the grid's width.
pub proof fn lemma_cell_number_round_trip(index: int, width: int)
    requires
        0 <= index,
        0 < width,
    ensures
        0 <= column_of(index, width) < width,
        0 <= row_of(index, width),
        index_of(column_of(index, width), row_of(index, width), width) == index,
{
    lemma_fundamental_div_mod(index, width);
    lemma_mod_bound(index, width);
    lemma_mul_is_commutative(width, index / width);
    assert(index / width >= 0) by (nonlinear_arith)
        requires
            0 <= index,
            0 < width,
    ;
}

/// Every cell number below `width * height` names a cell of the grid.
pub proof fn lemma_cell_in_grid(index: int, width: int, height: int)
    requires
        0 <= index < width * height,
        0 < width,
    ensures
        0 <= column_of(index, width) < width,
        0 <= row_of(index, width) < height,
{
    lemma_cell_number_round_trip(index, width);
    let row = index / width;
    assert(row < height) by (nonlinear_arith)
        requires
            row * width + index % width == index,
            0 <= index % width,
            index < width * height,
            0 < width,
    ;
}

/// Numbering the cells row by row, the other way round: the cell in column `x`
/// of row `y` has a number whose column is `x` and whose row is `y`.
pub proof fn lemma_coordinates_round_trip(x: int, y: int, width: int)
    requires
        0 <= x < width,
        0 <= y,
    ensures
        0 <= index_of(x, y, width),
        column_of(index_of(x, y, width), width) == x,
        row_of(index_of(x, y, width), width) == y,
{
    lemma_fundamental_div_mod_converse(y * width + x, width, y, x);
    assert(0 <= y * width) by (nonlinear_arith)
        requires
            0 <= y,
            0 < width,
    ;
}

/// The cell in column `x` of row `y` of a grid has a number below
/// `width * height`.
pub proof fn lemma_index_in_grid(x: int, y: int, width: int, height: int)
    by (nonlinear_arith)
    requires
        0 <= x < width,
        0 <= y < height,
    ensures
        0 <= index_of(x, y, width) < width * height,
{
}

/// A height map has one byte for each channel of each cell.
pub proof fn lemma_height_map_len(
    field: spec_fn(int, int) -> NoiseSample,
    width: nat,
    height: nat,
    channels: nat,
)
    ensures
        height_map(field, width, height, channels).len() == width * height * channels,
{
}

/// The pixel of cell `index` starts at offset `index * channels`, and each of
/// its bytes is the height of the sample at the cell's column and row: column
/// `index mod width` of row `index div width`.
pub proof fn lemma_height_map_row_major(
    field: spec_fn(int, int) -> NoiseSample,
    width: nat,
    height: nat,
    channels: nat,
    index: int,
    channel: int,
)
    requires
        0 <= index < width * height,
        0 <= channel < channels,
    ensures
        0 <= index * channels + channel < height_map(field, width, height, channels).len(),
        height_map(field, width, height, channels)[index * channels + channel] == field(
            column_of(index, width as int),
            row_of(index, width as int),
        ).height(),
{
    let offset = index * channels + channel;
    lemma_pixel_fits(index, (width * height) as int, channels as int);
    assert(offset < (index + 1) * channels) by (nonlinear_arith)
        requires
            offset == index * channels + channel,
            channel < channels,
    ;
    lemma_mul_is_commutative(index, channels as int);
    lemma_div_multiples_vanish_fancy(index, channel, channels as int);
    assert(offset / channels as int == index);
    assert(0 <= index * channels) by (nonlinear_arith)
        requires
            0 <= index,
            0 <= channels,
    ;
}

/// All the bytes of one pixel are equal.
pub proof fn lemma_height_map_channels_agree(
    field: spec_fn(int, int) -> NoiseSample,
    width: nat,
    height: nat,
    channels: nat,
    index: int,
    first: int,
    second: int,
)
    requires
        0 <= index < width * height,
        0 <= first < channels,
        0 <= second < channels,
    ensures
        height_map(field, width, height, channels)[index * channels + first] == height_map(
            field,
            width,
            height,
            channels,
        )[index * channels + second],
{
    lemma_height_map_row_major(field, width, height, channels, index, first);
    lemma_height_map_row_major(field, width, height, channels, index, second);
}

/// The pixel of the cell in column `x` of row `y` holds the height of the
/// sample at `(x, y)` in every channel.
pub proof fn lemma_height_map_at(
    field: spec_fn(int, int) -> NoiseSample,
    width: nat,
    height: nat,
    channels: nat,
    x: int,
    y: int,
    channel: int,
)
    requires
        0 <= x < width,
        0 <= y < height,
        0 <= channel < channels,
    ensures
        0 <= index_of(x, y, width as int) * channels + channel < height_map(
            field,
            width,
            height,
            channels,
        ).len(),
        height_map(field, width, height, channels)[index_of(x, y, width as int) * channels
            + channel] == field(x, y).height(),
{
    lemma_index_in_grid(x, y, width as int, height as int);
    lemma_coordinates_round_trip(x, y, width as int);
    let index = index_of(x, y, width as int);
    lemma_height_map_row_major(field, width, height, channels, index, channel);
}

/// Over a field that holds one sample everywhere, every byte of the height
/// map is the height of that sample.
pub proof fn lemma_uniform_height_map(value: NoiseSample, width: nat, height: nat, channels: nat)
    ensures
        height_map(uniform_field(value), width, height, channels) == Seq::new(
            width * height * channels,
            |offset: int| value.height(),
        ),
{
    assert(height_map(uniform_field(value), width, height, channels) =~= Seq::new(
        width * height * channels,
        |offset: int| value.height(),
    ));
}

} // verus!
