//! How kernels are laid out over a device: the grid of thread blocks, and the
//! numbers that kernels are told.

use crate::quant::QGemvShape;
use vstd::prelude::*;

verus! {

/// The blocks of a launch in two directions, and the threads of a block.
#[derive(Debug, Clone, Copy, PartialEq, Eq, Structural)]
pub struct LaunchShape {
    pub grid_x: u32,
    pub grid_y: u32,
    pub block_x: u32,
}

/// Threads of a block that works element by element.
pub const ELEMENT_THREADS: u32 = 256;

/// Threads of a block that works on activations.
pub const ACTIVATION_THREADS: u32 = 128;

/// Threads of a block that works on packed 4-bit floats.
pub const PACKED_THREADS: u32 = 32;

/// The low half of a number: what a kernel is told of it.
pub open spec fn low32(n: int) -> u32 {
    (n % 0x1_0000_0000) as u32
}

/// The low half of a number.
pub fn to_low32(n: usize) -> (r: u32)
    ensures
        r == low32(n as int),
{
    (n as u64 % 0x1_0000_0000) as u32
}

/// One thread for each of `n` elements, in blocks of `ELEMENT_THREADS`.
pub fn elementwise(n: usize) -> (s: LaunchShape)
    requires
        n + 255 <= usize::MAX,
    ensures
        s == (LaunchShape {
            grid_x: low32((n + 255) / 256),
            grid_y: 1,
            block_x: ELEMENT_THREADS,
        }),
{
    LaunchShape { grid_x: to_low32((n + 255) / 256), grid_y: 1, block_x: ELEMENT_THREADS }
}

/// One block for each row.
pub fn by_rows(rows: usize, threads: u32) -> (s: LaunchShape)
    ensures
        s == (LaunchShape { grid_x: low32(rows as int), grid_y: 1, block_x: threads }),
{
    LaunchShape { grid_x: to_low32(rows), grid_y: 1, block_x: threads }
}

/// One block for each block of each row of activations.
pub fn by_activation_blocks(blocks_per_row: usize, rows: usize) -> (s: LaunchShape)
    ensures
        s == (LaunchShape {
            grid_x: low32(blocks_per_row as int),
            grid_y: low32(rows as int),
            block_x: ACTIVATION_THREADS,
        }),
{
    LaunchShape {
        grid_x: to_low32(blocks_per_row),
        grid_y: to_low32(rows),
        block_x: ACTIVATION_THREADS,
    }
}

/// What a kernel of a quantized product is told of its matrix.
#[derive(Debug, Clone, Copy, PartialEq, Eq, Structural)]
pub struct GemvLaunch {
    pub shape: LaunchShape,
    pub rows: u32,
    pub cols: u32,
    pub blocks_per_row: u32,
    pub row_bytes: u32,
}

/// The launch of a quantized product: one block for each row, with one thread for
/// each weight of a block of weights.
pub fn gemv_launch(shape: QGemvShape) -> (l: GemvLaunch)
    requires
        shape.block_size > 0,
        shape.spec_row_bytes() <= usize::MAX,
    ensures
        l == (GemvLaunch {
            shape: LaunchShape {
                grid_x: low32(shape.rows as int),
                grid_y: 1,
                block_x: low32(shape.block_size as int),
            },
            rows: low32(shape.rows as int),
            cols: low32(shape.cols as int),
            blocks_per_row: low32(shape.spec_blocks_per_row() as int),
            row_bytes: low32(shape.spec_row_bytes() as int),
        }),
{
    GemvLaunch {
        shape: by_rows(shape.rows, to_low32(shape.block_size)),
        rows: to_low32(shape.rows),
        cols: to_low32(shape.cols),
        blocks_per_row: to_low32(shape.blocks_per_row()),
        row_bytes: to_low32(shape.quantized_row_bytes()),
    }
}

/// A launch element by element has a thread for each element, and no block
/// without one.
pub proof fn elements_are_covered(n: nat)
    requires
        n + 255 < 0x100_0000_0000,
    ensures
        low32((n + 255) as int / 256) * ELEMENT_THREADS >= n,
        n > 0 ==> (low32((n + 255) as int / 256) - 1) * ELEMENT_THREADS < n,
{
    assert(0 <= (n + 255) as int / 256 < 0x1_0000_0000);
}

/// A number that fits is told as it is.
pub proof fn small_numbers_are_told(n: nat)
    requires
        n <= u32::MAX,
    ensures
        low32(n as int) == n,
{
}

/// A row of activations that fills whole groups has a thread for each of them, and so
/// has a row of packed weights.
pub proof fn groups_have_threads(cols: nat)
    ensures
        cols % 128 == 0 ==> cols / 128 * ACTIVATION_THREADS as nat == cols,
        cols % 32 == 0 ==> cols / 32 * PACKED_THREADS as nat == cols,
{
}

/// Of a number that does not fit, only the low half is told.
pub proof fn high_halves_are_left_out(n: nat, high: nat)
    requires
        n <= u32::MAX,
    ensures
        low32((n + high * 0x1_0000_0000) as int) == n,
{
    vstd::arithmetic::div_mod::lemma_mod_multiples_vanish(
        high as int,
        n as int,
        0x1_0000_0000,
    );
    assert(0x1_0000_0000 * (high as int) + n == n + high * 0x1_0000_0000);
}

} // verus!
