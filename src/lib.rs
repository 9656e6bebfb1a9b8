//! A fixed-size 2D array with a blocked (tiled) memory layout.
//!
//! Elements are grouped into square blocks whose side is a power of two fixed by the type
//! parameter `B` (one of `U1` to `U512`). Blocks are laid out row-major over the grid of blocks,
//! and the elements of one block are stored contiguously, row-major within the block, so that
//! nearby coordinates tend to share a cache line.
//!
//! - `BlockGrid` owns the buffer and translates `(row, col)` coordinates to memory offsets.
//! - `Block` and `BlockMut` view one block through block-local coordinates.
//! - `EachIter` walks the elements in memory order, `BlockIter` the blocks, and `RowMajorIter`
//!   the elements in row-major order. Their mutable counterparts are cursors that take the grid
//!   at each step. Chain `.coords()` on any of them to get coordinates too.
//!
//! Block coordinates `(i, j)` name the `j`-th block in the `i`-th row of blocks; the element
//! coordinates of a block's top-left corner are given by `Block::starts_at`.

mod block_grid;
mod block_width;
mod blur;
mod iters;
mod translate;

pub use crate::block_grid::{
    col_major_index, lemma_block_addressing, lemma_record_round_trip, lemma_write_then_read,
    local_index, record_accepted, row_major_index, Block, BlockGrid, BlockMut, Coords,
    InvalidSizeError,
};
pub use crate::block_width::{
    area_spec, is_round_up, lemma_dim_bounds, lemma_width_bounds, width_spec, BlockDim, MAX_SHIFT,
    U1, U128, U16, U2, U256, U32, U4, U512, U64, U8,
};
pub use crate::blur::{blur_blockgrid, blur_by_index, blurred, neighbourhood_sum, on_border};
pub use crate::iters::{
    block_walk_ok, carry_step, each_walk_ok, lemma_carry_step, lemma_row_major_order, lex_less,
    row_major_ok, row_major_step, BlockIter, BlockIterMut, CoordsIterator, EachIter, EachIterMut,
    RowMajorIter, RowMajorIterMut, WithCoordsIter,
};
pub use crate::translate::{
    coords_of, lemma_compose, lemma_coords_of_inverse, lemma_linear_index_inverse,
    lemma_translator_bijective, linear_index, valid_shape,
};
