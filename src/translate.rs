use vstd::arithmetic::div_mod::lemma_fundamental_div_mod;
use vstd::arithmetic::div_mod::lemma_fundamental_div_mod_converse;
use vstd::prelude::*;

verus! {

/// A grid shape that tiles exactly into square blocks of width `w`.
pub open spec fn valid_shape(w: int, rows: int, cols: int) -> bool {
    &&& w > 0
    &&& rows > 0
    &&& cols > 0
    &&& rows % w == 0
    &&& cols % w == 0
}

/// Memory offset of the element `(row, col)` in a grid of `cols` columns tiled by blocks of
/// width `w`: blocks come row-major over the grid of blocks, and the elements of one block come
/// row-major within it.
pub open spec fn linear_index(w: int, cols: int, row: int, col: int) -> int {
    w * w * ((cols / w) * (row / w) + col / w) + w * (row % w) + col % w
}

/// The element coordinates stored at memory offset `idx`: the inverse of `linear_index`.
pub open spec fn coords_of(w: int, cols: int, idx: int) -> (int, int) {
    let tile = idx / (w * w);
    let intra = idx % (w * w);
    (w * (tile / (cols / w)) + intra / w, w * (tile % (cols / w)) + intra % w)
}

/// The offset built from block `(br, bc)` and the position `(sr, sc)` inside it, in a grid of
/// `cb` blocks per row, is the linear index of `(w * br + sr, w * bc + sc)`, and `coords_of`
/// recovers those coordinates from it.
pub proof fn lemma_compose(w: int, cb: int, br: int, bc: int, sr: int, sc: int)
    requires
        w > 0,
        cb > 0,
        br >= 0,
        0 <= bc < cb,
        0 <= sr < w,
        0 <= sc < w,
    ensures
        ({
            let idx = w * w * (cb * br + bc) + w * sr + sc;
            &&& linear_index(w, w * cb, w * br + sr, w * bc + sc) == idx
            &&& coords_of(w, w * cb, idx) == (w * br + sr, w * bc + sc)
            &&& 0 <= w * sr + sc < w * w
        }),
{
    let tile = cb * br + bc;
    let intra = w * sr + sc;
    let idx = w * w * tile + intra;
    assert(0 <= intra < w * w) by (nonlinear_arith)
        requires
            intra == w * sr + sc,
            0 <= sr < w,
            0 <= sc < w,
    ;
    assert(w * w > 0) by (nonlinear_arith)
        requires
            w > 0,
    ;
    assert(tile >= 0) by (nonlinear_arith)
        requires
            tile == cb * br + bc,
            cb > 0,
            br >= 0,
            bc >= 0,
    ;
    assert(idx == tile * (w * w) + intra) by (nonlinear_arith)
        requires
            idx == w * w * tile + intra,
    ;
    lemma_fundamental_div_mod_converse(idx, w * w, tile, intra);
    assert(w * cb == cb * w + 0) by (nonlinear_arith);
    lemma_fundamental_div_mod_converse(w * cb, w, cb, 0);
    assert(tile == br * cb + bc) by (nonlinear_arith)
        requires
            tile == cb * br + bc,
    ;
    lemma_fundamental_div_mod_converse(tile, cb, br, bc);
    assert(intra == sr * w + sc) by (nonlinear_arith)
        requires
            intra == w * sr + sc,
    ;
    lemma_fundamental_div_mod_converse(intra, w, sr, sc);
    assert(w * br + sr == br * w + sr) by (nonlinear_arith);
    lemma_fundamental_div_mod_converse(w * br + sr, w, br, sr);
    assert(w * bc + sc == bc * w + sc) by (nonlinear_arith);
    lemma_fundamental_div_mod_converse(w * bc + sc, w, bc, sc);
}

/// Splits a valid coordinate into its block and its position inside the block.
proof fn lemma_split(w: int, rows: int, cols: int, row: int, col: int)
    requires
        valid_shape(w, rows, cols),
        0 <= row < rows,
        0 <= col < cols,
    ensures
        row == w * (row / w) + row % w,
        col == w * (col / w) + col % w,
        0 <= row / w < rows / w,
        0 <= col / w < cols / w,
        0 <= row % w < w,
        0 <= col % w < w,
        cols == w * (cols / w),
        rows == w * (rows / w),
{
    lemma_fundamental_div_mod(row, w);
    lemma_fundamental_div_mod(col, w);
    lemma_fundamental_div_mod(rows, w);
    lemma_fundamental_div_mod(cols, w);
    let (br, bc, rb, cb) = (row / w, col / w, rows / w, cols / w);
    assert(0 <= br < rb) by (nonlinear_arith)
        requires
            row == w * br + row % w,
            0 <= row % w < w,
            0 <= row < rows,
            rows == w * rb,
            w > 0,
    ;
    assert(0 <= bc < cb) by (nonlinear_arith)
        requires
            col == w * bc + col % w,
            0 <= col % w < w,
            0 <= col < cols,
            cols == w * cb,
            w > 0,
    ;
}

/// The linear index of a valid coordinate lies in `0..rows * cols`, and `coords_of` maps it
/// back to that coordinate.
pub proof fn lemma_linear_index_inverse(w: int, rows: int, cols: int, row: int, col: int)
    requires
        valid_shape(w, rows, cols),
        0 <= row < rows,
        0 <= col < cols,
    ensures
        0 <= linear_index(w, cols, row, col) < rows * cols,
        coords_of(w, cols, linear_index(w, cols, row, col)) == (row, col),
{
    lemma_split(w, rows, cols, row, col);
    let (br, bc, sr, sc, rb, cb) = (row / w, col / w, row % w, col % w, rows / w, cols / w);
    lemma_compose(w, cb, br, bc, sr, sc);
    let idx = w * w * (cb * br + bc) + w * sr + sc;
    assert(0 <= idx < rows * cols) by (nonlinear_arith)
        requires
            idx == w * w * (cb * br + bc) + w * sr + sc,
            0 <= w * sr + sc < w * w,
            0 <= br < rb,
            0 <= bc < cb,
            rows == w * rb,
            cols == w * cb,
            w > 0,
    ;
}

/// Every offset in `0..rows * cols` holds a valid coordinate, and the linear index of that
/// coordinate is the offset.
pub proof fn lemma_coords_of_inverse(w: int, rows: int, cols: int, idx: int)
    requires
        valid_shape(w, rows, cols),
        0 <= idx < rows * cols,
    ensures
        0 <= coords_of(w, cols, idx).0 < rows,
        0 <= coords_of(w, cols, idx).1 < cols,
        linear_index(w, cols, coords_of(w, cols, idx).0, coords_of(w, cols, idx).1) == idx,
{
    lemma_fundamental_div_mod(rows, w);
    lemma_fundamental_div_mod(cols, w);
    let (rb, cb) = (rows / w, cols / w);
    assert(w * w > 0 && rb > 0 && cb > 0) by (nonlinear_arith)
        requires
            w > 0,
            rows > 0,
            cols > 0,
            rows == w * rb + 0,
            cols == w * cb + 0,
    ;
    lemma_fundamental_div_mod(idx, w * w);
    let tile = idx / (w * w);
    let intra = idx % (w * w);
    lemma_fundamental_div_mod(tile, cb);
    lemma_fundamental_div_mod(intra, w);
    let (br, bc, sr, sc) = (tile / cb, tile % cb, intra / w, intra % w);
    assert(0 <= tile < rb * cb) by (nonlinear_arith)
        requires
            idx == w * w * tile + intra,
            0 <= intra < w * w,
            0 <= idx < rows * cols,
            rows == w * rb,
            cols == w * cb,
            w > 0,
    ;
    assert(0 <= br < rb) by (nonlinear_arith)
        requires
            tile == cb * br + bc,
            0 <= bc < cb,
            0 <= tile < rb * cb,
    ;
    assert(0 <= sr < w) by (nonlinear_arith)
        requires
            intra == w * sr + sc,
            0 <= sc < w,
            0 <= intra < w * w,
    ;
    lemma_compose(w, cb, br, bc, sr, sc);
    assert(0 <= w * br + sr < rows) by (nonlinear_arith)
        requires
            0 <= br < rb,
            0 <= sr < w,
            rows == w * rb,
    ;
    assert(0 <= w * bc + sc < cols) by (nonlinear_arith)
        requires
            0 <= bc < cb,
            0 <= sc < w,
            cols == w * cb,
    ;
}

/// `linear_index` is a bijection from the valid coordinates onto `0..rows * cols`, and
/// `coords_of` is its inverse: no two valid coordinates share a slot, and every slot holds one.
pub proof fn lemma_translator_bijective(w: int, rows: int, cols: int)
    requires
        valid_shape(w, rows, cols),
    ensures
        forall|row: int, col: int|
            0 <= row < rows && 0 <= col < cols ==> {
                &&& 0 <= #[trigger] linear_index(w, cols, row, col) < rows * cols
                &&& coords_of(w, cols, linear_index(w, cols, row, col)) == (row, col)
            },
        forall|r1: int, c1: int, r2: int, c2: int|
            0 <= r1 < rows && 0 <= c1 < cols && 0 <= r2 < rows && 0 <= c2 < cols && #[trigger]
            linear_index(w, cols, r1, c1) == #[trigger] linear_index(w, cols, r2, c2) ==> r1 == r2
                && c1 == c2,
        forall|idx: int|
            0 <= idx < rows * cols ==> {
                let (row, col) = #[trigger] coords_of(w, cols, idx);
                &&& 0 <= row < rows
                &&& 0 <= col < cols
                &&& linear_index(w, cols, row, col) == idx
            },
{
    assert forall|row: int, col: int| 0 <= row < rows && 0 <= col < cols implies {
        &&& 0 <= #[trigger] linear_index(w, cols, row, col) < rows * cols
        &&& coords_of(w, cols, linear_index(w, cols, row, col)) == (row, col)
    } by {
        lemma_linear_index_inverse(w, rows, cols, row, col);
    }
    assert forall|r1: int, c1: int, r2: int, c2: int|
        0 <= r1 < rows && 0 <= c1 < cols && 0 <= r2 < rows && 0 <= c2 < cols && #[trigger]
        linear_index(w, cols, r1, c1) == #[trigger] linear_index(w, cols, r2, c2) implies r1 == r2
        && c1 == c2 by {
        lemma_linear_index_inverse(w, rows, cols, r1, c1);
        lemma_linear_index_inverse(w, rows, cols, r2, c2);
    }
    assert forall|idx: int| 0 <= idx < rows * cols implies {
        let (row, col) = #[trigger] coords_of(w, cols, idx);
        &&& 0 <= row < rows
        &&& 0 <= col < cols
        &&& linear_index(w, cols, row, col) == idx
    } by {
        lemma_coords_of_inverse(w, rows, cols, idx);
    }
}

} // verus!
