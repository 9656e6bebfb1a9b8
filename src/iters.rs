use core::marker::PhantomData;

use vstd::arithmetic::div_mod::lemma_fundamental_div_mod_converse;
use vstd::prelude::*;

use crate::block_grid::{Block, BlockGrid, BlockMut, Coords};
use crate::block_width::{area_spec, lemma_dim_bounds, width_spec, BlockDim};
use crate::translate::{
    coords_of, lemma_compose, lemma_coords_of_inverse, linear_index, valid_shape,
};

verus! {

/// Keeps `CoordsIterator` to the iterators of this library, whose coordinates are known to be
/// right.
pub trait Sealed {}

/// An iterator of this library that knows the coordinates of the item it yields next.
pub trait CoordsIterator: Sealed + Sized {
    /// Returns the coordinates of the item that the next step yields.
    fn current_coords(&self) -> Coords;

    /// Pairs each item with its coordinates.
    fn coords(self) -> (r: WithCoordsIter<Self>)
        ensures
            r.inner() == self,
    {
        WithCoordsIter { iter: self }
    }
}

/// Pairs the items of an iterator with their coordinates.
#[derive(Debug)]
pub struct WithCoordsIter<I> {
    iter: I,
}

impl<I> WithCoordsIter<I> {
    /// The wrapped iterator.
    pub closed spec fn inner(&self) -> I {
        self.iter
    }
}

/// The cursor after one step of the element-order walk: one column right inside the block, or
/// the start of the next row of the block, or the first element of the next block.
pub open spec fn carry_step(w: int, cols: int, row: int, col: int) -> (int, int) {
    if (col + 1) % w != 0 {
        (row, col + 1)
    } else if (row + 1) % w != 0 {
        (row + 1, col + 1 - w)
    } else if col + 1 == cols {
        (row + 1, 0)
    } else {
        (row + 1 - w, col + 1)
    }
}

/// One step of the element-order walk goes from the coordinates stored at `pos` to those stored
/// at `pos + 1`.
pub proof fn lemma_carry_step(w: int, rows: int, cols: int, pos: int)
    requires
        valid_shape(w, rows, cols),
        0 <= pos < rows * cols,
    ensures
        carry_step(w, cols, coords_of(w, cols, pos).0, coords_of(w, cols, pos).1) == coords_of(
            w,
            cols,
            pos + 1,
        ),
{
    lemma_coords_of_inverse(w, rows, cols, pos);
    let (row, col) = coords_of(w, cols, pos);
    vstd::arithmetic::div_mod::lemma_fundamental_div_mod(row, w);
    vstd::arithmetic::div_mod::lemma_fundamental_div_mod(col, w);
    vstd::arithmetic::div_mod::lemma_fundamental_div_mod(cols, w);
    let (br, bc, sr, sc, cb) = (row / w, col / w, row % w, col % w, cols / w);
    assert(br >= 0 && bc >= 0) by (nonlinear_arith)
        requires
            row >= 0,
            col >= 0,
            w > 0,
            row == w * br + sr,
            col == w * bc + sc,
            0 <= sr < w,
            0 <= sc < w,
    ;
    assert(bc < cb) by (nonlinear_arith)
        requires
            col < cols,
            cols == w * cb + 0,
            col == w * bc + sc,
            0 <= sc,
            w > 0,
    ;
    assert(cb > 0) by (nonlinear_arith)
        requires
            bc < cb,
            bc >= 0,
    ;
    assert(pos == w * w * (cb * br + bc) + w * sr + sc);
    if sc + 1 < w {
        lemma_fundamental_div_mod_converse(col + 1, w, bc, sc + 1);
        lemma_compose(w, cb, br, bc, sr, sc + 1);
    } else {
        assert(col + 1 == (bc + 1) * w + 0) by (nonlinear_arith)
            requires
                col == w * bc + sc,
                sc + 1 == w,
        ;
        lemma_fundamental_div_mod_converse(col + 1, w, bc + 1, 0);
        if sr + 1 < w {
            lemma_fundamental_div_mod_converse(row + 1, w, br, sr + 1);
            lemma_compose(w, cb, br, bc, sr + 1, 0);
            assert(pos + 1 == w * w * (cb * br + bc) + w * (sr + 1) + 0) by (nonlinear_arith)
                requires
                    pos == w * w * (cb * br + bc) + w * sr + sc,
                    sc + 1 == w,
            ;
        } else {
            assert(row + 1 == (br + 1) * w + 0) by (nonlinear_arith)
                requires
                    row == w * br + sr,
                    sr + 1 == w,
            ;
            lemma_fundamental_div_mod_converse(row + 1, w, br + 1, 0);
            assert(pos + 1 == w * w * (cb * br + bc + 1)) by (nonlinear_arith)
                requires
                    pos == w * w * (cb * br + bc) + w * sr + sc,
                    sc + 1 == w,
                    sr + 1 == w,
            ;
            if bc + 1 == cb {
                assert(col + 1 == cols) by (nonlinear_arith)
                    requires
                        col == w * bc + sc,
                        sc + 1 == w,
                        bc + 1 == cb,
                        cols == w * cb + 0,
                ;
                lemma_compose(w, cb, br + 1, 0, 0, 0);
                assert(w * w * (cb * (br + 1) + 0) + w * 0 + 0 == w * w * (cb * br + bc + 1))
                    by (nonlinear_arith)
                    requires
                        bc + 1 == cb,
                ;
                assert(w * (br + 1) + 0 == row + 1 && w * 0 + 0 == 0) by (nonlinear_arith)
                    requires
                        row + 1 == (br + 1) * w + 0,
                ;
            } else {
                assert(col + 1 != cols) by (nonlinear_arith)
                    requires
                        col == w * bc + sc,
                        sc + 1 == w,
                        bc + 1 < cb,
                        cols == w * cb + 0,
                        w > 0,
                ;
                lemma_compose(w, cb, br, bc + 1, 0, 0);
                assert(w * br + 0 == row + 1 - w && w * (bc + 1) + 0 == col + 1) by (
                nonlinear_arith)
                    requires
                        row + 1 == (br + 1) * w + 0,
                        col + 1 == (bc + 1) * w + 0,
                ;
            }
        }
    }
}

/// Moves the cursor of the element-order walk one step.
fn advance<B: BlockDim>(row: usize, col: usize, cols: usize, Ghost(rows): Ghost<int>, Ghost(
    pos,
): Ghost<int>) -> (r: Coords)
    requires
        valid_shape(width_spec::<B>() as int, rows, cols as int),
        rows * cols <= usize::MAX,
        0 <= pos < rows * cols,
        (row as int, col as int) == coords_of(width_spec::<B>() as int, cols as int, pos),
    ensures
        (r.0 as int, r.1 as int) == coords_of(width_spec::<B>() as int, cols as int, pos + 1),
{
    let ghost w = width_spec::<B>() as int;
    proof {
        lemma_dim_bounds::<B>();
        lemma_coords_of_inverse(w, rows, cols as int, pos);
        lemma_carry_step(w, rows, cols as int, pos);
        assert(rows <= rows * cols) by (nonlinear_arith)
            requires
                cols >= 1,
                rows >= 0,
        ;
    }
    let w = B::width();
    let mut row = row;
    let mut col = col + 1;
    if col % w == 0 {
        row += 1;
        if row % w == 0 {
            if col == cols {
                col = 0;
            } else {
                proof {
                    vstd::arithmetic::div_mod::lemma_fundamental_div_mod(row as int, w as int);
                    assert(row >= w) by (nonlinear_arith)
                        requires
                            row == w * (row as int / w as int) + 0,
                            row > 0,
                            w > 0,
                    ;
                }
                row -= w;
            }
        } else {
            proof {
                vstd::arithmetic::div_mod::lemma_fundamental_div_mod(col as int, w as int);
                assert(col >= w) by (nonlinear_arith)
                    requires
                        col == w * (col as int / w as int) + 0,
                        col > 0,
                        w > 0,
                ;
            }
            col -= w;
        }
    }
    (row, col)
}

/// The walk over `n` elements of a grid of `cols` columns is well set up: the shape tiles into
/// blocks, the cursor `pos` lies in `0..=n`, and `(row, col)` are the coordinates stored at `pos`.
pub open spec fn each_walk_ok<B: BlockDim>(
    n: int,
    cols: int,
    pos: int,
    row: int,
    col: int,
) -> bool {
    &&& cols > 0
    &&& n == (n / cols) * cols
    &&& valid_shape(width_spec::<B>() as int, n / cols, cols)
    &&& n <= usize::MAX
    &&& 0 <= pos <= n
    &&& pos < n ==> (row, col) == coords_of(width_spec::<B>() as int, cols, pos)
}

/// Starts the element-order walk over a well-formed grid.
proof fn lemma_each_walk_start<T, B: BlockDim>(grid: &BlockGrid<T, B>)
    requires
        grid.wf(),
    ensures
        each_walk_ok::<B>(grid@.len() as int, grid.spec_cols() as int, 0, 0, 0),
{
    let (w, rows, cols) = (width_spec::<B>() as int, grid.spec_rows() as int, grid.spec_cols() as int);
    vstd::arithmetic::div_mod::lemma_fundamental_div_mod(cols, w);
    assert(cols == (cols / w) * w + 0) by (nonlinear_arith)
        requires
            cols == w * (cols / w) + cols % w,
            cols % w == 0,
    ;
    assert((rows * cols) == rows * cols + 0);
    lemma_fundamental_div_mod_converse(rows * cols, cols, rows, 0);
    lemma_compose(w, cols / w, 0, 0, 0, 0);
    assert(w * (cols / w) == cols) by (nonlinear_arith)
        requires
            cols == (cols / w) * w + 0,
    ;
    assert(w * w * ((cols / w) * 0 + 0) + w * 0 + 0 == 0) by (nonlinear_arith);
    assert(w * 0 + 0 == 0);
}

/// An iterator over all elements of a grid in memory order.
///
/// Created by `BlockGrid::each_iter`.
#[derive(Debug)]
pub struct EachIter<'a, T, B: BlockDim> {
    row: usize,
    col: usize,
    cols: usize,
    pos: usize,
    arr: &'a [T],
    _phantom: PhantomData<B>,
}

impl<'a, T, B: BlockDim> EachIter<'a, T, B> {
    /// The elements walked, in memory order.
    pub closed spec fn items(&self) -> Seq<T> {
        self.arr@
    }

    /// Number of elements already yielded.
    pub closed spec fn spec_pos(&self) -> nat {
        self.pos as nat
    }

    /// Number of columns of the grid walked.
    pub closed spec fn spec_cols(&self) -> nat {
        self.cols as nat
    }

    /// The cursor agrees with the grid walked.
    pub closed spec fn wf(&self) -> bool {
        each_walk_ok::<B>(
            self.arr@.len() as int,
            self.cols as int,
            self.pos as int,
            self.row as int,
            self.col as int,
        )
    }

    /// Starts the walk over `grid`.
    pub(crate) fn new(grid: &'a BlockGrid<T, B>) -> (r: Self)
        requires
            grid.wf(),
        ensures
            r.wf(),
            r.items() == grid@,
            r.spec_pos() == 0,
            r.spec_cols() == grid.spec_cols(),
    {
        proof {
            lemma_each_walk_start(grid);
        }
        EachIter {
            row: 0,
            col: 0,
            cols: grid.cols(),
            pos: 0,
            arr: grid.raw(),
            _phantom: PhantomData,
        }
    }

    /// Yields the next element in memory order, or `None` once all have been yielded.
    pub fn next(&mut self) -> (r: Option<&'a T>)
        requires
            old(self).wf(),
        ensures
            final(self).wf(),
            final(self).items() == old(self).items(),
            final(self).spec_cols() == old(self).spec_cols(),
            old(self).spec_pos() < old(self).items().len() ==> {
                &&& r matches Some(x) && *x == old(self).items()[old(self).spec_pos() as int]
                &&& final(self).spec_pos() == old(self).spec_pos() + 1
            },
            old(self).spec_pos() >= old(self).items().len() ==> r is None && *final(self)
                == *old(self),
    {
        if self.pos >= self.arr.len() {
            return None;
        }
        let arr: &'a [T] = self.arr;
        let x = &arr[self.pos];
        let (row, col) = advance::<B>(
            self.row,
            self.col,
            self.cols,
            Ghost(self.arr@.len() as int / self.cols as int),
            Ghost(self.pos as int),
        );
        self.row = row;
        self.col = col;
        self.pos = self.pos + 1;
        Some(x)
    }

    /// Returns the number of elements left to yield.
    pub fn len(&self) -> (r: usize)
        requires
            self.wf(),
        ensures
            r == self.items().len() - self.spec_pos(),
    {
        self.arr.len() - self.pos
    }

    /// Skips `n` elements and yields the one after them, or `None` if fewer remain.
    pub fn nth(&mut self, n: usize) -> (r: Option<&'a T>)
        requires
            old(self).wf(),
        ensures
            final(self).wf(),
            final(self).items() == old(self).items(),
            final(self).spec_cols() == old(self).spec_cols(),
            old(self).spec_pos() + n < old(self).items().len() ==> {
                &&& r matches Some(x) && *x == old(self).items()[old(self).spec_pos() + n]
                &&& final(self).spec_pos() == old(self).spec_pos() + n + 1
            },
            old(self).spec_pos() + n >= old(self).items().len() ==> {
                &&& r is None
                &&& final(self).spec_pos() == old(self).items().len()
            },
    {
        let mut k: usize = 0;
        while k < n
            invariant
                self.wf(),
                self.items() == old(self).items(),
                self.spec_cols() == old(self).spec_cols(),
                k <= n,
                self.spec_pos() == if old(self).spec_pos() + k <= self.items().len() {
                    old(self).spec_pos() + k
                } else {
                    self.items().len() as int
                },
            decreases n - k,
        {
            let _ = self.next();
            k = k + 1;
        }
        self.next()
    }

    /// Yields all remaining elements and returns how many there were.
    pub fn count(self) -> (r: usize)
        requires
            self.wf(),
        ensures
            r == self.items().len() - self.spec_pos(),
    {
        let mut it = self;
        let mut n: usize = 0;
        while it.next().is_some()
            invariant
                it.wf(),
                it.items() == self.items(),
                n + self.spec_pos() == it.spec_pos(),
            decreases it.items().len() - it.spec_pos(),
        {
            n = n + 1;
        }
        n
    }
}

impl<'a, T, B: BlockDim> Sealed for EachIter<'a, T, B> {}

impl<'a, T, B: BlockDim> CoordsIterator for EachIter<'a, T, B> {
    /// Returns the coordinates of the element that `next` yields next.
    fn current_coords(&self) -> (r: Coords)
        ensures
            self.wf() && self.spec_pos() < self.items().len() ==> (r.0 as int, r.1 as int)
                == coords_of(width_spec::<B>() as int, self.spec_cols() as int, self.spec_pos() as int),
    {
        (self.row, self.col)
    }
}

/// A mutable walk over all elements of a grid in memory order.
///
/// Created by `BlockGrid::each_iter_mut`. It is a cursor: each step takes the grid and hands out
/// one element, so that no two live references can alias.
#[derive(Debug)]
pub struct EachIterMut<T, B: BlockDim> {
    row: usize,
    col: usize,
    cols: usize,
    pos: usize,
    len: usize,
    _elem: PhantomData<T>,
    _phantom: PhantomData<B>,
}

impl<T, B: BlockDim> EachIterMut<T, B> {
    /// Number of elements already yielded.
    pub closed spec fn spec_pos(&self) -> nat {
        self.pos as nat
    }

    /// Number of elements of the grid walked.
    pub closed spec fn spec_len(&self) -> nat {
        self.len as nat
    }

    /// Number of columns of the grid walked.
    pub closed spec fn spec_cols(&self) -> nat {
        self.cols as nat
    }

    /// The cursor is well set up.
    pub closed spec fn wf(&self) -> bool {
        each_walk_ok::<B>(
            self.len as int,
            self.cols as int,
            self.pos as int,
            self.row as int,
            self.col as int,
        )
    }

    /// The cursor walks a grid of this shape.
    pub open spec fn fits(&self, grid: &BlockGrid<T, B>) -> bool {
        &&& grid.wf()
        &&& grid@.len() == self.spec_len()
        &&& grid.spec_cols() == self.spec_cols()
    }

    /// Starts the walk over `grid`.
    pub(crate) fn new(grid: &BlockGrid<T, B>) -> (r: Self)
        requires
            grid.wf(),
        ensures
            r.wf(),
            r.fits(grid),
            r.spec_pos() == 0,
    {
        proof {
            lemma_each_walk_start(grid);
        }
        EachIterMut {
            row: 0,
            col: 0,
            cols: grid.cols(),
            pos: 0,
            len: grid.size(),
            _elem: PhantomData,
            _phantom: PhantomData,
        }
    }

    /// Hands out the next element of `grid` in memory order, or `None` once all have been
    /// handed out. Writing through it changes that element alone.
    pub fn next<'g>(&mut self, grid: &'g mut BlockGrid<T, B>) -> (r: Option<&'g mut T>)
        requires
            old(self).wf(),
            old(self).fits(old(grid)),
        ensures
            final(self).wf(),
            final(self).spec_len() == old(self).spec_len(),
            final(self).spec_cols() == old(self).spec_cols(),
            r is Some <==> old(self).spec_pos() < old(self).spec_len(),
            r is Some ==> final(self).spec_pos() == old(self).spec_pos() + 1,
            r matches Some(x) ==> {
                &&& *x == old(grid)@[old(self).spec_pos() as int]
                &&& final(grid)@ == old(grid)@.update(old(self).spec_pos() as int, *final(x))
                &&& final(grid).spec_rows() == old(grid).spec_rows()
                &&& final(grid).spec_cols() == old(grid).spec_cols()
                &&& final(grid).inv() == old(grid).inv()
            },
            r is None ==> {
                &&& old(self).spec_pos() >= old(self).spec_len()
                &&& *final(self) == *old(self)
                &&& *final(grid) == *old(grid)
            },
    {
        if self.pos >= self.len {
            return None;
        }
        let pos = self.pos;
        let (row, col) = advance::<B>(
            self.row,
            self.col,
            self.cols,
            Ghost(self.len as int / self.cols as int),
            Ghost(self.pos as int),
        );
        self.row = row;
        self.col = col;
        self.pos = pos + 1;
        let arr = grid.raw_mut();
        Some(&mut arr[pos])
    }

    /// Returns the number of elements left to hand out.
    pub fn len(&self) -> (r: usize)
        requires
            self.wf(),
        ensures
            r == self.spec_len() - self.spec_pos(),
    {
        self.len - self.pos
    }

    /// Returns the number of elements left to hand out, consuming the cursor.
    pub fn count(self) -> (r: usize)
        requires
            self.wf(),
        ensures
            r == self.spec_len() - self.spec_pos(),
    {
        self.len()
    }
}

impl<T, B: BlockDim> Sealed for EachIterMut<T, B> {}

impl<T, B: BlockDim> CoordsIterator for EachIterMut<T, B> {
    /// Returns the coordinates of the element that `next` hands out next.
    fn current_coords(&self) -> (r: Coords)
        ensures
            self.wf() && self.spec_pos() < self.spec_len() ==> (r.0 as int, r.1 as int)
                == coords_of(width_spec::<B>() as int, self.spec_cols() as int, self.spec_pos() as int),
    {
        (self.row, self.col)
    }
}

impl<T, B: BlockDim> BlockGrid<T, B> {
    /// Returns an iterator over all elements in memory order.
    ///
    /// This is the fastest way to visit each element. Chain `.coords()` for coordinates too.
    pub fn each_iter(&self) -> (r: EachIter<'_, T, B>)
        requires
            self.wf(),
        ensures
            r.wf(),
            r.items() == self@,
            r.spec_pos() == 0,
            r.spec_cols() == self.spec_cols(),
    {
        EachIter::new(self)
    }

    /// Returns a cursor that hands out every element mutably, in memory order.
    ///
    /// Chain `.coords()` for coordinates too.
    pub fn each_iter_mut(&mut self) -> (r: EachIterMut<T, B>)
        requires
            old(self).wf(),
        ensures
            r.wf(),
            r.fits(old(self)),
            r.spec_pos() == 0,
            *final(self) == *old(self),
    {
        EachIterMut::new(self)
    }
}

/// The block walk over `n` elements in blocks of `area_spec::<B>()`, `cb` blocks per row, is
/// well set up: `pos` lies in `0..=n / area` and `(br, bc)` are the block coordinates of `pos`.
pub open spec fn block_walk_ok<B: BlockDim>(n: int, cb: int, pos: int, br: int, bc: int) -> bool {
    let a = area_spec::<B>() as int;
    let nb = n / a;
    &&& cb > 0
    &&& n == nb * a
    &&& nb == (nb / cb) * cb
    &&& width_spec::<B>() * (nb / cb) <= usize::MAX
    &&& width_spec::<B>() * cb <= usize::MAX
    &&& n <= usize::MAX
    &&& 0 <= pos <= nb
    &&& br == pos / cb
    &&& bc == pos % cb
}

/// Starts the block walk over a well-formed grid.
proof fn lemma_block_walk_start<T, B: BlockDim>(grid: &BlockGrid<T, B>)
    requires
        grid.wf(),
    ensures
        block_walk_ok::<B>(
            grid@.len() as int,
            grid.spec_cols() as int / width_spec::<B>() as int,
            0,
            0,
            0,
        ),
        grid@.len() as int / area_spec::<B>() as int == (grid.spec_rows() as int / width_spec::<
            B,
        >() as int) * (grid.spec_cols() as int / width_spec::<B>() as int),
{
    lemma_dim_bounds::<B>();
    let (w, rows, cols) = (width_spec::<B>() as int, grid.spec_rows() as int, grid.spec_cols() as int);
    let a = area_spec::<B>() as int;
    vstd::arithmetic::div_mod::lemma_fundamental_div_mod(cols, w);
    vstd::arithmetic::div_mod::lemma_fundamental_div_mod(rows, w);
    let (rb, cb) = (rows / w, cols / w);
    let n = grid@.len() as int;
    assert(n == (rb * cb) * a + 0 && rb >= 1 && cb >= 1) by (nonlinear_arith)
        requires
            n == rows * cols,
            rows == w * rb + 0,
            cols == w * cb + 0,
            a == w * w,
            rows > 0,
            cols > 0,
            w > 0,
    ;
    lemma_fundamental_div_mod_converse(n, a, rb * cb, 0);
    assert(rb * cb == rb * cb + 0);
    lemma_fundamental_div_mod_converse(rb * cb, cb, rb, 0);
    assert(w * rb <= n && w * cb <= n) by (nonlinear_arith)
        requires
            n == rows * cols,
            rows == w * rb + 0,
            cols == w * cb + 0,
            rows >= 1,
            cols >= 1,
    ;
    assert(0 == 0 * cb + 0);
    lemma_fundamental_div_mod_converse(0, cb, 0, 0);
}

/// One step of the block walk.
proof fn lemma_block_walk_step(cb: int, pos: int)
    requires
        cb > 0,
        pos >= 0,
    ensures
        (pos + 1) / cb == if pos % cb + 1 == cb { pos / cb + 1 } else { pos / cb },
        (pos + 1) % cb == if pos % cb + 1 == cb { 0 } else { pos % cb + 1 },
{
    vstd::arithmetic::div_mod::lemma_fundamental_div_mod(pos, cb);
    if pos % cb + 1 == cb {
        assert(pos + 1 == (pos / cb + 1) * cb + 0) by (nonlinear_arith)
            requires
                pos == cb * (pos / cb) + pos % cb,
                pos % cb + 1 == cb,
        ;
        lemma_fundamental_div_mod_converse(pos + 1, cb, pos / cb + 1, 0);
    } else {
        assert(pos + 1 == (pos / cb) * cb + (pos % cb + 1)) by (nonlinear_arith)
            requires
                pos == cb * (pos / cb) + pos % cb,
        ;
        lemma_fundamental_div_mod_converse(pos + 1, cb, pos / cb, pos % cb + 1);
    }
}

/// Bounds of the elements of block `pos` in a block walk.
proof fn lemma_block_slot<B: BlockDim>(n: int, cb: int, pos: int)
    requires
        block_walk_ok::<B>(n, cb, pos, pos / cb, pos % cb),
        pos < n / (area_spec::<B>() as int),
    ensures
        0 <= pos * area_spec::<B>() as int,
        pos * area_spec::<B>() as int + area_spec::<B>() as int <= n,
        width_spec::<B>() * (pos / cb) <= usize::MAX,
        width_spec::<B>() * (pos % cb) <= usize::MAX,
{
    lemma_dim_bounds::<B>();
    let a = area_spec::<B>() as int;
    let w = width_spec::<B>() as int;
    let nb = n / a;
    assert(0 <= pos * a && pos * a + a <= n) by (nonlinear_arith)
        requires
            0 <= pos < nb,
            n == nb * a,
            a >= 1,
    ;
    vstd::arithmetic::div_mod::lemma_fundamental_div_mod(pos, cb);
    assert(pos / cb < nb / cb) by (nonlinear_arith)
        requires
            pos == cb * (pos / cb) + pos % cb,
            0 <= pos % cb,
            pos < nb,
            nb == (nb / cb) * cb,
            cb > 0,
    ;
    assert(w * (pos / cb) <= w * (nb / cb) && w * (pos % cb) <= w * cb) by (nonlinear_arith)
        requires
            0 <= pos / cb < nb / cb,
            0 <= pos % cb < cb,
            w >= 1,
    ;
}

/// An iterator over all blocks of a grid in memory order, yielding `Block`s.
///
/// Created by `BlockGrid::block_iter`.
#[derive(Debug)]
pub struct BlockIter<'a, T, B: BlockDim> {
    block_row: usize,
    block_col: usize,
    col_blocks: usize,
    pos: usize,
    arr: &'a [T],
    _phantom: PhantomData<B>,
}

impl<'a, T, B: BlockDim> BlockIter<'a, T, B> {
    /// The elements walked, in memory order.
    pub closed spec fn items(&self) -> Seq<T> {
        self.arr@
    }

    /// Number of blocks already yielded.
    pub closed spec fn spec_pos(&self) -> nat {
        self.pos as nat
    }

    /// Number of blocks per row of blocks.
    pub closed spec fn spec_col_blocks(&self) -> nat {
        self.col_blocks as nat
    }

    /// Number of blocks walked.
    pub open spec fn spec_blocks(&self) -> nat {
        self.items().len() / area_spec::<B>()
    }

    /// The cursor agrees with the grid walked.
    pub closed spec fn wf(&self) -> bool {
        block_walk_ok::<B>(
            self.arr@.len() as int,
            self.col_blocks as int,
            self.pos as int,
            self.block_row as int,
            self.block_col as int,
        )
    }

    /// Starts the walk over `grid`.
    pub(crate) fn new(grid: &'a BlockGrid<T, B>) -> (r: Self)
        requires
            grid.wf(),
        ensures
            r.wf(),
            r.items() == grid@,
            r.spec_pos() == 0,
            r.spec_col_blocks() == grid.spec_cols() / width_spec::<B>(),
            r.spec_blocks() == (grid.spec_rows() / width_spec::<B>()) * (grid.spec_cols()
                / width_spec::<B>()),
    {
        proof {
            lemma_block_walk_start(grid);
        }
        BlockIter {
            block_row: 0,
            block_col: 0,
            col_blocks: grid.col_blocks(),
            pos: 0,
            arr: grid.raw(),
            _phantom: PhantomData,
        }
    }

    /// Yields a view of the next block in memory order, or `None` once all have been yielded.
    pub fn next(&mut self) -> (r: Option<Block<'a, T, B>>)
        requires
            old(self).wf(),
        ensures
            final(self).wf(),
            final(self).items() == old(self).items(),
            final(self).spec_col_blocks() == old(self).spec_col_blocks(),
            old(self).spec_pos() < old(self).spec_blocks() ==> {
                &&& r is Some
                &&& final(self).spec_pos() == old(self).spec_pos() + 1
            },
            r matches Some(b) ==> {
                let p = old(self).spec_pos() as int;
                let a = area_spec::<B>() as int;
                &&& b.wf()
                &&& b.spec_coords().0 == p / old(self).spec_col_blocks() as int
                &&& b.spec_coords().1 == p % old(self).spec_col_blocks() as int
                &&& b@ == old(self).items().subrange(p * a, p * a + a)
            },
            old(self).spec_pos() >= old(self).spec_blocks() ==> r is None && *final(self)
                == *old(self),
    {
        proof {
            lemma_dim_bounds::<B>();
        }
        let a = B::area();
        if self.pos >= self.arr.len() / a {
            return None;
        }
        proof {
            lemma_block_slot::<B>(self.arr@.len() as int, self.col_blocks as int, self.pos as int);
            lemma_block_walk_step(self.col_blocks as int, self.pos as int);
        }
        let start = self.pos * a;
        let arr: &'a [T] = self.arr;
        let chunk = vstd::slice::slice_subrange(arr, start, start + a);
        let block = Block::new(self.current_coords(), chunk);
        self.pos = self.pos + 1;
        self.block_col = self.block_col + 1;
        if self.block_col == self.col_blocks {
            self.block_row = self.block_row + 1;
            self.block_col = 0;
        }
        Some(block)
    }

    /// Returns the number of blocks left to yield.
    pub fn len(&self) -> (r: usize)
        requires
            self.wf(),
        ensures
            r == self.spec_blocks() - self.spec_pos(),
    {
        proof {
            lemma_dim_bounds::<B>();
        }
        self.arr.len() / B::area() - self.pos
    }

    /// Skips `n` blocks and yields a view of the one after them, or `None` if fewer remain.
    pub fn nth(&mut self, n: usize) -> (r: Option<Block<'a, T, B>>)
        requires
            old(self).wf(),
        ensures
            final(self).wf(),
            final(self).items() == old(self).items(),
            final(self).spec_col_blocks() == old(self).spec_col_blocks(),
            old(self).spec_pos() + n < old(self).spec_blocks() ==> {
                let p = old(self).spec_pos() + n;
                let a = area_spec::<B>() as int;
                &&& r matches Some(b) && b.wf() && b@ == old(self).items().subrange(p * a, p * a + a)
                    && b.spec_coords().0 == p / old(self).spec_col_blocks() as int
                    && b.spec_coords().1 == p % old(self).spec_col_blocks() as int
                &&& final(self).spec_pos() == p + 1
            },
            old(self).spec_pos() + n >= old(self).spec_blocks() ==> {
                &&& r is None
                &&& final(self).spec_pos() == old(self).spec_blocks()
            },
    {
        let mut k: usize = 0;
        while k < n
            invariant
                self.wf(),
                self.items() == old(self).items(),
                self.spec_col_blocks() == old(self).spec_col_blocks(),
                old(self).spec_pos() <= old(self).spec_blocks(),
                k <= n,
                self.spec_pos() == if old(self).spec_pos() + k <= self.spec_blocks() {
                    old(self).spec_pos() + k
                } else {
                    self.spec_blocks() as int
                },
            decreases n - k,
        {
            let _ = self.next();
            k = k + 1;
        }
        self.next()
    }

    /// Yields all remaining blocks and returns how many there were.
    pub fn count(self) -> (r: usize)
        requires
            self.wf(),
        ensures
            r == self.spec_blocks() - self.spec_pos(),
    {
        let mut it = self;
        let mut n: usize = 0;
        while it.next().is_some()
            invariant
                it.wf(),
                it.items() == self.items(),
                n + self.spec_pos() == it.spec_pos(),
            decreases it.spec_blocks() - it.spec_pos(),
        {
            n = n + 1;
        }
        n
    }
}

impl<'a, T, B: BlockDim> Sealed for BlockIter<'a, T, B> {}

impl<'a, T, B: BlockDim> CoordsIterator for BlockIter<'a, T, B> {
    /// Returns the block coordinates of the block that `next` yields next.
    fn current_coords(&self) -> (r: Coords)
        ensures
            self.wf() ==> r.0 == self.spec_pos() / self.spec_col_blocks() && r.1 == self.spec_pos()
                % self.spec_col_blocks(),
    {
        (self.block_row, self.block_col)
    }
}

/// A mutable walk over all blocks of a grid in memory order, handing out `BlockMut`s.
///
/// Created by `BlockGrid::block_iter_mut`. It is a cursor: each step takes the grid and hands
/// out one block, so that no two live views can alias.
#[derive(Debug)]
pub struct BlockIterMut<T, B: BlockDim> {
    block_row: usize,
    block_col: usize,
    col_blocks: usize,
    pos: usize,
    len: usize,
    _elem: PhantomData<T>,
    _phantom: PhantomData<B>,
}

impl<T, B: BlockDim> BlockIterMut<T, B> {
    /// Number of blocks already handed out.
    pub closed spec fn spec_pos(&self) -> nat {
        self.pos as nat
    }

    /// Number of blocks per row of blocks.
    pub closed spec fn spec_col_blocks(&self) -> nat {
        self.col_blocks as nat
    }

    /// Number of elements of the grid walked.
    pub closed spec fn spec_len(&self) -> nat {
        self.len as nat
    }

    /// Number of blocks walked.
    pub open spec fn spec_blocks(&self) -> nat {
        self.spec_len() / area_spec::<B>()
    }

    /// The cursor is well set up.
    pub closed spec fn wf(&self) -> bool {
        block_walk_ok::<B>(
            self.len as int,
            self.col_blocks as int,
            self.pos as int,
            self.block_row as int,
            self.block_col as int,
        )
    }

    /// The cursor walks a grid of this shape.
    pub open spec fn fits(&self, grid: &BlockGrid<T, B>) -> bool {
        &&& grid.wf()
        &&& grid@.len() == self.spec_len()
        &&& grid.spec_cols() / width_spec::<B>() == self.spec_col_blocks()
    }

    /// Starts the walk over `grid`.
    pub(crate) fn new(grid: &BlockGrid<T, B>) -> (r: Self)
        requires
            grid.wf(),
        ensures
            r.wf(),
            r.fits(grid),
            r.spec_pos() == 0,
            r.spec_blocks() == (grid.spec_rows() / width_spec::<B>()) * (grid.spec_cols()
                / width_spec::<B>()),
    {
        proof {
            lemma_block_walk_start(grid);
        }
        BlockIterMut {
            block_row: 0,
            block_col: 0,
            col_blocks: grid.col_blocks(),
            pos: 0,
            len: grid.size(),
            _elem: PhantomData,
            _phantom: PhantomData,
        }
    }

    /// Hands out a mutable view of the next block of `grid` in memory order, or `None` once all
    /// have been handed out. Writing through it changes that block alone.
    pub fn next<'g>(&mut self, grid: &'g mut BlockGrid<T, B>) -> (r: Option<BlockMut<'g, T, B>>)
        requires
            old(self).wf(),
            old(self).fits(old(grid)),
        ensures
            final(self).wf(),
            final(self).spec_len() == old(self).spec_len(),
            final(self).spec_col_blocks() == old(self).spec_col_blocks(),
            r is Some <==> old(self).spec_pos() < old(self).spec_blocks(),
            r is Some ==> final(self).spec_pos() == old(self).spec_pos() + 1,
            r matches Some(b) ==> {
                let p = old(self).spec_pos() as int;
                let a = area_spec::<B>() as int;
                let n = old(grid)@.len() as int;
                &&& b.wf()
                &&& b.block_coords.0 == p / old(self).spec_col_blocks() as int
                &&& b.block_coords.1 == p % old(self).spec_col_blocks() as int
                &&& b@ == old(grid)@.subrange(p * a, p * a + a)
                &&& final(grid)@ == old(grid)@.subrange(0, p * a) + final(b.arr)@ + old(
                    grid,
                )@.subrange(p * a + a, n)
                &&& final(grid).spec_rows() == old(grid).spec_rows()
                &&& final(grid).spec_cols() == old(grid).spec_cols()
                &&& final(grid).inv() == old(grid).inv()
            },
            r is None ==> {
                &&& old(self).spec_pos() >= old(self).spec_blocks()
                &&& *final(self) == *old(self)
                &&& *final(grid) == *old(grid)
            },
    {
        proof {
            lemma_dim_bounds::<B>();
        }
        let a = B::area();
        if self.pos >= self.len / a {
            return None;
        }
        proof {
            lemma_block_slot::<B>(self.len as int, self.col_blocks as int, self.pos as int);
            lemma_block_walk_step(self.col_blocks as int, self.pos as int);
        }
        let start = self.pos * a;
        let coords = self.current_coords();
        self.pos = self.pos + 1;
        self.block_col = self.block_col + 1;
        if self.block_col == self.col_blocks {
            self.block_row = self.block_row + 1;
            self.block_col = 0;
        }
        let all = grid.raw_mut();
        let (_head, rest) = all.split_at_mut(start);
        let (chunk, _tail) = rest.split_at_mut(a);
        Some(BlockMut::new(coords, chunk))
    }

    /// Returns the number of blocks left to hand out.
    pub fn len(&self) -> (r: usize)
        requires
            self.wf(),
        ensures
            r == self.spec_blocks() - self.spec_pos(),
    {
        proof {
            lemma_dim_bounds::<B>();
        }
        self.len / B::area() - self.pos
    }

    /// Returns the number of blocks left to hand out, consuming the cursor.
    pub fn count(self) -> (r: usize)
        requires
            self.wf(),
        ensures
            r == self.spec_blocks() - self.spec_pos(),
    {
        self.len()
    }
}

impl<T, B: BlockDim> Sealed for BlockIterMut<T, B> {}

impl<T, B: BlockDim> CoordsIterator for BlockIterMut<T, B> {
    /// Returns the block coordinates of the block that `next` hands out next.
    fn current_coords(&self) -> (r: Coords)
        ensures
            self.wf() ==> r.0 == self.spec_pos() / self.spec_col_blocks() && r.1 == self.spec_pos()
                % self.spec_col_blocks(),
    {
        (self.block_row, self.block_col)
    }
}

impl<T, B: BlockDim> BlockGrid<T, B> {
    /// Returns an iterator over all blocks in memory order, yielding `Block`s.
    ///
    /// Chain `.coords()` for block coordinates too: `(i, j)` is the `j`-th block in the `i`-th
    /// row of blocks. For the coordinates of a block's top-left element, see `Block::starts_at`.
    pub fn block_iter(&self) -> (r: BlockIter<'_, T, B>)
        requires
            self.wf(),
        ensures
            r.wf(),
            r.items() == self@,
            r.spec_pos() == 0,
            r.spec_col_blocks() == self.spec_cols() / width_spec::<B>(),
            r.spec_blocks() == (self.spec_rows() / width_spec::<B>()) * (self.spec_cols()
                / width_spec::<B>()),
    {
        BlockIter::new(self)
    }

    /// Returns a cursor that hands out every block mutably, in memory order, as `BlockMut`s.
    ///
    /// Chain `.coords()` for block coordinates too.
    pub fn block_iter_mut(&mut self) -> (r: BlockIterMut<T, B>)
        requires
            old(self).wf(),
        ensures
            r.wf(),
            r.fits(old(self)),
            r.spec_pos() == 0,
            r.spec_blocks() == (old(self).spec_rows() / width_spec::<B>()) * (old(self).spec_cols()
                / width_spec::<B>()),
            *final(self) == *old(self),
    {
        BlockIterMut::new(self)
    }
}

/// The row-major cursor `(row, col)` lies on a valid coordinate, or just past the last row.
pub open spec fn row_major_ok(rows: int, cols: int, row: int, col: int) -> bool {
    (0 <= row < rows && 0 <= col < cols) || (row == rows && col == 0)
}

/// The row-major cursor after one step.
pub open spec fn row_major_step(cols: int, row: int, col: int) -> (int, int) {
    if col + 1 == cols {
        (row + 1, 0)
    } else {
        (row, col + 1)
    }
}

/// The number of elements before `(row, col)` in row-major order lies in `0..=rows * cols`.
proof fn lemma_row_major_pos(rows: int, cols: int, row: int, col: int)
    requires
        rows > 0,
        cols > 0,
        row_major_ok(rows, cols, row, col),
    ensures
        0 <= row * cols + col <= rows * cols,
        row < rows ==> row * cols + col < rows * cols,
        row_major_step(cols, row, col).0 * cols + row_major_step(cols, row, col).1 == row * cols
            + col + 1,
{
    if row < rows {
        assert(0 <= row * cols + col < rows * cols) by (nonlinear_arith)
            requires
                0 <= row < rows,
                0 <= col < cols,
        ;
        assert((row + 1) * cols == row * cols + cols) by (nonlinear_arith);
    } else {
        assert(row * cols == rows * cols);
    }
}

/// An iterator over all elements of a grid in row-major order.
///
/// Each step looks the element up through the address translation, so this walk is slower
/// than `EachIter`; it suits conversion and input/output. Created by `BlockGrid::row_major_iter`.
#[derive(Debug)]
pub struct RowMajorIter<'a, T, B: BlockDim> {
    row: usize,
    col: usize,
    grid: &'a BlockGrid<T, B>,
}

impl<'a, T, B: BlockDim> RowMajorIter<'a, T, B> {
    /// The grid walked.
    pub closed spec fn spec_grid(&self) -> BlockGrid<T, B> {
        *self.grid
    }

    /// Row of the element yielded next.
    pub closed spec fn spec_row(&self) -> nat {
        self.row as nat
    }

    /// Column of the element yielded next.
    pub closed spec fn spec_col(&self) -> nat {
        self.col as nat
    }

    /// Number of elements already yielded.
    pub open spec fn spec_pos(&self) -> nat {
        self.spec_row() * self.spec_grid().spec_cols() + self.spec_col()
    }

    /// The cursor agrees with the grid walked.
    pub open spec fn wf(&self) -> bool {
        &&& self.spec_grid().wf()
        &&& row_major_ok(
            self.spec_grid().spec_rows() as int,
            self.spec_grid().spec_cols() as int,
            self.spec_row() as int,
            self.spec_col() as int,
        )
    }

    /// Starts the walk over `grid`.
    pub(crate) fn new(grid: &'a BlockGrid<T, B>) -> (r: Self)
        requires
            grid.wf(),
        ensures
            r.wf(),
            r.spec_grid() == *grid,
            r.spec_row() == 0,
            r.spec_col() == 0,
    {
        RowMajorIter { row: 0, col: 0, grid }
    }

    /// Yields the next element in row-major order, or `None` once all have been yielded.
    pub fn next(&mut self) -> (r: Option<&'a T>)
        requires
            old(self).wf(),
        ensures
            final(self).wf(),
            final(self).spec_grid() == old(self).spec_grid(),
            old(self).spec_row() < old(self).spec_grid().spec_rows() ==> {
                &&& r matches Some(x) && *x == old(self).spec_grid().elem(
                    old(self).spec_row() as int,
                    old(self).spec_col() as int,
                )
                &&& (final(self).spec_row() as int, final(self).spec_col() as int)
                    == row_major_step(
                    old(self).spec_grid().spec_cols() as int,
                    old(self).spec_row() as int,
                    old(self).spec_col() as int,
                )
                &&& final(self).spec_pos() == old(self).spec_pos() + 1
            },
            old(self).spec_row() >= old(self).spec_grid().spec_rows() ==> r is None && *final(self)
                == *old(self),
    {
        if self.row >= self.grid.rows() {
            return None;
        }
        proof {
            lemma_row_major_pos(
                self.grid.spec_rows() as int,
                self.grid.spec_cols() as int,
                self.row as int,
                self.col as int,
            );
        }
        let grid: &'a BlockGrid<T, B> = self.grid;
        let x = grid.get_unchecked((self.row, self.col));
        self.col = self.col + 1;
        if self.col == grid.cols() {
            self.row = self.row + 1;
            self.col = 0;
        }
        Some(x)
    }

    /// Returns the number of elements left to yield.
    pub fn len(&self) -> (r: usize)
        requires
            self.wf(),
        ensures
            r == self.spec_grid()@.len() - self.spec_pos(),
    {
        proof {
            lemma_row_major_pos(
                self.grid.spec_rows() as int,
                self.grid.spec_cols() as int,
                self.row as int,
                self.col as int,
            );
        }
        self.grid.size() - (self.row * self.grid.cols() + self.col)
    }

    /// Skips `n` elements and yields the one after them, or `None` if fewer remain.
    pub fn nth(&mut self, n: usize) -> (r: Option<&'a T>)
        requires
            old(self).wf(),
        ensures
            final(self).wf(),
            final(self).spec_grid() == old(self).spec_grid(),
            old(self).spec_pos() + n < old(self).spec_grid()@.len() ==> {
                let p = old(self).spec_pos() + n;
                let cols = old(self).spec_grid().spec_cols() as int;
                &&& r matches Some(x) && *x == old(self).spec_grid().elem(p / cols, p % cols)
                &&& final(self).spec_pos() == p + 1
            },
            old(self).spec_pos() + n >= old(self).spec_grid()@.len() ==> r is None,
    {
        let ghost g = *self.grid;
        let ghost (rows, cols) = (g.spec_rows() as int, g.spec_cols() as int);
        proof {
            lemma_row_major_order(rows, cols);
            lemma_row_major_pos(rows, cols, self.row as int, self.col as int);
        }
        let mut k: usize = 0;
        while k < n
            invariant
                self.wf(),
                self.spec_grid() == g,
                rows == g.spec_rows() && cols == g.spec_cols(),
                g@.len() == rows * cols,
                old(self).spec_pos() <= g@.len(),
                k <= n,
                self.spec_pos() == if old(self).spec_pos() + k <= g@.len() {
                    old(self).spec_pos() + k
                } else {
                    g@.len() as int
                },
            decreases n - k,
        {
            proof {
                lemma_row_major_pos(rows, cols, self.row as int, self.col as int);
            }
            let _ = self.next();
            k = k + 1;
        }
        proof {
            lemma_row_major_order(rows, cols);
            lemma_row_major_pos(rows, cols, self.row as int, self.col as int);
            assert(self.spec_pos() == self.row * cols + self.col);
        }
        self.next()
    }

    /// Yields all remaining elements and returns how many there were.
    pub fn count(self) -> (r: usize)
        requires
            self.wf(),
        ensures
            r == self.spec_grid()@.len() - self.spec_pos(),
    {
        let mut it = self;
        let mut n: usize = 0;
        proof {
            lemma_row_major_pos(
                self.grid.spec_rows() as int,
                self.grid.spec_cols() as int,
                self.row as int,
                self.col as int,
            );
        }
        while it.next().is_some()
            invariant
                it.wf(),
                it.spec_grid() == self.spec_grid(),
                n + self.spec_pos() == it.spec_pos(),
                it.spec_pos() <= it.spec_grid()@.len(),
            decreases it.spec_grid()@.len() - it.spec_pos(),
        {
            proof {
                lemma_row_major_pos(
                    it.grid.spec_rows() as int,
                    it.grid.spec_cols() as int,
                    it.row as int,
                    it.col as int,
                );
            }
            n = n + 1;
        }
        n
    }
}

impl<'a, T, B: BlockDim> Sealed for RowMajorIter<'a, T, B> {}

impl<'a, T, B: BlockDim> CoordsIterator for RowMajorIter<'a, T, B> {
    /// Returns the coordinates of the element that `next` yields next.
    fn current_coords(&self) -> (r: Coords)
        ensures
            r.0 == self.spec_row() && r.1 == self.spec_col(),
    {
        (self.row, self.col)
    }
}

/// A mutable walk over all elements of a grid in row-major order.
///
/// Created by `BlockGrid::row_major_iter_mut`. It is a cursor: each step takes the grid and hands
/// out one element, so that no two live references can alias.
#[derive(Debug)]
pub struct RowMajorIterMut<T, B: BlockDim> {
    row: usize,
    col: usize,
    rows: usize,
    cols: usize,
    _elem: PhantomData<T>,
    _phantom: PhantomData<B>,
}

impl<T, B: BlockDim> RowMajorIterMut<T, B> {
    /// Row of the element handed out next.
    pub closed spec fn spec_row(&self) -> nat {
        self.row as nat
    }

    /// Column of the element handed out next.
    pub closed spec fn spec_col(&self) -> nat {
        self.col as nat
    }

    /// Number of rows of the grid walked.
    pub closed spec fn spec_rows(&self) -> nat {
        self.rows as nat
    }

    /// Number of columns of the grid walked.
    pub closed spec fn spec_cols(&self) -> nat {
        self.cols as nat
    }

    /// Number of elements already handed out.
    pub open spec fn spec_pos(&self) -> nat {
        self.spec_row() * self.spec_cols() + self.spec_col()
    }

    /// The cursor lies on a valid coordinate, or just past the last row.
    pub open spec fn wf(&self) -> bool {
        &&& self.spec_rows() > 0
        &&& self.spec_cols() > 0
        &&& self.spec_rows() * self.spec_cols() <= usize::MAX
        &&& row_major_ok(
            self.spec_rows() as int,
            self.spec_cols() as int,
            self.spec_row() as int,
            self.spec_col() as int,
        )
    }

    /// The cursor walks a grid of this shape.
    pub open spec fn fits(&self, grid: &BlockGrid<T, B>) -> bool {
        &&& grid.wf()
        &&& grid.spec_rows() == self.spec_rows()
        &&& grid.spec_cols() == self.spec_cols()
    }

    /// Starts the walk over `grid`.
    pub(crate) fn new(grid: &BlockGrid<T, B>) -> (r: Self)
        requires
            grid.wf(),
        ensures
            r.wf(),
            r.fits(grid),
            r.spec_row() == 0,
            r.spec_col() == 0,
    {
        RowMajorIterMut {
            row: 0,
            col: 0,
            rows: grid.rows(),
            cols: grid.cols(),
            _elem: PhantomData,
            _phantom: PhantomData,
        }
    }

    /// Hands out the next element of `grid` in row-major order, or `None` once all have been
    /// handed out. Writing through it changes that element alone.
    pub fn next<'g>(&mut self, grid: &'g mut BlockGrid<T, B>) -> (r: Option<&'g mut T>)
        requires
            old(self).wf(),
            old(self).fits(old(grid)),
        ensures
            final(self).wf(),
            final(self).spec_rows() == old(self).spec_rows(),
            final(self).spec_cols() == old(self).spec_cols(),
            r is Some <==> old(self).spec_row() < old(self).spec_rows(),
            old(self).spec_row() < old(self).spec_rows() ==> {
                &&& (final(self).spec_row() as int, final(self).spec_col() as int)
                    == row_major_step(
                    old(self).spec_cols() as int,
                    old(self).spec_row() as int,
                    old(self).spec_col() as int,
                )
                &&& final(self).spec_pos() == old(self).spec_pos() + 1
            },
            r matches Some(x) ==> {
                let (row, col) = (old(self).spec_row() as int, old(self).spec_col() as int);
                &&& *x == old(grid).elem(row, col)
                &&& final(grid)@ == old(grid)@.update(old(grid).index_of(row, col), *final(x))
                &&& final(grid).spec_rows() == old(grid).spec_rows()
                &&& final(grid).spec_cols() == old(grid).spec_cols()
                &&& final(grid).inv() == old(grid).inv()
            },
            r is None ==> {
                &&& old(self).spec_row() >= old(self).spec_rows()
                &&& *final(self) == *old(self)
                &&& *final(grid) == *old(grid)
            },
    {
        if self.row >= self.rows {
            return None;
        }
        proof {
            lemma_row_major_pos(self.rows as int, self.cols as int, self.row as int, self.col as int);
        }
        let coords = (self.row, self.col);
        self.col = self.col + 1;
        if self.col == self.cols {
            self.row = self.row + 1;
            self.col = 0;
        }
        Some(grid.get_unchecked_mut(coords))
    }

    /// Returns the number of elements left to hand out.
    pub fn len(&self) -> (r: usize)
        requires
            self.wf(),
        ensures
            r == self.spec_rows() * self.spec_cols() - self.spec_pos(),
    {
        proof {
            lemma_row_major_pos(self.rows as int, self.cols as int, self.row as int, self.col as int);
        }
        self.rows * self.cols - (self.row * self.cols + self.col)
    }

    /// Returns the number of elements left to hand out, consuming the cursor.
    pub fn count(self) -> (r: usize)
        requires
            self.wf(),
        ensures
            r == self.spec_rows() * self.spec_cols() - self.spec_pos(),
    {
        self.len()
    }
}

impl<T, B: BlockDim> Sealed for RowMajorIterMut<T, B> {}

impl<T, B: BlockDim> CoordsIterator for RowMajorIterMut<T, B> {
    /// Returns the coordinates of the element that `next` hands out next.
    fn current_coords(&self) -> (r: Coords)
        ensures
            r.0 == self.spec_row() && r.1 == self.spec_col(),
    {
        (self.row, self.col)
    }
}

impl<T, B: BlockDim> BlockGrid<T, B> {
    /// Returns an iterator over all elements in row-major order.
    ///
    /// This is the usual order of 2D arrays; it suits conversion and input/output. Chain
    /// `.coords()` for coordinates too.
    pub fn row_major_iter(&self) -> (r: RowMajorIter<'_, T, B>)
        requires
            self.wf(),
        ensures
            r.wf(),
            r.spec_grid() == *self,
            r.spec_row() == 0,
            r.spec_col() == 0,
    {
        RowMajorIter::new(self)
    }

    /// Returns a cursor that hands out every element mutably, in row-major order.
    ///
    /// Chain `.coords()` for coordinates too.
    pub fn row_major_iter_mut(&mut self) -> (r: RowMajorIterMut<T, B>)
        requires
            old(self).wf(),
        ensures
            r.wf(),
            r.fits(old(self)),
            r.spec_row() == 0,
            r.spec_col() == 0,
            *final(self) == *old(self),
    {
        RowMajorIterMut::new(self)
    }
}

impl<'a, T, B: BlockDim> WithCoordsIter<EachIter<'a, T, B>> {
    /// Yields the coordinates and the next element in memory order.
    pub fn next(&mut self) -> (r: Option<(Coords, &'a T)>)
        requires
            old(self).inner().wf(),
        ensures
            final(self).inner().wf(),
            final(self).inner().items() == old(self).inner().items(),
            final(self).inner().spec_cols() == old(self).inner().spec_cols(),
            ({
                let it = old(self).inner();
                it.spec_pos() < it.items().len() ==> {
                    &&& r matches Some((c, x)) && *x == it.items()[it.spec_pos() as int] && (
                    c.0 as int, c.1 as int) == coords_of(
                        width_spec::<B>() as int,
                        it.spec_cols() as int,
                        it.spec_pos() as int,
                    )
                    &&& final(self).inner().spec_pos() == it.spec_pos() + 1
                }
            }),
            old(self).inner().spec_pos() >= old(self).inner().items().len() ==> r is None
                && *final(self) == *old(self),
    {
        let c = self.iter.current_coords();
        match self.iter.next() {
            Some(x) => Some((c, x)),
            None => None,
        }
    }

    /// Skips `n` elements and yields the coordinates and the element after them.
    pub fn nth(&mut self, n: usize) -> (r: Option<(Coords, &'a T)>)
        requires
            old(self).inner().wf(),
        ensures
            final(self).inner().wf(),
            final(self).inner().items() == old(self).inner().items(),
            ({
                let it = old(self).inner();
                it.spec_pos() + n < it.items().len() ==> {
                    &&& r matches Some((c, x)) && *x == it.items()[it.spec_pos() + n] && (c.0 as int,
                    c.1 as int) == coords_of(
                        width_spec::<B>() as int,
                        it.spec_cols() as int,
                        it.spec_pos() + n,
                    )
                    &&& final(self).inner().spec_pos() == it.spec_pos() + n + 1
                }
            }),
            old(self).inner().spec_pos() + n >= old(self).inner().items().len() ==> r is None,
    {
        if n >= 1 {
            if self.iter.nth(n - 1).is_none() {
                return None;
            }
        }
        self.next()
    }

    /// Returns the number of elements left to yield.
    pub fn len(&self) -> (r: usize)
        requires
            self.inner().wf(),
        ensures
            r == self.inner().items().len() - self.inner().spec_pos(),
    {
        self.iter.len()
    }
}

impl<T, B: BlockDim> WithCoordsIter<EachIterMut<T, B>> {
    /// Hands out the coordinates and the next element of `grid` in memory order.
    pub fn next<'g>(&mut self, grid: &'g mut BlockGrid<T, B>) -> (r: Option<(Coords, &'g mut T)>)
        requires
            old(self).inner().wf(),
            old(self).inner().fits(old(grid)),
        ensures
            final(self).inner().wf(),
            final(self).inner().spec_len() == old(self).inner().spec_len(),
            final(self).inner().spec_cols() == old(self).inner().spec_cols(),
            old(self).inner().spec_pos() < old(self).inner().spec_len() ==> {
                &&& r is Some
                &&& final(self).inner().spec_pos() == old(self).inner().spec_pos() + 1
            },
            r matches Some((c, x)) ==> {
                let p = old(self).inner().spec_pos() as int;
                &&& (c.0 as int, c.1 as int) == coords_of(
                    width_spec::<B>() as int,
                    old(self).inner().spec_cols() as int,
                    p,
                )
                &&& *x == old(grid)@[p]
                &&& final(grid)@ == old(grid)@.update(p, *final(x))
                &&& final(grid).spec_rows() == old(grid).spec_rows()
                &&& final(grid).spec_cols() == old(grid).spec_cols()
                &&& final(grid).inv() == old(grid).inv()
            },
            r is None ==> *final(self) == *old(self) && *final(grid) == *old(grid),
    {
        let c = self.iter.current_coords();
        match self.iter.next(grid) {
            Some(x) => Some((c, x)),
            None => None,
        }
    }

    /// Returns the number of elements left to hand out.
    pub fn len(&self) -> (r: usize)
        requires
            self.inner().wf(),
        ensures
            r == self.inner().spec_len() - self.inner().spec_pos(),
    {
        self.iter.len()
    }
}

impl<'a, T, B: BlockDim> WithCoordsIter<BlockIter<'a, T, B>> {
    /// Yields the block coordinates and a view of the next block in memory order.
    pub fn next(&mut self) -> (r: Option<(Coords, Block<'a, T, B>)>)
        requires
            old(self).inner().wf(),
        ensures
            final(self).inner().wf(),
            final(self).inner().items() == old(self).inner().items(),
            final(self).inner().spec_col_blocks() == old(self).inner().spec_col_blocks(),
            old(self).inner().spec_pos() < old(self).inner().spec_blocks() ==> {
                &&& r is Some
                &&& final(self).inner().spec_pos() == old(self).inner().spec_pos() + 1
            },
            r matches Some((c, b)) ==> {
                let p = old(self).inner().spec_pos() as int;
                let a = area_spec::<B>() as int;
                &&& c == b.spec_coords()
                &&& b.wf()
                &&& c.0 == p / old(self).inner().spec_col_blocks() as int
                &&& c.1 == p % old(self).inner().spec_col_blocks() as int
                &&& b@ == old(self).inner().items().subrange(p * a, p * a + a)
            },
            old(self).inner().spec_pos() >= old(self).inner().spec_blocks() ==> r is None
                && *final(self) == *old(self),
    {
        let c = self.iter.current_coords();
        match self.iter.next() {
            Some(b) => Some((c, b)),
            None => None,
        }
    }

    /// Skips `n` blocks and yields the block coordinates and a view of the block after them.
    pub fn nth(&mut self, n: usize) -> (r: Option<(Coords, Block<'a, T, B>)>)
        requires
            old(self).inner().wf(),
        ensures
            final(self).inner().wf(),
            final(self).inner().items() == old(self).inner().items(),
            old(self).inner().spec_pos() + n < old(self).inner().spec_blocks() ==> {
                let p = old(self).inner().spec_pos() + n;
                let a = area_spec::<B>() as int;
                let cb = old(self).inner().spec_col_blocks() as int;
                &&& r matches Some((c, b)) && c == b.spec_coords() && b.wf() && c.0 == p / cb && c.1
                    == p % cb && b@ == old(self).inner().items().subrange(p * a, p * a + a)
                &&& final(self).inner().spec_pos() == p + 1
            },
            old(self).inner().spec_pos() + n >= old(self).inner().spec_blocks() ==> r is None,
    {
        if n >= 1 {
            if self.iter.nth(n - 1).is_none() {
                return None;
            }
        }
        self.next()
    }

    /// Returns the number of blocks left to yield.
    pub fn len(&self) -> (r: usize)
        requires
            self.inner().wf(),
        ensures
            r == self.inner().spec_blocks() - self.inner().spec_pos(),
    {
        self.iter.len()
    }
}

impl<T, B: BlockDim> WithCoordsIter<BlockIterMut<T, B>> {
    /// Hands out the block coordinates and a mutable view of the next block of `grid`.
    pub fn next<'g>(&mut self, grid: &'g mut BlockGrid<T, B>) -> (r: Option<
        (Coords, BlockMut<'g, T, B>),
    >)
        requires
            old(self).inner().wf(),
            old(self).inner().fits(old(grid)),
        ensures
            final(self).inner().wf(),
            final(self).inner().spec_len() == old(self).inner().spec_len(),
            final(self).inner().spec_col_blocks() == old(self).inner().spec_col_blocks(),
            old(self).inner().spec_pos() < old(self).inner().spec_blocks() ==> {
                &&& r is Some
                &&& final(self).inner().spec_pos() == old(self).inner().spec_pos() + 1
            },
            r matches Some((c, b)) ==> {
                let p = old(self).inner().spec_pos() as int;
                let a = area_spec::<B>() as int;
                let n = old(grid)@.len() as int;
                &&& c == b.block_coords
                &&& b.wf()
                &&& c.0 == p / old(self).inner().spec_col_blocks() as int
                &&& c.1 == p % old(self).inner().spec_col_blocks() as int
                &&& b@ == old(grid)@.subrange(p * a, p * a + a)
                &&& final(grid)@ == old(grid)@.subrange(0, p * a) + final(b.arr)@ + old(
                    grid,
                )@.subrange(p * a + a, n)
                &&& final(grid).spec_rows() == old(grid).spec_rows()
                &&& final(grid).spec_cols() == old(grid).spec_cols()
                &&& final(grid).inv() == old(grid).inv()
            },
            r is None ==> *final(self) == *old(self) && *final(grid) == *old(grid),
    {
        let c = self.iter.current_coords();
        match self.iter.next(grid) {
            Some(b) => Some((c, b)),
            None => None,
        }
    }

    /// Returns the number of blocks left to hand out.
    pub fn len(&self) -> (r: usize)
        requires
            self.inner().wf(),
        ensures
            r == self.inner().spec_blocks() - self.inner().spec_pos(),
    {
        self.iter.len()
    }
}

impl<'a, T, B: BlockDim> WithCoordsIter<RowMajorIter<'a, T, B>> {
    /// Yields the coordinates and the next element in row-major order.
    pub fn next(&mut self) -> (r: Option<(Coords, &'a T)>)
        requires
            old(self).inner().wf(),
        ensures
            final(self).inner().wf(),
            final(self).inner().spec_grid() == old(self).inner().spec_grid(),
            ({
                let it = old(self).inner();
                it.spec_row() < it.spec_grid().spec_rows() ==> {
                    &&& r matches Some((c, x)) && c.0 == it.spec_row() && c.1 == it.spec_col() && *x
                        == it.spec_grid().elem(it.spec_row() as int, it.spec_col() as int)
                    &&& final(self).inner().spec_pos() == it.spec_pos() + 1
                }
            }),
            old(self).inner().spec_row() >= old(self).inner().spec_grid().spec_rows() ==> r is None
                && *final(self) == *old(self),
    {
        let c = self.iter.current_coords();
        match self.iter.next() {
            Some(x) => Some((c, x)),
            None => None,
        }
    }

    /// Skips `n` elements and yields the coordinates and the element after them.
    pub fn nth(&mut self, n: usize) -> (r: Option<(Coords, &'a T)>)
        requires
            old(self).inner().wf(),
        ensures
            final(self).inner().wf(),
            final(self).inner().spec_grid() == old(self).inner().spec_grid(),
            old(self).inner().spec_pos() + n < old(self).inner().spec_grid()@.len() ==> {
                let p = old(self).inner().spec_pos() + n;
                let cols = old(self).inner().spec_grid().spec_cols() as int;
                &&& r matches Some((c, x)) && c.0 == p / cols && c.1 == p % cols && *x == old(
                    self,
                ).inner().spec_grid().elem(p / cols, p % cols)
                &&& final(self).inner().spec_pos() == p + 1
            },
            old(self).inner().spec_pos() + n >= old(self).inner().spec_grid()@.len() ==> r is None,
    {
        if n >= 1 {
            if self.iter.nth(n - 1).is_none() {
                return None;
            }
        }
        proof {
            let g = self.iter.spec_grid();
            lemma_row_major_order(g.spec_rows() as int, g.spec_cols() as int);
        }
        self.next()
    }

    /// Returns the number of elements left to yield.
    pub fn len(&self) -> (r: usize)
        requires
            self.inner().wf(),
        ensures
            r == self.inner().spec_grid()@.len() - self.inner().spec_pos(),
    {
        self.iter.len()
    }
}

impl<T, B: BlockDim> WithCoordsIter<RowMajorIterMut<T, B>> {
    /// Hands out the coordinates and the next element of `grid` in row-major order.
    pub fn next<'g>(&mut self, grid: &'g mut BlockGrid<T, B>) -> (r: Option<(Coords, &'g mut T)>)
        requires
            old(self).inner().wf(),
            old(self).inner().fits(old(grid)),
        ensures
            final(self).inner().wf(),
            final(self).inner().spec_rows() == old(self).inner().spec_rows(),
            final(self).inner().spec_cols() == old(self).inner().spec_cols(),
            old(self).inner().spec_row() < old(self).inner().spec_rows() ==> {
                &&& r is Some
                &&& final(self).inner().spec_pos() == old(self).inner().spec_pos() + 1
            },
            r matches Some((c, x)) ==> {
                let (row, col) = (old(self).inner().spec_row() as int, old(self).inner().spec_col() as int);
                &&& c.0 == row && c.1 == col
                &&& *x == old(grid).elem(row, col)
                &&& final(grid)@ == old(grid)@.update(old(grid).index_of(row, col), *final(x))
                &&& final(grid).spec_rows() == old(grid).spec_rows()
                &&& final(grid).spec_cols() == old(grid).spec_cols()
                &&& final(grid).inv() == old(grid).inv()
            },
            r is None ==> *final(self) == *old(self) && *final(grid) == *old(grid),
    {
        let c = self.iter.current_coords();
        match self.iter.next(grid) {
            Some(x) => Some((c, x)),
            None => None,
        }
    }

    /// Returns the number of elements left to hand out.
    pub fn len(&self) -> (r: usize)
        requires
            self.inner().wf(),
        ensures
            r == self.inner().spec_rows() * self.inner().spec_cols() - self.inner().spec_pos(),
    {
        self.iter.len()
    }
}

/// `a` comes strictly before `b` in lexicographic order.
pub open spec fn lex_less(a: (int, int), b: (int, int)) -> bool {
    a.0 < b.0 || (a.0 == b.0 && a.1 < b.1)
}

/// The row-major walk: the cursor after `k` steps is `(k / cols, k % cols)`; those coordinates
/// come in strictly increasing lexicographic order, so none repeats; and every valid coordinate
/// is reached within `rows * cols` steps. With `rows` and `cols` counted in blocks, the same
/// holds of the block coordinates `(k / cb, k % cb)` that the block walk yields.
pub proof fn lemma_row_major_order(rows: int, cols: int)
    requires
        rows > 0,
        cols > 0,
    ensures
        forall|row: int, col: int|
            row_major_ok(rows, cols, row, col) ==> (#[trigger] (row * cols + col)) / cols == row
                && (row * cols + col) % cols == col,
        forall|k1: int, k2: int|
            0 <= k1 < k2 < rows * cols ==> lex_less(
                (#[trigger] (k1 / cols), k1 % cols),
                (#[trigger] (k2 / cols), k2 % cols),
            ),
        forall|row: int, col: int|
            0 <= row < rows && 0 <= col < cols ==> 0 <= #[trigger] (row * cols + col) < rows * cols,
{
    assert forall|row: int, col: int| row_major_ok(rows, cols, row, col) implies (#[trigger] (row
        * cols + col)) / cols == row && (row * cols + col) % cols == col by {
        assert(row * cols + col == row * cols + col);
        lemma_fundamental_div_mod_converse(row * cols + col, cols, row, col);
    }
    assert forall|k1: int, k2: int| 0 <= k1 < k2 < rows * cols implies lex_less(
        (#[trigger] (k1 / cols), k1 % cols),
        (#[trigger] (k2 / cols), k2 % cols),
    ) by {
        vstd::arithmetic::div_mod::lemma_fundamental_div_mod(k1, cols);
        vstd::arithmetic::div_mod::lemma_fundamental_div_mod(k2, cols);
        let (q1, r1, q2, r2) = (k1 / cols, k1 % cols, k2 / cols, k2 % cols);
        assert(q1 < q2 || (q1 == q2 && r1 < r2)) by (nonlinear_arith)
            requires
                k1 == cols * q1 + r1,
                k2 == cols * q2 + r2,
                0 <= r1 < cols,
                0 <= r2 < cols,
                k1 < k2,
        ;
    }
    assert forall|row: int, col: int| 0 <= row < rows && 0 <= col < cols implies 0 <= #[trigger] (
    row * cols + col) < rows * cols by {
        lemma_row_major_pos(rows, cols, row, col);
    }
}

} // verus!
