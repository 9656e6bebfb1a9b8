use core::marker::PhantomData;

use vstd::arithmetic::div_mod::lemma_fundamental_div_mod;
use vstd::prelude::*;
use vstd::std_specs::cmp::PartialEqSpec;

use crate::block_width::{area_spec, lemma_dim_bounds, width_spec, BlockDim, MAX_SHIFT};
use crate::translate::{coords_of, lemma_compose, lemma_linear_index_inverse, linear_index, valid_shape};

verus! {

/// A pair of indices `(row, column)`: the coordinates of an element, or of a block.
pub type Coords = (usize, usize);

/// A fixed-size 2D array with a blocked memory representation.
///
/// The buffer holds `rows * cols` elements in block-major order: the blocks of width `B::width()`
/// come row-major over the grid of blocks, and the elements of one block are contiguous and
/// row-major within it.
#[derive(Debug)]
pub struct BlockGrid<T, B: BlockDim> {
    rows: usize,
    cols: usize,
    col_blocks: usize,
    buf: Vec<T>,
    _phantom: PhantomData<B>,
}

impl<T: Clone, B: BlockDim> Clone for BlockGrid<T, B> {
    fn clone(&self) -> (r: Self)
        ensures
            r.spec_rows() == self.spec_rows(),
            r.spec_cols() == self.spec_cols(),
            r.inv() == self.inv(),
            r@.len() == self@.len(),
            forall|i: int| 0 <= i < self@.len() ==> cloned(self@[i], #[trigger] r@[i]),
    {
        BlockGrid {
            rows: self.rows,
            cols: self.cols,
            col_blocks: self.col_blocks,
            buf: self.buf.clone(),
            _phantom: PhantomData,
        }
    }
}

impl<T: PartialEq, B: BlockDim> PartialEq for BlockGrid<T, B> {
    fn eq(&self, other: &Self) -> (r: bool) {
        self.rows == other.rows && self.cols == other.cols && self.buf == other.buf
    }
}

impl<T: PartialEq, B: BlockDim> vstd::std_specs::cmp::PartialEqSpecImpl for BlockGrid<T, B> {
    open spec fn obeys_eq_spec() -> bool {
        <T as PartialEqSpec>::obeys_eq_spec()
    }

    /// Two grids are equal when they have the same shape and equal elements in each slot.
    open spec fn eq_spec(&self, other: &Self) -> bool {
        &&& self.spec_rows() == other.spec_rows()
        &&& self.spec_cols() == other.spec_cols()
        &&& self@.len() == other@.len()
        &&& forall|i: int| 0 <= i < self@.len() ==> #[trigger] self@[i].eq_spec(&other@[i])
    }
}

impl<T: Eq, B: BlockDim> Eq for BlockGrid<T, B> {}

impl<T, B: BlockDim> View for BlockGrid<T, B> {
    type V = Seq<T>;

    /// The backing buffer, in memory (block-major) order.
    closed spec fn view(&self) -> Seq<T> {
        self.buf@
    }
}

impl<T, B: BlockDim> BlockGrid<T, B> {
    /// Number of rows.
    pub closed spec fn spec_rows(&self) -> nat {
        self.rows as nat
    }

    /// Number of columns.
    pub closed spec fn spec_cols(&self) -> nat {
        self.cols as nat
    }

    /// The cached number of blocks per row agrees with the shape.
    pub closed spec fn inv(&self) -> bool {
        &&& B::spec_shift() <= MAX_SHIFT
        &&& self.col_blocks as nat == self.cols as nat / width_spec::<B>()
    }

    /// The grid is well formed: its shape tiles exactly into blocks and the buffer holds one
    /// element per coordinate.
    pub open spec fn wf(&self) -> bool {
        &&& valid_shape(width_spec::<B>() as int, self.spec_rows() as int, self.spec_cols() as int)
        &&& self@.len() == self.spec_rows() * self.spec_cols()
        &&& self@.len() <= usize::MAX
        &&& self.spec_rows() <= usize::MAX
        &&& self.spec_cols() <= usize::MAX
        &&& self.inv()
    }

    /// `(row, col)` is a valid element coordinate.
    pub open spec fn in_bounds(&self, row: int, col: int) -> bool {
        0 <= row < self.spec_rows() && 0 <= col < self.spec_cols()
    }

    /// Memory offset of the element `(row, col)`.
    pub open spec fn index_of(&self, row: int, col: int) -> int {
        linear_index(width_spec::<B>() as int, self.spec_cols() as int, row, col)
    }

    /// The element at `(row, col)`.
    pub open spec fn elem(&self, row: int, col: int) -> T {
        self@[self.index_of(row, col)]
    }

    /// A valid coordinate has its slot inside the buffer.
    pub proof fn lemma_index_in_buffer(&self, row: int, col: int)
        requires
            self.wf(),
            self.in_bounds(row, col),
        ensures
            0 <= self.index_of(row, col) < self@.len(),
    {
        lemma_linear_index_inverse(
            width_spec::<B>() as int,
            self.spec_rows() as int,
            self.spec_cols() as int,
            row,
            col,
        );
    }

    /// Returns `true` if `rows` and `cols` form a valid shape for blocks of the dimension `B`.
    fn valid_size(rows: usize, cols: usize) -> (r: bool)
        ensures
            r == valid_shape(width_spec::<B>() as int, rows as int, cols as int),
    {
        proof {
            lemma_dim_bounds::<B>();
        }
        let w = B::width();
        rows > 0 && cols > 0 && rows % w == 0 && cols % w == 0
    }

    /// Constructs a grid by consuming a vector, whose order is taken as the memory order.
    ///
    /// Fails if `rows` or `cols` is zero or not a multiple of the block width, or if the length
    /// of `elems` is not `rows * cols`.
    pub fn from_raw_vec(rows: usize, cols: usize, elems: Vec<T>) -> (r: Result<Self, ()>)
        ensures
            r is Ok <==> valid_shape(width_spec::<B>() as int, rows as int, cols as int)
                && elems@.len() == rows * cols,
            r matches Ok(g) ==> g.wf() && g.spec_rows() == rows && g.spec_cols() == cols && g@
                == elems@,
    {
        if !Self::valid_size(rows, cols) {
            return Err(());
        }
        match rows.checked_mul(cols) {
            None => {
                assert(elems@.len() == elems.len());
                Err(())
            },
            Some(n) => {
                if n != elems.len() {
                    return Err(());
                }
                proof {
                    lemma_dim_bounds::<B>();
                }
                let w = B::width();
                Ok(Self { rows, cols, col_blocks: cols / w, buf: elems, _phantom: PhantomData })
            },
        }
    }

    /// Converts the grid to a vector in memory order.
    pub fn take_raw_vec(self) -> (r: Vec<T>)
        ensures
            r@ == self@,
    {
        self.buf
    }

    /// Returns the number of rows.
    pub fn rows(&self) -> (r: usize)
        ensures
            r == self.spec_rows(),
    {
        self.rows
    }

    /// Returns the number of columns.
    pub fn cols(&self) -> (r: usize)
        ensures
            r == self.spec_cols(),
    {
        self.cols
    }

    /// Returns the number of elements.
    pub fn size(&self) -> (r: usize)
        requires
            self.wf(),
        ensures
            r == self.spec_rows() * self.spec_cols(),
            r == self@.len(),
    {
        proof {
            assert(self.buf@.len() == self.buf.len());
        }
        self.rows * self.cols
    }

    /// Returns the number of blocks in the vertical direction.
    pub fn row_blocks(&self) -> (r: usize)
        requires
            self.wf(),
        ensures
            r == self.spec_rows() / width_spec::<B>(),
    {
        self.rows / B::width()
    }

    /// Returns the number of blocks in the horizontal direction.
    pub fn col_blocks(&self) -> (r: usize)
        requires
            self.wf(),
        ensures
            r == self.spec_cols() / width_spec::<B>(),
    {
        self.col_blocks
    }

    /// Returns the total number of blocks.
    pub fn blocks(&self) -> (r: usize)
        requires
            self.wf(),
        ensures
            r == (self.spec_rows() / width_spec::<B>()) * (self.spec_cols() / width_spec::<B>()),
    {
        proof {
            lemma_dim_bounds::<B>();
            let (w, rows, cols) = (width_spec::<B>() as int, self.spec_rows() as int, self.spec_cols() as int);
            assert(0 <= (rows / w) * (cols / w) <= rows * cols) by (nonlinear_arith)
                requires
                    w >= 1,
                    rows >= 0,
                    cols >= 0,
                    rows / w <= rows,
                    cols / w <= cols,
                    rows / w >= 0,
                    cols / w >= 0,
            ;
            assert(self.buf@.len() == self.buf.len());
        }
        self.row_blocks() * self.col_blocks()
    }

    /// Returns `true` if the given coordinates are valid.
    pub fn contains(&self, coords: Coords) -> (r: bool)
        ensures
            r == self.in_bounds(coords.0 as int, coords.1 as int),
    {
        let (row, col) = coords;
        row < self.rows && col < self.cols
    }

    /// Returns the memory offset of the element at the given coordinates.
    fn calc_index(&self, coords: Coords) -> (r: usize)
        requires
            self.wf(),
            self.in_bounds(coords.0 as int, coords.1 as int),
        ensures
            r == self.index_of(coords.0 as int, coords.1 as int),
            r < self@.len(),
    {
        let (row, col) = coords;
        proof {
            lemma_dim_bounds::<B>();
            self.lemma_index_in_buffer(row as int, col as int);
            assert(self.buf@.len() == self.buf.len());
            let w = width_spec::<B>() as int;
            let cb = self.col_blocks as int;
            let (br, bc, sr, sc) = (row as int / w, col as int / w, row as int % w, col as int % w);
            assert(0 <= cb * br <= cb * br + bc <= w * w * (cb * br + bc)) by (nonlinear_arith)
                requires
                    w >= 1,
                    cb >= 0,
                    br >= 0,
                    bc >= 0,
            ;
            assert(0 <= w * sr) by (nonlinear_arith)
                requires
                    w >= 1,
                    sr >= 0,
            ;
        }
        let w = B::width();
        let (b_row, b_col) = (row / w, col / w);
        let block_ind = B::area() * (self.col_blocks * b_row + b_col);
        let (s_row, s_col) = (row % w, col % w);
        let sub_ind = w * s_row + s_col;
        block_ind + sub_ind
    }

    /// Returns a reference to the element at the given coordinates, or `None` if they are out of
    /// bounds.
    pub fn get(&self, coords: Coords) -> (r: Option<&T>)
        requires
            self.wf(),
        ensures
            r is Some <==> self.in_bounds(coords.0 as int, coords.1 as int),
            r matches Some(x) ==> *x == self.elem(coords.0 as int, coords.1 as int),
    {
        if !self.contains(coords) {
            return None;
        }
        Some(self.get_unchecked(coords))
    }

    /// Returns a mutable reference to the element at the given coordinates, or `None` if they
    /// are out of bounds. Writing through it changes that element alone.
    pub fn get_mut(&mut self, coords: Coords) -> (r: Option<&mut T>)
        requires
            old(self).wf(),
        ensures
            r is Some <==> old(self).in_bounds(coords.0 as int, coords.1 as int),
            r matches Some(x) ==> {
                &&& *x == old(self).elem(coords.0 as int, coords.1 as int)
                &&& final(self)@ == old(self)@.update(
                    old(self).index_of(coords.0 as int, coords.1 as int),
                    *final(x),
                )
                &&& final(self).spec_rows() == old(self).spec_rows()
                &&& final(self).spec_cols() == old(self).spec_cols()
                &&& final(self).inv() == old(self).inv()
            },
            r is None ==> *final(self) == *old(self),
    {
        if !self.contains(coords) {
            return None;
        }
        Some(self.get_unchecked_mut(coords))
    }

    /// Returns a reference to the element at the given coordinates, which must be valid.
    pub fn get_unchecked(&self, coords: Coords) -> (r: &T)
        requires
            self.wf(),
            self.in_bounds(coords.0 as int, coords.1 as int),
        ensures
            *r == self.elem(coords.0 as int, coords.1 as int),
    {
        let ind = self.calc_index(coords);
        &self.buf[ind]
    }

    /// Returns a mutable reference to the element at the given coordinates, which must be valid.
    pub fn get_unchecked_mut(&mut self, coords: Coords) -> (r: &mut T)
        requires
            old(self).wf(),
            old(self).in_bounds(coords.0 as int, coords.1 as int),
        ensures
            *r == old(self).elem(coords.0 as int, coords.1 as int),
            final(self)@ == old(self)@.update(
                old(self).index_of(coords.0 as int, coords.1 as int),
                *final(r),
            ),
            final(self).spec_rows() == old(self).spec_rows(),
            final(self).spec_cols() == old(self).spec_cols(),
            final(self).inv() == old(self).inv(),
    {
        let ind = self.calc_index(coords);
        &mut self.buf[ind]
    }

    /// Returns all elements as a slice in memory order.
    pub fn raw(&self) -> (r: &[T])
        ensures
            r@ == self@,
    {
        self.buf.as_slice()
    }

    /// Returns all elements as a mutable slice in memory order.
    pub fn raw_mut(&mut self) -> (r: &mut [T])
        ensures
            r@ == old(self)@,
            final(self)@ == final(r)@,
            final(self).spec_rows() == old(self).spec_rows(),
            final(self).spec_cols() == old(self).spec_cols(),
            final(self).inv() == old(self).inv(),
    {
        self.buf.as_mut_slice()
    }
}

/// Offset of `(row, col)` in a row-major array of `cols` columns.
pub open spec fn row_major_index(cols: int, row: int, col: int) -> int {
    cols * row + col
}

/// Offset of `(row, col)` in a column-major array of `rows` rows.
pub open spec fn col_major_index(rows: int, row: int, col: int) -> int {
    rows * col + row
}

/// Offset of `(row, col)` in a `rows` by `cols` array, column-major or row-major.
spec fn source_index(col_major: bool, rows: int, cols: int, row: int, col: int) -> int {
    if col_major {
        col_major_index(rows, row, col)
    } else {
        row_major_index(cols, row, col)
    }
}

/// Every slot of `buf` holds a clone of the source element of the coordinate stored there.
spec fn pulled_from<T: Clone>(
    buf: Seq<T>,
    elems: Seq<T>,
    w: int,
    rows: int,
    cols: int,
    col_major: bool,
) -> bool {
    forall|k: int|
        0 <= k < buf.len() ==> cloned(
            elems[source_index(
                col_major,
                rows,
                cols,
                coords_of(w, cols, k).0,
                coords_of(w, cols, k).1,
            )],
            #[trigger] buf[k],
        )
}

impl<T: Clone, B: BlockDim> BlockGrid<T, B> {
    /// Constructs a grid filled with clones of a single element.
    ///
    /// Fails if `rows` or `cols` is zero or not a multiple of the block width.
    pub fn filled(rows: usize, cols: usize, elem: T) -> (r: Result<Self, ()>)
        requires
            rows * cols <= usize::MAX,
        ensures
            r is Ok <==> valid_shape(width_spec::<B>() as int, rows as int, cols as int),
            r matches Ok(g) ==> {
                &&& g.wf()
                &&& g.spec_rows() == rows
                &&& g.spec_cols() == cols
                &&& forall|k: int| 0 <= k < g@.len() ==> cloned(elem, #[trigger] g@[k])
            },
    {
        if !Self::valid_size(rows, cols) {
            return Err(());
        }
        proof {
            lemma_dim_bounds::<B>();
        }
        let w = B::width();
        Ok(Self { rows, cols, col_blocks: cols / w, buf: vec![elem; rows * cols], _phantom: PhantomData })
    }

    /// Constructs a grid from a slice in row-major order.
    ///
    /// Fails if `rows` or `cols` is zero or not a multiple of the block width, or if the length
    /// of `elems` is not `rows * cols`.
    pub fn from_row_major(rows: usize, cols: usize, elems: &[T]) -> (r: Result<Self, ()>)
        ensures
            r is Ok <==> valid_shape(width_spec::<B>() as int, rows as int, cols as int)
                && elems@.len() == rows * cols,
            r matches Ok(g) ==> {
                &&& g.wf()
                &&& g.spec_rows() == rows
                &&& g.spec_cols() == cols
                &&& forall|i: int, j: int|
                    g.in_bounds(i, j) ==> cloned(
                        elems@[row_major_index(cols as int, i, j)],
                        #[trigger] g.elem(i, j),
                    )
            },
    {
        Self::from_array_index_helper(rows, cols, elems, false)
    }

    /// Constructs a grid from a slice in column-major order.
    ///
    /// Fails if `rows` or `cols` is zero or not a multiple of the block width, or if the length
    /// of `elems` is not `rows * cols`.
    pub fn from_col_major(rows: usize, cols: usize, elems: &[T]) -> (r: Result<Self, ()>)
        ensures
            r is Ok <==> valid_shape(width_spec::<B>() as int, rows as int, cols as int)
                && elems@.len() == rows * cols,
            r matches Ok(g) ==> {
                &&& g.wf()
                &&& g.spec_rows() == rows
                &&& g.spec_cols() == cols
                &&& forall|i: int, j: int|
                    g.in_bounds(i, j) ==> cloned(
                        elems@[col_major_index(rows as int, i, j)],
                        #[trigger] g.elem(i, j),
                    )
            },
    {
        Self::from_array_index_helper(rows, cols, elems, true)
    }

    /// Builds a grid from an array in another order: walks the slots in memory order and pulls
    /// each element from its row-major or column-major offset in `elems`.
    fn from_array_index_helper(rows: usize, cols: usize, elems: &[T], col_major: bool) -> (r:
        Result<Self, ()>)
        ensures
            r is Ok <==> valid_shape(width_spec::<B>() as int, rows as int, cols as int)
                && elems@.len() == rows * cols,
            r matches Ok(g) ==> {
                &&& g.wf()
                &&& g.spec_rows() == rows
                &&& g.spec_cols() == cols
                &&& forall|i: int, j: int|
                    g.in_bounds(i, j) ==> cloned(
                        elems@[source_index(col_major, rows as int, cols as int, i, j)],
                        #[trigger] g.elem(i, j),
                    )
            },
    {
        if !Self::valid_size(rows, cols) {
            return Err(());
        }
        let n = match rows.checked_mul(cols) {
            None => {
                assert(elems@.len() == elems.len());
                return Err(());
            },
            Some(n) => n,
        };
        if n != elems.len() {
            return Err(());
        }
        proof {
            lemma_dim_bounds::<B>();
        }
        let w = B::width();
        let row_blocks = rows / w;
        let col_blocks = cols / w;
        let ghost wi = w as int;
        proof {
            lemma_fundamental_div_mod(rows as int, wi);
            lemma_fundamental_div_mod(cols as int, wi);
            assert(n == wi * wi * (col_blocks * row_blocks)) by (nonlinear_arith)
                requires
                    n == rows * cols,
                    rows == wi * row_blocks,
                    cols == wi * col_blocks,
            ;
        }
        let mut buf: Vec<T> = Vec::with_capacity(n);
        let mut bi: usize = 0;
        assert(wi * wi * (col_blocks * bi) == 0) by (nonlinear_arith)
            requires
                bi == 0,
        ;
        while bi < row_blocks
            invariant
                w as int == wi,
                wi >= 1,
                wi <= 32768,
                rows as int == wi * row_blocks,
                cols as int == wi * col_blocks,
                n == rows * cols,
                n == elems@.len(),
                bi <= row_blocks,
                buf@.len() == wi * wi * (col_blocks * bi),
                pulled_from(buf@, elems@, wi, rows as int, cols as int, col_major),
            decreases row_blocks - bi,
        {
            let mut bj: usize = 0;
            while bj < col_blocks
                invariant
                    w as int == wi,
                    wi >= 1,
                    wi <= 32768,
                    rows as int == wi * row_blocks,
                    cols as int == wi * col_blocks,
                    n == rows * cols,
                    n == elems@.len(),
                    bi < row_blocks,
                    bj <= col_blocks,
                    buf@.len() == wi * wi * (col_blocks * bi + bj),
                    pulled_from(buf@, elems@, wi, rows as int, cols as int, col_major),
                decreases col_blocks - bj,
            {
                let mut si: usize = 0;
                while si < w
                    invariant
                        w as int == wi,
                        wi >= 1,
                        wi <= 32768,
                        rows as int == wi * row_blocks,
                        cols as int == wi * col_blocks,
                        n == rows * cols,
                        n == elems@.len(),
                        bi < row_blocks,
                        bj < col_blocks,
                        si <= w,
                        buf@.len() == wi * wi * (col_blocks * bi + bj) + wi * si,
                        pulled_from(buf@, elems@, wi, rows as int, cols as int, col_major),
                    decreases w - si,
                {
                    let mut sj: usize = 0;
                    while sj < w
                        invariant
                            w as int == wi,
                            wi >= 1,
                            wi <= 32768,
                            rows as int == wi * row_blocks,
                            cols as int == wi * col_blocks,
                            n == rows * cols,
                            n == elems@.len(),
                            bi < row_blocks,
                            bj < col_blocks,
                            si < w,
                            sj <= w,
                            buf@.len() == wi * wi * (col_blocks * bi + bj) + wi * si + sj,
                            pulled_from(buf@, elems@, wi, rows as int, cols as int, col_major),
                        decreases w - sj,
                    {
                        proof {
                            lemma_compose(wi, col_blocks as int, bi as int, bj as int, si as int, sj as int);
                            assert(wi * bi + si < rows && wi * bj + sj < cols) by (nonlinear_arith)
                                requires
                                    bi < row_blocks,
                                    bj < col_blocks,
                                    si < wi,
                                    sj < wi,
                                    rows == wi * row_blocks,
                                    cols == wi * col_blocks,
                            ;
                        }
                        let row = bi * w + si;
                        let col = bj * w + sj;
                        proof {
                            assert(rows * col + row < rows * cols && cols * row + col < rows * cols)
                                by (nonlinear_arith)
                                requires
                                    0 <= row < rows,
                                    0 <= col < cols,
                            ;
                        }
                        let ind = if col_major {
                            rows * col + row
                        } else {
                            cols * row + col
                        };
                        let x = elems[ind].clone();
                        buf.push(x);
                        sj += 1;
                    }
                    proof {
                        assert(wi * wi * (col_blocks * bi + bj) + wi * si + wi == wi * wi * (
                        col_blocks * bi + bj) + wi * (si + 1)) by (nonlinear_arith);
                    }
                    si += 1;
                }
                proof {
                    assert(wi * wi * (col_blocks * bi + bj) + wi * wi == wi * wi * (col_blocks
                        * bi + bj + 1)) by (nonlinear_arith);
                }
                bj += 1;
            }
            proof {
                assert(wi * wi * (col_blocks * bi + col_blocks) == wi * wi * (col_blocks * (bi
                    + 1))) by (nonlinear_arith);
            }
            bi += 1;
        }
        let grid = Self { rows, cols, col_blocks, buf, _phantom: PhantomData };
        assert forall|i: int, j: int| grid.in_bounds(i, j) implies cloned(
            elems@[source_index(col_major, rows as int, cols as int, i, j)],
            #[trigger] grid.elem(i, j),
        ) by {
            lemma_linear_index_inverse(wi, rows as int, cols as int, i, j);
        }
        Ok(grid)
    }
}

impl<T: Clone + Default, B: BlockDim> BlockGrid<T, B> {
    /// Constructs a grid filled with the default value of `T`.
    ///
    /// Fails if `rows` or `cols` is zero or not a multiple of the block width.
    pub fn new(rows: usize, cols: usize) -> (r: Result<Self, ()>)
        requires
            rows * cols <= usize::MAX,
        ensures
            r is Ok <==> valid_shape(width_spec::<B>() as int, rows as int, cols as int),
            r matches Ok(g) ==> {
                &&& g.wf()
                &&& g.spec_rows() == rows
                &&& g.spec_cols() == cols
                &&& exists|d: T|
                    call_ensures(T::default, (), d) && forall|k: int|
                        0 <= k < g@.len() ==> cloned(d, #[trigger] g@[k])
            },
    {
        let d = T::default();
        Self::filled(rows, cols, d)
    }
}

/// Offset of the local coordinate `(row, col)` inside a block of width `w`.
pub open spec fn local_index(w: int, row: int, col: int) -> int {
    w * row + col
}

/// A view of one block of a grid, contiguous in memory.
///
/// Obtained from a `BlockIter`, which `BlockGrid::block_iter` creates.
#[derive(Debug)]
pub struct Block<'a, T, B: BlockDim> {
    block_coords: Coords,
    arr: &'a [T],
    _phantom: PhantomData<B>,
}

impl<'a, T, B: BlockDim> View for Block<'a, T, B> {
    type V = Seq<T>;

    /// The elements of the block, row-major within the block.
    closed spec fn view(&self) -> Seq<T> {
        self.arr@
    }
}

impl<'a, T, B: BlockDim> Block<'a, T, B> {
    /// The block coordinates: `(i, j)` is the `j`-th block in the `i`-th row of blocks.
    pub closed spec fn spec_coords(&self) -> Coords {
        self.block_coords
    }

    /// The view holds one block, and its top-left element coordinates fit in `usize`.
    pub open spec fn wf(&self) -> bool {
        &&& self@.len() == area_spec::<B>()
        &&& width_spec::<B>() * self.spec_coords().0 <= usize::MAX
        &&& width_spec::<B>() * self.spec_coords().1 <= usize::MAX
    }

    /// Constructs a view of the block at `block_coords` from its elements.
    pub(crate) fn new(block_coords: Coords, arr: &'a [T]) -> (r: Self)
        ensures
            r.spec_coords() == block_coords,
            r@ == arr@,
    {
        Block { block_coords, arr, _phantom: PhantomData }
    }

    /// Returns the block coordinates: `(i, j)` is the `j`-th block in the `i`-th row of blocks.
    /// For the coordinates of the top-left element, see `starts_at`.
    pub fn coords(&self) -> (r: Coords)
        ensures
            r == self.spec_coords(),
    {
        self.block_coords
    }

    /// Returns the coordinates of the first (top-left) element of the block.
    pub fn starts_at(&self) -> (r: Coords)
        requires
            self.wf(),
        ensures
            r.0 == width_spec::<B>() * self.spec_coords().0,
            r.1 == width_spec::<B>() * self.spec_coords().1,
    {
        let (b_row, b_col) = self.block_coords;
        let w = B::width();
        (w * b_row, w * b_col)
    }

    /// Returns `true` if the given block-local coordinates are valid.
    pub fn contains(&self, coords: Coords) -> (r: bool)
        ensures
            r == (coords.0 < width_spec::<B>() && coords.1 < width_spec::<B>()),
    {
        let (row, col) = coords;
        let w = B::width();
        row < w && col < w
    }

    /// Returns a reference to the element at the given block-local coordinates, or `None` if
    /// they are out of bounds.
    pub fn get(&self, coords: Coords) -> (r: Option<&'a T>)
        requires
            self.wf(),
        ensures
            r is Some <==> (coords.0 < width_spec::<B>() && coords.1 < width_spec::<B>()),
            r matches Some(x) ==> *x == self@[local_index(
                width_spec::<B>() as int,
                coords.0 as int,
                coords.1 as int,
            )],
    {
        if !self.contains(coords) {
            return None;
        }
        Some(self.get_unchecked(coords))
    }

    /// Returns a reference to the element at the given block-local coordinates, which must be
    /// valid.
    pub fn get_unchecked(&self, coords: Coords) -> (r: &'a T)
        requires
            self.wf(),
            coords.0 < width_spec::<B>(),
            coords.1 < width_spec::<B>(),
        ensures
            *r == self@[local_index(width_spec::<B>() as int, coords.0 as int, coords.1 as int)],
    {
        let ind = block_offset::<B>(coords);
        let arr: &'a [T] = self.arr;
        &arr[ind]
    }

    /// Returns all elements of the block as a slice in memory order.
    pub fn raw(&self) -> (r: &'a [T])
        ensures
            r@ == self@,
    {
        self.arr
    }
}

/// Memory offset of block-local coordinates inside a block.
fn block_offset<B: BlockDim>(coords: Coords) -> (r: usize)
    requires
        coords.0 < width_spec::<B>(),
        coords.1 < width_spec::<B>(),
    ensures
        r == local_index(width_spec::<B>() as int, coords.0 as int, coords.1 as int),
        r < area_spec::<B>(),
{
    let (row, col) = coords;
    let w = B::width();
    proof {
        lemma_dim_bounds::<B>();
        assert(w * row + col < w * w) by (nonlinear_arith)
            requires
                row < w,
                col < w,
        ;
    }
    w * row + col
}

/// A mutable view of one block of a grid, contiguous in memory.
///
/// Obtained from a `BlockIterMut`, which `BlockGrid::block_iter_mut` creates. Its fields are
/// public so that contracts can speak of the borrowed elements; its methods ask for `wf`.
#[derive(Debug)]
pub struct BlockMut<'a, T, B: BlockDim> {
    /// The block coordinates.
    pub block_coords: Coords,
    /// The elements of the block, row-major within the block.
    pub arr: &'a mut [T],
    /// Marks the block dimension.
    pub _phantom: PhantomData<B>,
}

impl<'a, T, B: BlockDim> View for BlockMut<'a, T, B> {
    type V = Seq<T>;

    /// The current elements of the block, row-major within the block.
    open spec fn view(&self) -> Seq<T> {
        self.arr@
    }
}

impl<'a, T, B: BlockDim> BlockMut<'a, T, B> {
    /// The view holds one block, and its top-left element coordinates fit in `usize`.
    pub open spec fn wf(&self) -> bool {
        &&& self@.len() == area_spec::<B>()
        &&& width_spec::<B>() * self.block_coords.0 <= usize::MAX
        &&& width_spec::<B>() * self.block_coords.1 <= usize::MAX
    }

    /// Constructs a mutable view of the block at `block_coords` from its elements.
    pub(crate) fn new(block_coords: Coords, arr: &'a mut [T]) -> (r: Self)
        ensures
            r.block_coords == block_coords,
            r@ == old(arr)@,
            final(r.arr)@ == final(arr)@,
    {
        BlockMut { block_coords, arr, _phantom: PhantomData }
    }

    /// Returns the block coordinates: `(i, j)` is the `j`-th block in the `i`-th row of blocks.
    /// For the coordinates of the top-left element, see `starts_at`.
    pub fn coords(&self) -> (r: Coords)
        ensures
            r == self.block_coords,
    {
        self.block_coords
    }

    /// Returns the coordinates of the first (top-left) element of the block.
    pub fn starts_at(&self) -> (r: Coords)
        requires
            self.wf(),
        ensures
            r.0 == width_spec::<B>() * self.block_coords.0,
            r.1 == width_spec::<B>() * self.block_coords.1,
    {
        let (b_row, b_col) = self.block_coords;
        let w = B::width();
        (w * b_row, w * b_col)
    }

    /// Returns `true` if the given block-local coordinates are valid.
    pub fn contains(&self, coords: Coords) -> (r: bool)
        ensures
            r == (coords.0 < width_spec::<B>() && coords.1 < width_spec::<B>()),
    {
        let (row, col) = coords;
        let w = B::width();
        row < w && col < w
    }

    /// Returns a reference to the element at the given block-local coordinates, or `None` if
    /// they are out of bounds.
    pub fn get(&self, coords: Coords) -> (r: Option<&T>)
        requires
            self.wf(),
        ensures
            r is Some <==> (coords.0 < width_spec::<B>() && coords.1 < width_spec::<B>()),
            r matches Some(x) ==> *x == self@[local_index(
                width_spec::<B>() as int,
                coords.0 as int,
                coords.1 as int,
            )],
    {
        if !self.contains(coords) {
            return None;
        }
        Some(self.get_unchecked(coords))
    }

    /// Returns a mutable reference to the element at the given block-local coordinates, or
    /// `None` if they are out of bounds. Writing through it changes that element alone.
    pub fn get_mut(&mut self, coords: Coords) -> (r: Option<&mut T>)
        requires
            old(self).wf(),
        ensures
            r is Some <==> (coords.0 < width_spec::<B>() && coords.1 < width_spec::<B>()),
            r matches Some(x) ==> {
                &&& *x == old(self)@[local_index(
                    width_spec::<B>() as int,
                    coords.0 as int,
                    coords.1 as int,
                )]
                &&& final(self)@ == old(self)@.update(
                    local_index(width_spec::<B>() as int, coords.0 as int, coords.1 as int),
                    *final(x),
                )
            },
            r is None ==> final(self)@ == old(self)@,
            final(self).block_coords == old(self).block_coords,
            final(final(self).arr)@ == final(old(self).arr)@,
    {
        if !self.contains(coords) {
            return None;
        }
        Some(self.get_unchecked_mut(coords))
    }

    /// Returns a reference to the element at the given block-local coordinates, which must be
    /// valid.
    pub fn get_unchecked(&self, coords: Coords) -> (r: &T)
        requires
            self.wf(),
            coords.0 < width_spec::<B>(),
            coords.1 < width_spec::<B>(),
        ensures
            *r == self@[local_index(width_spec::<B>() as int, coords.0 as int, coords.1 as int)],
    {
        let ind = block_offset::<B>(coords);
        &self.arr[ind]
    }

    /// Returns a mutable reference to the element at the given block-local coordinates, which
    /// must be valid. Writing through it changes that element alone.
    pub fn get_unchecked_mut(&mut self, coords: Coords) -> (r: &mut T)
        requires
            old(self).wf(),
            coords.0 < width_spec::<B>(),
            coords.1 < width_spec::<B>(),
        ensures
            *r == old(self)@[local_index(
                width_spec::<B>() as int,
                coords.0 as int,
                coords.1 as int,
            )],
            final(self)@ == old(self)@.update(
                local_index(width_spec::<B>() as int, coords.0 as int, coords.1 as int),
                *final(r),
            ),
            final(self).block_coords == old(self).block_coords,
            final(final(self).arr)@ == final(old(self).arr)@,
    {
        let ind = block_offset::<B>(coords);
        &mut self.arr[ind]
    }

    /// Returns all elements of the block as a slice in memory order.
    pub fn raw(&self) -> (r: &[T])
        ensures
            r@ == self@,
    {
        self.arr
    }

    /// Returns all elements of the block as a mutable slice in memory order.
    pub fn raw_mut(&mut self) -> (r: &mut [T])
        ensures
            r@ == old(self)@,
            final(self)@ == final(r)@,
            final(self).block_coords == old(self).block_coords,
            final(final(self).arr)@ == final(old(self).arr)@,
    {
        &mut *self.arr
    }
}

/// Writing one element through `get_mut` and reading back: the written coordinate reads the
/// new value, and every other valid coordinate reads what it held before.
pub proof fn lemma_write_then_read<T, B: BlockDim>(
    before: &BlockGrid<T, B>,
    after: &BlockGrid<T, B>,
    row: int,
    col: int,
    v: T,
)
    requires
        before.wf(),
        before.in_bounds(row, col),
        after@ == before@.update(before.index_of(row, col), v),
        after.spec_rows() == before.spec_rows(),
        after.spec_cols() == before.spec_cols(),
        after.inv() == before.inv(),
    ensures
        after.wf(),
        forall|i: int, j: int|
            #![trigger after.elem(i, j)]
            after.in_bounds(i, j) ==> after.elem(i, j) == if i == row && j == col {
                v
            } else {
                before.elem(i, j)
            },
{
    let (w, rows, cols) = (width_spec::<B>() as int, before.spec_rows() as int, before.spec_cols() as int);
    before.lemma_index_in_buffer(row, col);
    assert forall|i: int, j: int| #![trigger after.elem(i, j)] after.in_bounds(i, j) implies after.elem(i, j)
        == if i == row && j == col {
        v
    } else {
        before.elem(i, j)
    } by {
        lemma_linear_index_inverse(w, rows, cols, i, j);
        lemma_linear_index_inverse(w, rows, cols, row, col);
    }
}

/// The block with block coordinates `(bi, bj)` is block number `cb * bi + bj` in memory order,
/// and its element at local coordinates `(si, sj)` is the grid element
/// `(width * bi + si, width * bj + sj)`.
pub proof fn lemma_block_addressing<T, B: BlockDim>(
    grid: &BlockGrid<T, B>,
    bi: int,
    bj: int,
    si: int,
    sj: int,
)
    requires
        grid.wf(),
        0 <= bi < grid.spec_rows() / width_spec::<B>(),
        0 <= bj < grid.spec_cols() / width_spec::<B>(),
        0 <= si < width_spec::<B>(),
        0 <= sj < width_spec::<B>(),
    ensures
        ({
            let w = width_spec::<B>() as int;
            let cb = (grid.spec_cols() / width_spec::<B>()) as int;
            let p = cb * bi + bj;
            let a = area_spec::<B>() as int;
            &&& 0 <= p < (grid.spec_rows() / width_spec::<B>()) * cb
            &&& p / cb == bi
            &&& p % cb == bj
            &&& 0 <= p * a
            &&& p * a + a <= grid@.len()
            &&& grid@.subrange(p * a, p * a + a)[local_index(w, si, sj)] == grid.elem(
                w * bi + si,
                w * bj + sj,
            )
        }),
{
    lemma_dim_bounds::<B>();
    let w = width_spec::<B>() as int;
    let (rows, cols) = (grid.spec_rows() as int, grid.spec_cols() as int);
    let (rb, cb) = (rows / w, cols / w);
    let a = area_spec::<B>() as int;
    lemma_fundamental_div_mod(rows, w);
    lemma_fundamental_div_mod(cols, w);
    lemma_compose(w, cb, bi, bj, si, sj);
    let p = cb * bi + bj;
    assert(0 <= p < rb * cb) by (nonlinear_arith)
        requires
            0 <= bi < rb,
            0 <= bj < cb,
            p == cb * bi + bj,
    ;
    assert(p == bi * cb + bj) by (nonlinear_arith)
        requires
            p == cb * bi + bj,
    ;
    vstd::arithmetic::div_mod::lemma_fundamental_div_mod_converse(p, cb, bi, bj);
    assert(0 <= p * a && p * a + a <= rows * cols && w * w * p == p * a) by (nonlinear_arith)
        requires
            0 <= p < rb * cb,
            a == w * w,
            rows == w * rb + 0,
            cols == w * cb + 0,
            w >= 1,
    ;
}

/// The fields of a grid's serialized record are accepted back: the block width is the one of
/// `B`, and the shape and buffer length pass the same check as `from_raw_vec`.
pub open spec fn record_accepted<B: BlockDim>(rows: int, cols: int, bwidth: int, len: int) -> bool {
    &&& bwidth == width_spec::<B>()
    &&& valid_shape(width_spec::<B>() as int, rows, cols)
    &&& len == rows * cols
}

/// The record of a well-formed grid is accepted back with the same block width, giving a grid
/// of the same shape and buffer, and is refused with any other block width.
pub proof fn lemma_record_round_trip<T, B: BlockDim>(grid: &BlockGrid<T, B>, bwidth: int)
    requires
        grid.wf(),
    ensures
        record_accepted::<B>(
            grid.spec_rows() as int,
            grid.spec_cols() as int,
            bwidth,
            grid@.len() as int,
        ) <==> bwidth == width_spec::<B>(),
{
}

/// A deserialized record does not describe a valid grid for the block dimension at hand.
#[derive(Debug, Clone, Copy, PartialEq, Eq)]
pub struct InvalidSizeError;

impl<T, B: BlockDim> BlockGrid<T, B> {
    /// Splits the grid into the fields of its serialized record: the number of rows, the number
    /// of columns, the block width, and the buffer in memory order.
    pub fn into_parts(self) -> (r: (usize, usize, usize, Vec<T>))
        ensures
            r.0 == self.spec_rows(),
            r.1 == self.spec_cols(),
            r.2 == width_spec::<B>(),
            r.3@ == self@,
    {
        let rows = self.rows;
        let cols = self.cols;
        (rows, cols, B::width(), self.take_raw_vec())
    }

    /// Rebuilds a grid from the fields of its serialized record.
    ///
    /// Fails if the block width is not the one of `B`, or if the shape and buffer do not pass
    /// the check of `from_raw_vec`: grids do not move between block widths.
    pub fn from_parts(rows: usize, cols: usize, bwidth: usize, buf: Vec<T>) -> (r: Result<
        Self,
        InvalidSizeError,
    >)
        ensures
            r is Ok <==> record_accepted::<B>(rows as int, cols as int, bwidth as int, buf@.len() as int),
            r matches Ok(g) ==> g.wf() && g.spec_rows() == rows && g.spec_cols() == cols && g@
                == buf@,
    {
        if bwidth != B::width() {
            return Err(InvalidSizeError);
        }
        match Self::from_raw_vec(rows, cols, buf) {
            Ok(g) => Ok(g),
            Err(()) => Err(InvalidSizeError),
        }
    }
}

} // verus!
