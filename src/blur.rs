use vstd::prelude::*;

use crate::block_grid::{lemma_write_then_read, BlockGrid, Coords};
use crate::block_width::{width_spec, BlockDim};
use crate::iters::CoordsIterator;
use crate::translate::{lemma_coords_of_inverse, lemma_linear_index_inverse};

verus! {

/// The sum of the 3x3 neighbourhood centred on `(i, j)`.
pub open spec fn neighbourhood_sum<B: BlockDim>(img: &BlockGrid<u8, B>, i: int, j: int) -> int {
    img.elem(i - 1, j - 1) + img.elem(i - 1, j) + img.elem(i - 1, j + 1) + img.elem(i, j - 1)
        + img.elem(i, j) + img.elem(i, j + 1) + img.elem(i + 1, j - 1) + img.elem(i + 1, j)
        + img.elem(i + 1, j + 1)
}

/// `(i, j)` lies on the outer frame of a `rows` by `cols` image.
pub open spec fn on_border(rows: int, cols: int, i: int, j: int) -> bool {
    i == 0 || j == 0 || i == rows - 1 || j == cols - 1
}

/// The blurred pixel at `(i, j)`: a pixel of the frame is copied, an inner pixel becomes the
/// mean of its 3x3 neighbourhood, rounded down.
pub open spec fn blurred<B: BlockDim>(img: &BlockGrid<u8, B>, i: int, j: int) -> int {
    if on_border(img.spec_rows() as int, img.spec_cols() as int, i, j) {
        img.elem(i, j) as int
    } else {
        neighbourhood_sum(img, i, j) / 9
    }
}

/// Returns the mean of the 3x3 neighbourhood of an inner pixel, rounded down.
fn get_new_pix<B: BlockDim>(img: &BlockGrid<u8, B>, coords: Coords) -> (r: u8)
    requires
        img.wf(),
        1 <= coords.0 < img.spec_rows() - 1,
        1 <= coords.1 < img.spec_cols() - 1,
    ensures
        r as int == neighbourhood_sum(img, coords.0 as int, coords.1 as int) / 9,
{
    let (i, j) = coords;
    let tot: u32 = *img.get_unchecked((i - 1, j - 1)) as u32 + *img.get_unchecked((i - 1, j)) as u32
        + *img.get_unchecked((i - 1, j + 1)) as u32 + *img.get_unchecked((i, j - 1)) as u32
        + *img.get_unchecked((i, j)) as u32 + *img.get_unchecked((i, j + 1)) as u32
        + *img.get_unchecked((i + 1, j - 1)) as u32 + *img.get_unchecked((i + 1, j)) as u32
        + *img.get_unchecked((i + 1, j + 1)) as u32;
    (tot / 9) as u8
}

/// Writes one pixel; every other pixel keeps its value.
fn set_pixel<B: BlockDim>(out: &mut BlockGrid<u8, B>, coords: Coords, v: u8)
    requires
        old(out).wf(),
        old(out).in_bounds(coords.0 as int, coords.1 as int),
    ensures
        final(out).wf(),
        final(out).spec_rows() == old(out).spec_rows(),
        final(out).spec_cols() == old(out).spec_cols(),
        forall|i: int, j: int|
            #![trigger final(out).elem(i, j)]
            final(out).in_bounds(i, j) ==> final(out).elem(i, j) == if i == coords.0 && j
                == coords.1 {
                v
            } else {
                old(out).elem(i, j)
            },
{
    let ghost before = *out;
    let x = out.get_unchecked_mut(coords);
    *x = v;
    proof {
        lemma_write_then_read(&before, out, coords.0 as int, coords.1 as int, v);
    }
}

/// Blurs `img` into `out` with a 3x3 box filter: the outer frame of pixels is copied, and every
/// inner pixel becomes the mean of its neighbourhood, rounded down.
pub fn blur_by_index<B: BlockDim>(
    rows: usize,
    cols: usize,
    img: &BlockGrid<u8, B>,
    out: &mut BlockGrid<u8, B>,
)
    requires
        rows >= 3,
        cols >= 3,
        img.wf(),
        old(out).wf(),
        img.spec_rows() == rows,
        img.spec_cols() == cols,
        old(out).spec_rows() == rows,
        old(out).spec_cols() == cols,
    ensures
        final(out).wf(),
        final(out).spec_rows() == rows,
        final(out).spec_cols() == cols,
        forall|i: int, j: int|
            final(out).in_bounds(i, j) ==> #[trigger] final(out).elem(i, j) as int == blurred(
                img,
                i,
                j,
            ),
{
    // Copy the left and right columns of the frame
    let mut i: usize = 0;
    while i < rows
        invariant
            img.wf(),
            out.wf(),
            img.spec_rows() == rows && img.spec_cols() == cols,
            out.spec_rows() == rows && out.spec_cols() == cols,
            rows >= 3 && cols >= 3,
            i <= rows,
            forall|a: int, b: int|
                #![trigger out.elem(a, b)]
                out.in_bounds(a, b) && a < i && (b == 0 || b == cols - 1) ==> out.elem(a, b)
                    == img.elem(a, b),
        decreases rows - i,
    {
        let v = *img.get_unchecked((i, 0));
        set_pixel(out, (i, 0), v);
        let v = *img.get_unchecked((i, cols - 1));
        set_pixel(out, (i, cols - 1), v);
        i += 1;
    }
    // Copy the top and bottom rows of the frame
    let mut j: usize = 0;
    while j < cols
        invariant
            img.wf(),
            out.wf(),
            img.spec_rows() == rows && img.spec_cols() == cols,
            out.spec_rows() == rows && out.spec_cols() == cols,
            rows >= 3 && cols >= 3,
            j <= cols,
            forall|a: int, b: int|
                #![trigger out.elem(a, b)]
                out.in_bounds(a, b) && (b == 0 || b == cols - 1 || ((a == 0 || a == rows - 1) && b
                    < j)) ==> out.elem(a, b) == img.elem(a, b),
        decreases cols - j,
    {
        let v = *img.get_unchecked((0, j));
        set_pixel(out, (0, j), v);
        let v = *img.get_unchecked((rows - 1, j));
        set_pixel(out, (rows - 1, j), v);
        j += 1;
    }
    // Average each inner pixel
    let mut i: usize = 1;
    while i < rows - 1
        invariant
            img.wf(),
            out.wf(),
            img.spec_rows() == rows && img.spec_cols() == cols,
            out.spec_rows() == rows && out.spec_cols() == cols,
            rows >= 3 && cols >= 3,
            1 <= i <= rows - 1,
            forall|a: int, b: int|
                #![trigger out.elem(a, b)]
                out.in_bounds(a, b) && (on_border(rows as int, cols as int, a, b) || a < i) ==> out.elem(
                    a,
                    b,
                ) as int == blurred(img, a, b),
        decreases rows - 1 - i,
    {
        let mut j: usize = 1;
        while j < cols - 1
            invariant
                img.wf(),
                out.wf(),
                img.spec_rows() == rows && img.spec_cols() == cols,
                out.spec_rows() == rows && out.spec_cols() == cols,
                rows >= 3 && cols >= 3,
                1 <= i < rows - 1,
                1 <= j <= cols - 1,
                forall|a: int, b: int|
                    #![trigger out.elem(a, b)]
                    out.in_bounds(a, b) && (on_border(rows as int, cols as int, a, b) || a < i || (a
                        == i && b < j)) ==> out.elem(a, b) as int == blurred(img, a, b),
            decreases cols - 1 - j,
        {
            let v = get_new_pix(img, (i, j));
            set_pixel(out, (i, j), v);
            j += 1;
        }
        i += 1;
    }
}

/// Blurs `img` into `out` like `blur_by_index`, visiting the pixels of `img` in memory order
/// with their coordinates.
pub fn blur_blockgrid<B: BlockDim>(img: &BlockGrid<u8, B>, out: &mut BlockGrid<u8, B>)
    requires
        img.wf(),
        old(out).wf(),
        img.spec_rows() >= 3,
        img.spec_cols() >= 3,
        old(out).spec_rows() == img.spec_rows(),
        old(out).spec_cols() == img.spec_cols(),
    ensures
        final(out).wf(),
        final(out).spec_rows() == img.spec_rows(),
        final(out).spec_cols() == img.spec_cols(),
        forall|i: int, j: int|
            final(out).in_bounds(i, j) ==> #[trigger] final(out).elem(i, j) as int == blurred(
                img,
                i,
                j,
            ),
{
    let rows = img.rows();
    let cols = img.cols();
    let n = img.size();
    let ghost w = width_spec::<B>() as int;
    let mut it = img.each_iter().coords();
    let mut k: usize = 0;
    while k < n
        invariant
            img.wf(),
            out.wf(),
            rows == img.spec_rows() && cols == img.spec_cols(),
            out.spec_rows() == rows && out.spec_cols() == cols,
            rows >= 3 && cols >= 3,
            n == img@.len(),
            w == width_spec::<B>() as int,
            it.inner().wf(),
            it.inner().items() == img@,
            it.inner().spec_cols() == cols,
            it.inner().spec_pos() == k,
            k <= n,
            forall|a: int, b: int|
                #![trigger out.elem(a, b)]
                out.in_bounds(a, b) && img.index_of(a, b) < k ==> out.elem(a, b) as int == blurred(
                    img,
                    a,
                    b,
                ),
        decreases n - k,
    {
        proof {
            lemma_coords_of_inverse(w, rows as int, cols as int, k as int);
        }
        match it.next() {
            Some(((i, j), x)) => {
                proof {
                    lemma_coords_of_inverse(w, rows as int, cols as int, k as int);
                }
                // Copy perimeter
                if i == 0 || j == 0 || i == rows - 1 || j == cols - 1 {
                    set_pixel(out, (i, j), *x);
                } else {
                    let v = get_new_pix(img, (i, j));
                    set_pixel(out, (i, j), v);
                }
                proof {
                    assert forall|a: int, b: int|
                        #![trigger out.elem(a, b)]
                        out.in_bounds(a, b) && img.index_of(a, b) < k + 1 implies out.elem(a, b) as int
                            == blurred(img, a, b) by {
                        lemma_linear_index_inverse(w, rows as int, cols as int, a, b);
                    }
                }
            },
            None => {},
        }
        k += 1;
    }
    proof {
        assert forall|a: int, b: int| #[trigger] out.in_bounds(a, b) implies img.index_of(a, b) < k by {
            lemma_linear_index_inverse(w, rows as int, cols as int, a, b);
        }
    }
}

} // verus!
