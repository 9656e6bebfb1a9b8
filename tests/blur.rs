use array2d::Array2D;
use block_grid::{blur_blockgrid, blur_by_index, BlockDim, BlockGrid, U1, U16, U2, U32, U4, U8};

/// The same box filter over an `Array2D`, used as the reference.
fn blur_array(rows: usize, cols: usize, img: &Array2D<u8>, out: &mut Array2D<u8>) {
    assert!(rows >= 3 && cols >= 3);
    for i in 0..rows {
        out[(i, 0)] = img[(i, 0)];
        out[(i, cols - 1)] = img[(i, cols - 1)];
    }
    for j in 0..cols {
        out[(0, j)] = img[(0, j)];
        out[(rows - 1, j)] = img[(rows - 1, j)];
    }
    for i in 1..(rows - 1) {
        for j in 1..(cols - 1) {
            let tot: u32 = [
                (i - 1, j - 1),
                (i - 1, j),
                (i - 1, j + 1),
                (i, j - 1),
                (i, j),
                (i, j + 1),
                (i + 1, j - 1),
                (i + 1, j),
                (i + 1, j + 1),
            ]
            .iter()
            .map(|&(ni, nj)| img[(ni, nj)] as u32)
            .sum();
            out[(i, j)] = (tot / 9) as u8;
        }
    }
}

fn generic_test_blur<B: BlockDim>(rows: usize, cols: usize) {
    let mut in_bg = BlockGrid::<u8, B>::new(rows, cols).unwrap();
    let mut out_bg = in_bg.clone();

    let mut in_ar = Array2D::filled_with(0u8, rows, cols);
    let mut out_ar = in_ar.clone();

    fastrand::seed(1234);
    for i in 0..rows {
        for j in 0..cols {
            let x = fastrand::u8(..);
            *in_bg.get_mut((i, j)).unwrap() = x;
            in_ar[(i, j)] = x;
        }
    }

    blur_by_index(rows, cols, &in_bg, &mut out_bg);
    blur_array(rows, cols, &in_ar, &mut out_ar);

    for i in 0..rows {
        for j in 0..cols {
            assert_eq!(*out_bg.get((i, j)).unwrap(), out_ar[(i, j)]);
        }
    }
}

fn generic_test_idiomatic<B: BlockDim>(rows: usize, cols: usize) {
    let mut in_bg = BlockGrid::<u8, B>::new(rows, cols).unwrap();
    let mut out_bg = in_bg.clone();
    let mut out_index = in_bg.clone();

    let mut in_ar = Array2D::filled_with(0u8, rows, cols);
    let mut out_ar = in_ar.clone();

    fastrand::seed(1234);
    for i in 0..rows {
        for j in 0..cols {
            let x = fastrand::u8(..);
            *in_bg.get_mut((i, j)).unwrap() = x;
            in_ar[(i, j)] = x;
        }
    }

    blur_by_index(rows, cols, &in_bg, &mut out_index);
    blur_blockgrid(&in_bg, &mut out_bg);
    blur_array(rows, cols, &in_ar, &mut out_ar);

    for i in 0..rows {
        for j in 0..cols {
            let x = *out_index.get((i, j)).unwrap();
            assert_eq!(*out_bg.get((i, j)).unwrap(), x);
            assert_eq!(out_ar[(i, j)], x);
        }
    }
}

#[test]
fn test_blur_idiomatic() {
    generic_test_idiomatic::<U1>(7, 13);
    generic_test_idiomatic::<U2>(30, 30);
    generic_test_idiomatic::<U8>(16, 40);
    generic_test_idiomatic::<U32>(96, 64);
}

#[test]
fn test_blur_by_index() {
    generic_test_blur::<U1>(7, 13);
    generic_test_blur::<U2>(30, 30);
    generic_test_blur::<U8>(16, 40);
    generic_test_blur::<U32>(96, 64);
}

#[test]
fn test_blur_by_index_u2() {
    generic_test_blur::<U2>(30, 30);
}

#[test]
fn test_blur_by_index_u4() {
    generic_test_blur::<U4>(4, 12);
}

#[test]
fn test_blur_by_index_u8() {
    generic_test_blur::<U8>(64, 256);
}

#[test]
fn test_blur_by_index_u16() {
    generic_test_blur::<U16>(16, 16);
}

#[test]
fn test_blur_by_index_u32() {
    generic_test_blur::<U32>(96, 224);
}

#[test]
fn blur_of_a_small_image() {
    let data: Vec<u8> = vec![
        9, 9, 9, 9, //
        9, 0, 18, 9, //
        9, 27, 90, 9, //
        9, 9, 9, 9,
    ];
    let img = BlockGrid::<u8, U2>::from_row_major(4, 4, &data).unwrap();
    let mut out = BlockGrid::<u8, U2>::new(4, 4).unwrap();
    blur_by_index(4, 4, &img, &mut out);
    // Frame copied; (1, 1): (9 * 5 + 0 + 18 + 27 + 90) / 9 = 20; (2, 2): (9 * 5 + 0 + 18 + 27 + 90) / 9 = 20
    assert_eq!(*out.get((0, 0)).unwrap(), 9);
    assert_eq!(*out.get((1, 1)).unwrap(), 20);
    assert_eq!(*out.get((1, 2)).unwrap(), 20);
    assert_eq!(*out.get((2, 2)).unwrap(), 20);
    assert_eq!(*out.get((3, 1)).unwrap(), 9);
}
