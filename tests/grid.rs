use block_grid::{BlockDim, BlockGrid, Coords, CoordsIterator, U1, U16, U2, U32, U4, U8};

type BG<T, B> = BlockGrid<T, B>;

fn at<B: BlockDim>(grid: &BG<usize, B>, c: Coords) -> usize {
    *grid.get(c).unwrap()
}

fn gen_from_raw_vec<B: BlockDim>() {
    let (rows, cols) = (2 * B::width(), 3 * B::width());
    let data: Vec<usize> = (0..(rows * cols)).collect();
    let grid = BG::<usize, B>::from_raw_vec(rows, cols, data.clone()).unwrap();
    assert_eq!((grid.rows(), grid.cols()), (rows, cols));
    assert_eq!(grid.size(), data.len());
    let mut it = grid.each_iter();
    for &y in data.iter() {
        assert_eq!(*it.next().unwrap(), y);
    }
}

fn gen_filled<B: BlockDim>() {
    let (rows, cols) = (2 * B::width(), 3 * B::width());
    let grid = BG::<usize, B>::filled(rows, cols, 7).unwrap();
    assert_eq!((grid.rows(), grid.cols()), (rows, cols));
    assert_eq!(grid.size(), rows * cols);
    let mut it = grid.each_iter();
    while let Some(&x) = it.next() {
        assert_eq!(x, 7);
    }
}

fn gen_from_row_major<B: BlockDim>() {
    let (rows, cols) = (5 * B::width(), 3 * B::width());
    let data: Vec<usize> = (0..(rows * cols)).collect();
    let grid = BG::<usize, B>::from_row_major(rows, cols, &data).unwrap();
    assert_eq!((grid.rows(), grid.cols()), (rows, cols));
    assert_eq!(grid.size(), rows * cols);
    for i in 0..rows {
        for j in 0..cols {
            assert_eq!(at(&grid, (i, j)), data[cols * i + j]);
        }
    }
}

fn gen_from_col_major<B: BlockDim>() {
    let (rows, cols) = (3 * B::width(), 3 * B::width());
    let data: Vec<usize> = (0..(rows * cols)).collect();
    let grid = BG::<usize, B>::from_col_major(rows, cols, &data).unwrap();
    assert_eq!((grid.rows(), grid.cols()), (rows, cols));
    assert_eq!(grid.size(), rows * cols);
    for j in 0..cols {
        for i in 0..rows {
            assert_eq!(at(&grid, (i, j)), data[rows * j + i]);
        }
    }
}

fn gen_constructor_invalid<B: BlockDim>() {
    let w = B::width();
    let mut invalid_sizes = vec![(0, 0), (w, 0), (0, w)];
    // Ignore non-factor sizes if block-width is 1
    if w != 1 {
        invalid_sizes.extend([(3, 5), (7, 13), (w * 3 - 1, w)]);
    }
    // Try invalid sizes
    for (rows, cols) in invalid_sizes {
        let data: Vec<usize> = (0..(rows * cols)).collect();
        assert!(BG::<usize, B>::from_raw_vec(rows, cols, data.clone()).is_err());
        assert!(BG::<usize, B>::filled(rows, cols, 7).is_err());
        assert!(BG::<usize, B>::from_row_major(rows, cols, &data).is_err());
        assert!(BG::<usize, B>::from_col_major(rows, cols, &data).is_err());
    }
    // Try giving invalid data length
    let (rows, cols) = (2 * w, 3 * w);
    let data: Vec<usize> = (0..w).collect();
    assert!(BG::<usize, B>::filled(rows, cols, 9).is_ok());
    assert!(BG::<usize, B>::from_raw_vec(rows, cols, data.clone()).is_err());
    assert!(BG::<usize, B>::from_row_major(rows, cols, &data).is_err());
    assert!(BG::<usize, B>::from_col_major(rows, cols, &data).is_err());
}

fn gen_get_and_get_mut<B: BlockDim>() {
    let (rows, cols) = (2 * B::width(), 3 * B::width());
    let mut grid = BG::<usize, B>::filled(rows, cols, 7).unwrap();
    // Try invalid coordinates
    for &coords in &[(rows, 0), (0, cols), (rows, cols)] {
        assert!(grid.get(coords).is_none());
    }
    // Test each coordinate, and mutate
    for i in 0..rows {
        for j in 0..cols {
            assert_eq!(*grid.get((i, j)).unwrap(), 7);
            let x = grid.get_mut((i, j)).unwrap();
            *x = cols * i + j;
        }
    }
    // Check again
    for i in 0..rows {
        for j in 0..cols {
            assert_eq!(*grid.get((i, j)).unwrap(), cols * i + j);
        }
    }
}

fn gen_block_size<B: BlockDim>() {
    for &(n, m) in &[(1, 1), (2, 3), (3, 1), (4, 4)] {
        let (rows, cols) = (n * B::width(), m * B::width());
        let grid = BG::<usize, B>::new(rows, cols).unwrap();
        assert_eq!(grid.row_blocks(), n);
        assert_eq!(grid.col_blocks(), m);
        assert_eq!(grid.blocks() * B::area(), grid.size());
    }
}

fn gen_contains<B: BlockDim>() {
    for &(n, m) in &[(1, 1), (3, 2), (4, 1), (5, 5)] {
        let (rows, cols) = (n * B::width(), m * B::width());
        let grid = BG::<usize, B>::new(rows, cols).unwrap();
        assert!(grid.contains((0, 0)));
        assert!(grid.contains((0, cols - 1)));
        assert!(grid.contains((rows - 1, 0)));
        assert!(!grid.contains((0, cols)));
        assert!(!grid.contains((rows, 0)));
        assert!(!grid.contains((rows, cols)));
    }
}

fn gen_each_iter<B: BlockDim>() {
    let w = B::width();
    let (rows, cols) = (3 * w, 2 * w);
    let data: Vec<usize> = (0..(rows * cols)).collect();
    let grid = BG::<usize, B>::from_raw_vec(rows, cols, data).unwrap();
    assert_eq!(grid.each_iter().count(), grid.size());

    let mut it = grid.each_iter().coords();
    for bi in 0..grid.row_blocks() {
        for bj in 0..grid.col_blocks() {
            for si in 0..w {
                for sj in 0..w {
                    let c = (w * bi + si, w * bj + sj);
                    let (ct, &e) = it.next().unwrap();
                    assert_eq!(ct, c);
                    assert_eq!(e, at(&grid, c));
                }
            }
        }
    }
    assert!(it.next().is_none());
}

fn gen_each_iter_mut<B: BlockDim>() {
    let w = B::width();
    let (rows, cols) = (3 * w, 2 * w);
    let mut grid = BG::<usize, B>::filled(rows, cols, 7usize).unwrap();
    assert_eq!(grid.each_iter_mut().count(), grid.size());
    let (row_blocks, col_blocks) = (grid.row_blocks(), grid.col_blocks());
    // Mutate while iterating
    let mut it = grid.each_iter_mut().coords();
    for bi in 0..row_blocks {
        for bj in 0..col_blocks {
            for si in 0..w {
                for sj in 0..w {
                    let c = (w * bi + si, w * bj + sj);
                    let (ct, e) = it.next(&mut grid).unwrap();
                    assert_eq!(ct, c);
                    assert_eq!(*e, 7);
                    *e = cols * c.0 + c.1;
                }
            }
        }
    }
    assert!(it.next(&mut grid).is_none());
    // Check if mutated correctly
    for i in 0..rows {
        for j in 0..cols {
            assert_eq!(at(&grid, (i, j)), cols * i + j);
        }
    }
}

fn gen_block_iter<B: BlockDim>() {
    let w = B::width();
    let (rows, cols) = (2 * w, 3 * w);
    let data: Vec<usize> = (0..(rows * cols)).collect();
    let grid = BG::<usize, B>::from_raw_vec(rows, cols, data).unwrap();
    assert_eq!(grid.block_iter().count(), grid.blocks());

    let (mut bi, mut bj): Coords = (0, 0);
    let mut it = grid.block_iter().coords();
    while let Some((c, block)) = it.next() {
        assert_eq!(c, (bi, bj));
        assert_eq!(block.coords(), c);
        assert_eq!(block.starts_at(), (w * bi, w * bj));
        for si in 0..w {
            for sj in 0..w {
                assert_eq!(
                    *block.get((si, sj)).unwrap(),
                    at(&grid, (w * bi + si, w * bj + sj))
                );
            }
        }
        assert!(block.get((w, w - 1)).is_none());
        assert!(block.get((w - 1, w)).is_none());
        assert!(block.get((w, w)).is_none());

        bj += 1;
        if bj == grid.col_blocks() {
            bi += 1;
            bj = 0;
        }
    }
}

fn gen_block_iter_mut<B: BlockDim>() {
    let w = B::width();
    let (rows, cols) = (3 * w, 2 * w);
    let mut grid = BG::<usize, B>::filled(rows, cols, 7usize).unwrap();
    let col_blocks = grid.col_blocks();
    assert_eq!(grid.block_iter_mut().count(), grid.blocks());

    let (mut bi, mut bj): Coords = (0, 0);
    let mut it = grid.block_iter_mut().coords();
    while let Some((c, mut block)) = it.next(&mut grid) {
        assert_eq!(c, (bi, bj));
        assert_eq!(block.coords(), c);
        assert_eq!(block.starts_at(), (w * bi, w * bj));
        for si in 0..w {
            for sj in 0..w {
                assert_eq!(*block.get((si, sj)).unwrap(), 7);
                let b_ind = bi * col_blocks + bj;
                *block.get_mut((si, sj)).unwrap() = b_ind * B::area() + si * w + sj;
            }
        }
        assert!(block.get((w, w - 1)).is_none());
        assert!(block.get((w - 1, w)).is_none());
        assert!(block.get((w, w)).is_none());

        bj += 1;
        if bj == col_blocks {
            bi += 1;
            bj = 0;
        }
    }

    let mut it = grid.block_iter().coords();
    while let Some(((bi, bj), block)) = it.next() {
        for si in 0..w {
            for sj in 0..w {
                assert_eq!(
                    *block.get((si, sj)).unwrap(),
                    at(&grid, (w * bi + si, w * bj + sj))
                );
                let b_ind = bi * col_blocks + bj;
                assert_eq!(*block.get((si, sj)).unwrap(), b_ind * B::area() + si * w + sj);
            }
        }
    }
}

fn gen_row_major_iter<B: BlockDim>() {
    let (rows, cols) = (2 * B::width(), 3 * B::width());
    let data: Vec<usize> = (0..(rows * cols)).collect();
    let grid = BG::<usize, B>::from_raw_vec(rows, cols, data).unwrap();
    assert_eq!(grid.row_major_iter().count(), grid.size());

    let mut it = grid.row_major_iter().coords();
    let mut n_left = rows * cols;
    for i in 0..rows {
        for j in 0..cols {
            assert_eq!(it.len(), n_left);
            let (c, &e) = it.next().unwrap();
            assert_eq!(c, (i, j));
            assert_eq!(e, at(&grid, (i, j)));
            n_left -= 1;
        }
    }
    assert_eq!(it.len(), 0);
    assert!(it.next().is_none());
    assert_eq!(it.len(), 0);
}

fn gen_row_major_iter_mut<B: BlockDim>() {
    let (rows, cols) = (2 * B::width(), 3 * B::width());
    let mut grid = BG::<usize, B>::filled(rows, cols, 7usize).unwrap();
    assert_eq!(grid.row_major_iter_mut().count(), grid.size());
    // Mutate while iterating
    let mut it = grid.row_major_iter_mut().coords();
    let mut n_left = rows * cols;
    for i in 0..rows {
        for j in 0..cols {
            assert_eq!(it.len(), n_left);
            let (c, e) = it.next(&mut grid).unwrap();
            assert_eq!(c, (i, j));
            assert_eq!(*e, 7);
            *e = cols * i + j;
            n_left -= 1;
        }
    }
    assert_eq!(it.len(), 0);
    assert!(it.next(&mut grid).is_none());
    assert_eq!(it.len(), 0);
    // Check if mutated correctly
    for i in 0..rows {
        for j in 0..cols {
            assert_eq!(at(&grid, (i, j)), cols * i + j);
        }
    }
}

fn gen_round_up_to_valid<B: BlockDim>() {
    let w = B::width();
    let check_valid = |(rows, cols): (usize, usize)| {
        rows > 0 && cols > 0 && rows % w == 0 && cols % w == 0
    };
    let mut checks = vec![((0, 0), (w, w)), ((1, 1), (w, w)), ((w, w), (w, w))];
    if w == 1 {
        checks.extend([((3, 7), (3, 7)), ((5, 5), (5, 5))]);
    } else {
        checks.extend([
            ((w, w + 1), (w, 2 * w)),
            ((7 * w, 3 * w), (7 * w, 3 * w)),
            ((4 * w - 1, 4 * w + 1), (4 * w, 5 * w)),
        ]);
    }
    for ((rows, cols), correct) in checks {
        let rounded = B::round_up_to_valid(rows, cols);
        assert!(check_valid(rounded));
        assert_eq!(rounded, correct);
    }
}

#[test]
fn test_from_raw_vec() {
    gen_from_raw_vec::<U1>();
    gen_from_raw_vec::<U2>();
    gen_from_raw_vec::<U4>();
    gen_from_raw_vec::<U8>();
    gen_from_raw_vec::<U16>();
    gen_from_raw_vec::<U32>();
}

#[test]
fn test_filled() {
    gen_filled::<U1>();
    gen_filled::<U2>();
    gen_filled::<U4>();
    gen_filled::<U8>();
    gen_filled::<U16>();
    gen_filled::<U32>();
}

#[test]
fn test_from_row_major() {
    gen_from_row_major::<U1>();
    gen_from_row_major::<U2>();
    gen_from_row_major::<U4>();
    gen_from_row_major::<U8>();
    gen_from_row_major::<U16>();
    gen_from_row_major::<U32>();
}

#[test]
fn test_from_col_major() {
    gen_from_col_major::<U1>();
    gen_from_col_major::<U2>();
    gen_from_col_major::<U4>();
    gen_from_col_major::<U8>();
    gen_from_col_major::<U16>();
    gen_from_col_major::<U32>();
}

#[test]
fn test_constructor_invalid() {
    gen_constructor_invalid::<U1>();
    gen_constructor_invalid::<U2>();
    gen_constructor_invalid::<U4>();
    gen_constructor_invalid::<U8>();
    gen_constructor_invalid::<U16>();
    gen_constructor_invalid::<U32>();
}

#[test]
fn test_get_and_get_mut() {
    gen_get_and_get_mut::<U1>();
    gen_get_and_get_mut::<U2>();
    gen_get_and_get_mut::<U4>();
    gen_get_and_get_mut::<U8>();
    gen_get_and_get_mut::<U16>();
    gen_get_and_get_mut::<U32>();
}

#[test]
fn test_block_size() {
    gen_block_size::<U1>();
    gen_block_size::<U2>();
    gen_block_size::<U4>();
    gen_block_size::<U8>();
    gen_block_size::<U16>();
    gen_block_size::<U32>();
}

#[test]
fn test_contains() {
    gen_contains::<U1>();
    gen_contains::<U2>();
    gen_contains::<U4>();
    gen_contains::<U8>();
    gen_contains::<U16>();
    gen_contains::<U32>();
}

#[test]
fn test_each_iter() {
    gen_each_iter::<U1>();
    gen_each_iter::<U2>();
    gen_each_iter::<U4>();
    gen_each_iter::<U8>();
    gen_each_iter::<U16>();
    gen_each_iter::<U32>();
}

#[test]
fn test_each_iter_mut() {
    gen_each_iter_mut::<U1>();
    gen_each_iter_mut::<U2>();
    gen_each_iter_mut::<U4>();
    gen_each_iter_mut::<U8>();
    gen_each_iter_mut::<U16>();
    gen_each_iter_mut::<U32>();
}

#[test]
fn test_block_iter() {
    gen_block_iter::<U1>();
    gen_block_iter::<U2>();
    gen_block_iter::<U4>();
    gen_block_iter::<U8>();
    gen_block_iter::<U16>();
    gen_block_iter::<U32>();
}

#[test]
fn test_block_iter_mut() {
    gen_block_iter_mut::<U1>();
    gen_block_iter_mut::<U2>();
    gen_block_iter_mut::<U4>();
    gen_block_iter_mut::<U8>();
    gen_block_iter_mut::<U16>();
    gen_block_iter_mut::<U32>();
}

#[test]
fn test_row_major_iter() {
    gen_row_major_iter::<U1>();
    gen_row_major_iter::<U2>();
    gen_row_major_iter::<U4>();
    gen_row_major_iter::<U8>();
    gen_row_major_iter::<U16>();
    gen_row_major_iter::<U32>();
}

#[test]
fn test_row_major_iter_mut() {
    gen_row_major_iter_mut::<U1>();
    gen_row_major_iter_mut::<U2>();
    gen_row_major_iter_mut::<U4>();
    gen_row_major_iter_mut::<U8>();
    gen_row_major_iter_mut::<U16>();
    gen_row_major_iter_mut::<U32>();
}

#[test]
fn test_round_up_to_valid() {
    gen_round_up_to_valid::<U1>();
    gen_round_up_to_valid::<U2>();
    gen_round_up_to_valid::<U4>();
    gen_round_up_to_valid::<U8>();
    gen_round_up_to_valid::<U16>();
    gen_round_up_to_valid::<U32>();
}
