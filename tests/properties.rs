use block_grid::{
    BlockDim, BlockGrid, CoordsIterator, InvalidSizeError, U1, U128, U16, U2, U256, U32, U4, U512,
    U64, U8,
};

#[test]
fn tour_of_a_small_grid() {
    let data: Vec<usize> = (0..(4 * 6)).collect();
    let grid = BlockGrid::<usize, U2>::from_row_major(4, 6, &data).unwrap();
    assert_eq!(*grid.get((1, 3)).unwrap(), 9);
    assert_eq!(&grid.raw()[..5], &[0, 1, 6, 7, 2]);

    let mut it = grid.block_iter();
    let mut last = None;
    while let Some(b) = it.next() {
        last = Some(b);
    }
    let block = last.unwrap();
    assert_eq!(block.coords(), (1, 2));
    assert_eq!(block.starts_at(), (2, 4));
    assert_eq!(*block.get((0, 1)).unwrap(), 17);
    assert_eq!(block.raw(), &[16, 17, 22, 23]);

    let mut it = grid.row_major_iter();
    let mut i = 0;
    while let Some(&x) = it.next() {
        assert_eq!(x, i);
        i += 1;
    }
    assert_eq!(i, 24);

    let mut it = grid.each_iter().coords();
    while let Some(((row, col), &x)) = it.next() {
        assert_eq!(row * 6 + col, x);
    }
}

#[test]
fn block_dimension_constants() {
    assert_eq!((U1::shift(), U1::width(), U1::area(), U1::mask()), (0, 1, 1, 0));
    assert_eq!((U2::shift(), U2::width(), U2::area(), U2::mask()), (1, 2, 4, 1));
    assert_eq!((U4::shift(), U4::width(), U4::area(), U4::mask()), (2, 4, 16, 3));
    assert_eq!((U8::shift(), U8::width(), U8::area(), U8::mask()), (3, 8, 64, 7));
    assert_eq!((U16::width(), U32::width(), U64::width()), (16, 32, 64));
    assert_eq!((U128::width(), U256::width(), U512::width()), (128, 256, 512));
    assert_eq!(U512::area(), 262144);
    assert_eq!(U4::round_up_to_valid(3, 10), (4, 12));
}

#[test]
fn translation_of_a_tiled_layout() {
    let data: Vec<u32> = (0..(4 * 8)).collect();
    let grid = BlockGrid::<u32, U4>::from_raw_vec(4, 8, data).unwrap();
    // The second block starts at offset 16 and holds columns 4..8.
    assert_eq!(*grid.get((0, 4)).unwrap(), 16);
    assert_eq!(*grid.get((1, 0)).unwrap(), 4);
    assert_eq!(*grid.get((3, 7)).unwrap(), 31);
    assert_eq!(*grid.get_unchecked((2, 5)), 25);
    assert!(grid.get((4, 0)).is_none());
    assert!(grid.get((0, 8)).is_none());
}

#[test]
fn column_major_source() {
    let data: Vec<u8> = (0..16).collect();
    let grid = BlockGrid::<u8, U2>::from_col_major(4, 4, &data).unwrap();
    assert_eq!(*grid.get((0, 1)).unwrap(), 4);
    assert_eq!(*grid.get((3, 0)).unwrap(), 3);
    assert_eq!(grid.raw(), &[0, 4, 1, 5, 8, 12, 9, 13, 2, 6, 3, 7, 10, 14, 11, 15]);
}

#[test]
fn record_round_trip() {
    let data: Vec<i64> = (0..64).map(|x| x * 3 - 20).collect();
    let grid = BlockGrid::<i64, U8>::from_raw_vec(8, 8, data.clone()).unwrap();
    let copy = grid.clone();
    let (rows, cols, bwidth, buf) = grid.into_parts();
    assert_eq!((rows, cols, bwidth), (8, 8, 8));
    assert_eq!(buf, data);
    let back = BlockGrid::<i64, U8>::from_parts(rows, cols, bwidth, buf.clone()).unwrap();
    assert_eq!(back, copy);
    let other = BlockGrid::<i64, U8>::filled(8, 8, 0).unwrap();
    assert!(back != other);
    assert_eq!(back.take_raw_vec(), data);
    assert_eq!(
        BlockGrid::<i64, U2>::from_parts(rows, cols, bwidth, buf.clone()).unwrap_err(),
        InvalidSizeError
    );
    assert_eq!(
        BlockGrid::<i64, U8>::from_parts(8, 16, 8, buf).unwrap_err(),
        InvalidSizeError
    );
}

#[test]
fn nth_skips_with_coordinates() {
    let data: Vec<usize> = (0..16).collect();
    let grid = BlockGrid::<usize, U2>::from_raw_vec(4, 4, data).unwrap();
    let mut it = grid.each_iter().coords();
    let (c, &x) = it.nth(0).unwrap();
    assert_eq!((c, x), ((0, 0), 0));
    let (c, &x) = it.nth(2).unwrap();
    assert_eq!((c, x), ((1, 1), 3));
    let (c, &x) = it.nth(1).unwrap();
    assert_eq!((c, x), ((0, 3), 5));
    assert_eq!(it.len(), 10);
    assert!(it.nth(10).is_none());
    let mut inner = grid.each_iter();
    assert_eq!(*inner.nth(15).unwrap(), 15);
    assert!(inner.next().is_none());
}

#[test]
fn mutation_through_blocks_and_cursors() {
    let mut grid = BlockGrid::<u16, U2>::new(2, 4).unwrap();
    let mut blocks = grid.block_iter_mut();
    let _ = blocks.next(&mut grid);
    if let Some(mut b) = blocks.next(&mut grid) {
        b.raw_mut()[3] = 5;
        *b.get_unchecked_mut((0, 0)) = 1;
        assert!(b.get_mut((2, 0)).is_none());
    }
    assert!(blocks.next(&mut grid).is_none());
    assert_eq!(*grid.get((1, 3)).unwrap(), 5);
    assert_eq!(*grid.get((0, 2)).unwrap(), 1);
    *grid.get_unchecked_mut((0, 0)) = 8;
    grid.raw_mut()[1] = 9;
    assert_eq!(grid.raw(), &[8, 9, 0, 0, 1, 0, 0, 5]);

    let mut cur = grid.row_major_iter_mut();
    let _ = cur.next(&mut grid);
    *cur.next(&mut grid).unwrap() = 4;
    assert_eq!(cur.current_coords(), (0, 2));
    assert_eq!(*grid.get((0, 1)).unwrap(), 4);
    assert!(grid.get_mut((2, 0)).is_none());
}

#[test]
fn counts_of_each_walk() {
    let mut grid = BlockGrid::<u8, U4>::filled(8, 12, 1).unwrap();
    assert_eq!(grid.each_iter().count(), 96);
    assert_eq!(grid.block_iter().count(), 6);
    assert_eq!(grid.row_major_iter().count(), 96);
    assert_eq!(grid.each_iter_mut().count(), 96);
    assert_eq!(grid.block_iter_mut().count(), 6);
    assert_eq!(grid.row_major_iter_mut().count(), 96);
    let mut it = grid.block_iter();
    let _ = it.next();
    assert_eq!(it.len(), 5);
    assert_eq!(it.current_coords(), (0, 1));
}

#[test]
fn clone_keeps_the_elements() {
    let data: Vec<u32> = (0..16).collect();
    let grid = BlockGrid::<u32, U4>::from_raw_vec(4, 4, data.clone()).unwrap();
    let copy = grid.clone();
    assert_eq!(copy.take_raw_vec(), data);
    assert_eq!(grid.blocks(), 1);
}
