use vstd::arithmetic::div_mod::{lemma_fundamental_div_mod, lemma_mod_multiples_basic};
use vstd::arithmetic::power2::*;
use vstd::prelude::*;

verus! {

/// Largest shift a block dimension may use: it keeps a block's area well inside `usize`.
pub const MAX_SHIFT: usize = 15;

/// Width and height of a block of the dimension `B`.
pub open spec fn width_spec<B: BlockDim>() -> nat {
    pow2(B::spec_shift())
}

/// Number of elements in a block of the dimension `B`.
pub open spec fn area_spec<B: BlockDim>() -> nat {
    width_spec::<B>() * width_spec::<B>()
}

/// The smallest multiple of `w` that is at least `max(n, 1)`.
pub open spec fn is_round_up(n: nat, w: nat, r: nat) -> bool {
    &&& r % w == 0
    &&& r >= n
    &&& r >= 1
    &&& r < w + if n == 0 { 1 } else { n }
}

/// Bounds on a block of width `pow2(shift)`.
pub proof fn lemma_width_bounds(shift: nat)
    requires
        shift <= MAX_SHIFT,
    ensures
        1 <= pow2(shift) <= 32768,
        1 <= pow2(shift) * pow2(shift) <= 0x4000_0000,
{
    lemma2_to64();
    lemma_pow2_pos(shift);
    if shift < 15 {
        lemma_pow2_strictly_increases(shift, 15);
    }
    let w = pow2(shift);
    assert(w * w <= 32768 * 32768) by (nonlinear_arith)
        requires
            1 <= w <= 32768,
    ;
    assert(1 <= w * w) by (nonlinear_arith)
        requires
            1 <= w,
    ;
}

/// Bounds that the block width and area of every block dimension satisfy.
pub proof fn lemma_dim_bounds<B: BlockDim>()
    ensures
        B::spec_shift() <= MAX_SHIFT,
        1 <= width_spec::<B>() <= 32768,
        1 <= area_spec::<B>() <= 0x4000_0000,
{
    B::lemma_shift_bounded();
    lemma_width_bounds(B::spec_shift());
}

/// A type that stands for compile-time block dimensions.
///
/// The block width is `1 << shift`, always a power of two.
pub trait BlockDim: Sized {
    /// Number of left shifts of 1 that give the block width.
    spec fn spec_shift() -> nat;

    /// The shift stays small enough for a block's area to fit in `usize`.
    proof fn lemma_shift_bounded()
        ensures
            Self::spec_shift() <= MAX_SHIFT,
    ;

    /// Number of left shifts of 1 that give the block width.
    fn shift() -> (r: usize)
        ensures
            r as nat == Self::spec_shift(),
    ;

    /// Width and height of a block.
    fn width() -> (r: usize)
        ensures
            r as nat == pow2(Self::spec_shift()),
    {
        let s = Self::shift();
        proof {
            Self::lemma_shift_bounded();
            lemma_width_bounds(s as nat);
            vstd::bits::lemma_usize_shl_is_mul(1, s);
        }
        1usize << s
    }

    /// Number of elements in a block.
    fn area() -> (r: usize)
        ensures
            r as nat == pow2(Self::spec_shift()) * pow2(Self::spec_shift()),
    {
        proof {
            Self::lemma_shift_bounded();
            lemma_width_bounds(Self::spec_shift());
        }
        let w = Self::width();
        w * w
    }

    /// Bit mask equal to `width - 1`, which extracts the offset within a block.
    fn mask() -> (r: usize)
        ensures
            r as nat == pow2(Self::spec_shift()) - 1,
    {
        proof {
            Self::lemma_shift_bounded();
            lemma_width_bounds(Self::spec_shift());
        }
        Self::width() - 1
    }

    /// Rounds dimensions up to the next valid size. Returns `(rows, cols)`: each is the smallest
    /// multiple of the block width that is at least the given value and at least 1.
    fn round_up_to_valid(rows: usize, cols: usize) -> (r: (usize, usize))
        requires
            rows + pow2(Self::spec_shift()) <= usize::MAX,
            cols + pow2(Self::spec_shift()) <= usize::MAX,
        ensures
            is_round_up(rows as nat, pow2(Self::spec_shift()), r.0 as nat),
            is_round_up(cols as nat, pow2(Self::spec_shift()), r.1 as nat),
    {
        proof {
            Self::lemma_shift_bounded();
            lemma_width_bounds(Self::spec_shift());
        }
        let w = Self::width();
        (round_up(rows, w), round_up(cols, w))
    }
}

/// Rounds `n` up to the smallest multiple of `w` that is at least `max(n, 1)`.
fn round_up(n: usize, w: usize) -> (r: usize)
    requires
        w >= 1,
        n + w <= usize::MAX,
    ensures
        is_round_up(n as nat, w as nat, r as nat),
{
    let m: usize = if n == 0 { 1 } else { n };
    let rem: usize = m % w;
    proof {
        lemma_fundamental_div_mod(m as int, w as int);
        lemma_mod_multiples_basic(m as int / w as int + 1, w as int);
        assert((m as int / w as int + 1) * w == w * (m as int / w as int) + w) by (nonlinear_arith);
    }
    if rem != 0 {
        m + (w - rem)
    } else {
        m
    }
}

/// Blocks of width 1.
#[derive(Clone, Copy, Debug, PartialEq, Eq)]
pub struct U1;

impl BlockDim for U1 {
    open spec fn spec_shift() -> nat {
        0
    }

    proof fn lemma_shift_bounded() {
    }

    fn shift() -> (r: usize) {
        0
    }
}

/// Blocks of width 2.
#[derive(Clone, Copy, Debug, PartialEq, Eq)]
pub struct U2;

impl BlockDim for U2 {
    open spec fn spec_shift() -> nat {
        1
    }

    proof fn lemma_shift_bounded() {
    }

    fn shift() -> (r: usize) {
        1
    }
}

/// Blocks of width 4.
#[derive(Clone, Copy, Debug, PartialEq, Eq)]
pub struct U4;

impl BlockDim for U4 {
    open spec fn spec_shift() -> nat {
        2
    }

    proof fn lemma_shift_bounded() {
    }

    fn shift() -> (r: usize) {
        2
    }
}

/// Blocks of width 8.
#[derive(Clone, Copy, Debug, PartialEq, Eq)]
pub struct U8;

impl BlockDim for U8 {
    open spec fn spec_shift() -> nat {
        3
    }

    proof fn lemma_shift_bounded() {
    }

    fn shift() -> (r: usize) {
        3
    }
}

/// Blocks of width 16.
#[derive(Clone, Copy, Debug, PartialEq, Eq)]
pub struct U16;

impl BlockDim for U16 {
    open spec fn spec_shift() -> nat {
        4
    }

    proof fn lemma_shift_bounded() {
    }

    fn shift() -> (r: usize) {
        4
    }
}

/// Blocks of width 32.
#[derive(Clone, Copy, Debug, PartialEq, Eq)]
pub struct U32;

impl BlockDim for U32 {
    open spec fn spec_shift() -> nat {
        5
    }

    proof fn lemma_shift_bounded() {
    }

    fn shift() -> (r: usize) {
        5
    }
}

/// Blocks of width 64.
#[derive(Clone, Copy, Debug, PartialEq, Eq)]
pub struct U64;

impl BlockDim for U64 {
    open spec fn spec_shift() -> nat {
        6
    }

    proof fn lemma_shift_bounded() {
    }

    fn shift() -> (r: usize) {
        6
    }
}

/// Blocks of width 128.
#[derive(Clone, Copy, Debug, PartialEq, Eq)]
pub struct U128;

impl BlockDim for U128 {
    open spec fn spec_shift() -> nat {
        7
    }

    proof fn lemma_shift_bounded() {
    }

    fn shift() -> (r: usize) {
        7
    }
}

/// Blocks of width 256.
#[derive(Clone, Copy, Debug, PartialEq, Eq)]
pub struct U256;

impl BlockDim for U256 {
    open spec fn spec_shift() -> nat {
        8
    }

    proof fn lemma_shift_bounded() {
    }

    fn shift() -> (r: usize) {
        8
    }
}

/// Blocks of width 512.
#[derive(Clone, Copy, Debug, PartialEq, Eq)]
pub struct U512;

impl BlockDim for U512 {
    open spec fn spec_shift() -> nat {
        9
    }

    proof fn lemma_shift_bounded() {
    }

    fn shift() -> (r: usize) {
        9
    }
}

} // verus!
