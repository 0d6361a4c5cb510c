//! The picture: pixels in scan order, each channel quantized to a byte.

use vstd::prelude::*;
use vstd::arithmetic::div_mod::{
    lemma_basic_div,
    lemma_div_is_ordered_by_denominator,
    lemma_div_multiples_vanish_quotient,
    lemma_fundamental_div_mod,
};
use vstd::arithmetic::mul::lemma_mul_is_commutative;
use vstd::arithmetic::power2::{
    lemma2_to64,
    lemma2_to64_rest,
    lemma_pow2_adds,
    lemma_pow2_pos,
    lemma_pow2_strictly_increases,
    pow2,
};
use vstd::bits::lemma_u64_shr_is_div;
use crate::scalar::{clamp, clamped, Scalar, HIDDEN_BIT};
use crate::vec_math::Color;

verus! {

/// The encoding of `0.999`, the brightest that a channel gets.
pub const LIMIT_BITS: u64 = 0x3fef_f7ce_d916_872b;

/// `256 |x|`, rounded down, for a finite `x`.
pub open spec fn floor_256(x: Scalar) -> int {
    (x.significand() * pow2(x.scale() + 8)) / (pow2(1075) as int)
}

/// The byte of a gamma-corrected channel value: the value is clamped to
/// `[0, 0.999]`, then scaled by 256 and cut off to an integer. A NaN gives 0.
pub open spec fn channel(gamma: Scalar) -> int {
    let c = clamped(gamma, (Scalar { bits: 0 }, Scalar { bits: LIMIT_BITS }));
    if c.nan() || c.negative() {
        0
    } else {
        floor_256(c)
    }
}

/// The place in the image plane of the pixel that is `k`-th in scan order,
/// as column and row: rows run from the top, which is the highest row, down
/// to row 0, and columns from 0 upwards within a row.
pub open spec fn scan_position(width: int, height: int, k: int) -> (int, int) {
    (k % width, height - 1 - k / width)
}

/// The place in scan order of the pixel at `column` and `row`.
pub open spec fn scan_index(width: int, height: int, column: int, row: int) -> int {
    (height - 1 - row) * width + column
}

/// The four bytes of a pixel.
pub open spec fn rgba(gamma: Color) -> Seq<u8> {
    seq![
        channel(gamma.data[0]) as u8,
        channel(gamma.data[1]) as u8,
        channel(gamma.data[2]) as u8,
        255u8,
    ]
}

/// Below one, scaling by 256 and cutting off is a shift of the significand:
/// nothing is left of a number below `2^-8`, and the byte never overflows.
pub proof fn floor_256_below_one(c: Scalar)
    requires
        c.bits <= LIMIT_BITS,
    ensures
        c.exponent() <= 1022,
        c.exponent() < 1015 ==> floor_256(c) == 0,
        c.exponent() >= 1015 ==> floor_256(c) == c.significand() / (pow2(
            (1067 - c.exponent()) as nat,
        ) as int),
        0 <= floor_256(c) < 256,
{
    lemma2_to64();
    lemma2_to64_rest();
    let e = c.exponent();
    let sig = c.significand();
    let s = c.scale();
    let d = (1067 - s) as nat;
    let lift = pow2(s + 8) as int;
    let cut = pow2(d) as int;
    assert(0 <= sig < 2 * HIDDEN_BIT);
    assert(e <= 1022);
    lemma_pow2_pos(s + 8);
    lemma_pow2_pos(d);
    lemma_pow2_adds(s + 8, d);
    assert(pow2(1075) == lift * cut);
    lemma_div_multiples_vanish_quotient(lift, sig, cut);
    lemma_mul_is_commutative(lift, sig);
    assert(floor_256(c) == sig / cut);
    if d > 45 {
        lemma_pow2_strictly_increases(45, d);
    }
    lemma_div_is_ordered_by_denominator(sig, pow2(45) as int, cut);
    assert(sig / (pow2(45) as int) < 256);
    if e < 1015 {
        if d > 53 {
            lemma_pow2_strictly_increases(53, d);
        }
        lemma_basic_div(sig, cut);
    }
}

/// Quantizes a gamma-corrected channel value.
pub fn quantize(gamma: Scalar) -> (r: u8)
    ensures
        r == channel(gamma),
{
    let c: Scalar = clamp(gamma, (Scalar::zero(), Scalar::from_bits(LIMIT_BITS)));
    if c.is_nan() || c.is_sign_negative() {
        return 0;
    }
    proof {
        floor_256_below_one(c);
    }
    let exponent: u64 = c.bits / HIDDEN_BIT;
    if exponent < 1015 {
        0
    } else {
        let significand: u64 = HIDDEN_BIT + c.bits % HIDDEN_BIT;
        let shift: u64 = 1067 - exponent;
        proof {
            lemma_u64_shr_is_div(significand, shift);
        }
        (significand >> shift) as u8
    }
}

/// A picture under construction: the pixels pushed so far, in scan order,
/// four bytes each, the last of them an opaque alpha.
pub struct Frame {
    width: u32,
    height: u32,
    data: Vec<u8>,
}

impl Frame {
    /// Whole pixels only, each of them opaque, no more of them than the
    /// picture has, and a picture that fits in memory.
    pub closed spec fn wf(self) -> bool {
        &&& self.data.len() % 4 == 0
        &&& self.data.len() <= 4 * (self.width * self.height)
        &&& 4 * (self.width * self.height) <= usize::MAX
        &&& forall|i: int| 0 <= i < self.data.len() && i % 4 == 3 ==> #[trigger] self.data[i] == 255
    }

    pub closed spec fn width_of(self) -> int {
        self.width as int
    }

    pub closed spec fn height_of(self) -> int {
        self.height as int
    }

    /// The bytes pushed so far.
    pub closed spec fn bytes(self) -> Seq<u8> {
        self.data@
    }

    /// The number of pixels pushed so far.
    pub open spec fn filled(self) -> int {
        self.bytes().len() as int / 4
    }

    /// The number of pixels of the whole picture.
    pub open spec fn area(self) -> int {
        self.width_of() * self.height_of()
    }

    /// An empty frame, if a picture of that size can be held in memory.
    pub fn new(width: u32, height: u32) -> (r: Option<Frame>)
        ensures
            r.is_some() == (4 * (width * height) <= usize::MAX),
            r.is_some() ==> r.unwrap().wf() && r.unwrap().width_of() == width
                && r.unwrap().height_of() == height && r.unwrap().bytes() == Seq::<u8>::empty(),
    {
        assert(width * height <= 0xffff_ffff * 0xffff_ffff) by (nonlinear_arith)
            requires
                width <= 0xffff_ffff,
                height <= 0xffff_ffff,
        ;
        let area: u64 = (width as u64) * (height as u64);
        if 4 * (area as u128) <= usize::MAX as u128 {
            Some(Frame { width, height, data: Vec::new() })
        } else {
            None
        }
    }

    pub fn width(&self) -> (r: u32)
        ensures
            r == self.width_of(),
    {
        self.width
    }

    pub fn height(&self) -> (r: u32)
        ensures
            r == self.height_of(),
    {
        self.height
    }

    /// Whether every pixel has been pushed.
    pub fn is_complete(&self) -> (r: bool)
        requires
            self.wf(),
        ensures
            r == (self.filled() == self.area()),
            self.bytes().len() == 4 * self.filled(),
            self.filled() <= self.area(),
    {
        let area: usize = (self.width as usize) * (self.height as usize);
        self.data.len() / 4 == area
    }

    /// The column and row of the pixel that is to be pushed next, or nothing
    /// once the picture is complete.
    pub fn next_pixel(&self) -> (r: Option<(u32, u32)>)
        requires
            self.wf(),
        ensures
            r.is_some() == (self.filled() < self.area()),
            r.is_some() ==> (r.unwrap().0 as int, r.unwrap().1 as int) == scan_position(
                self.width_of(),
                self.height_of(),
                self.filled(),
            ),
    {
        if self.is_complete() {
            return None;
        }
        let filled: usize = self.data.len() / 4;
        let width: usize = self.width as usize;
        assert(width > 0 && filled / width < self.height) by (nonlinear_arith)
            requires
                0 <= filled < width * self.height,
        ;
        let column: usize = filled % width;
        let line: usize = filled / width;
        Some((column as u32, self.height - 1 - line as u32))
    }

    /// Appends a pixel: the three channels of `gamma`, the gamma-corrected
    /// color, quantized, and an opaque alpha.
    pub fn push(&mut self, gamma: Color)
        requires
            old(self).wf(),
            old(self).filled() < old(self).area(),
        ensures
            final(self).wf(),
            final(self).width_of() == old(self).width_of(),
            final(self).height_of() == old(self).height_of(),
            final(self).bytes() == old(self).bytes() + rgba(gamma),
            final(self).filled() == old(self).filled() + 1,
    {
        let ghost before = self.data@;
        self.data.push(quantize(gamma.data[0]));
        self.data.push(quantize(gamma.data[1]));
        self.data.push(quantize(gamma.data[2]));
        self.data.push(255);
        assert(self.data@ =~= before + rgba(gamma));
    }

    /// The finished bytes, row by row from the top, four to a pixel.
    pub fn into_bytes(self) -> (r: Vec<u8>)
        ensures
            r@ == self.bytes(),
    {
        self.data
    }
}

/// A frame holds whole pixels, no more of them than the picture has, and
/// the fourth byte of each, its alpha, is 255.
pub proof fn a_frame_holds_opaque_pixels(frame: Frame)
    requires
        frame.wf(),
    ensures
        frame.bytes().len() == 4 * frame.filled(),
        0 <= frame.filled() <= frame.area(),
        forall|i: int|
            0 <= i < frame.bytes().len() && i % 4 == 3 ==> #[trigger] frame.bytes()[i] == 255,
{
}

/// Scan order numbers the pixels of the image plane one to one: position
/// and index undo each other.
pub proof fn scan_order_is_a_bijection(width: int, height: int, k: int, column: int, row: int)
    requires
        0 < width,
        0 < height,
    ensures
        0 <= k < width * height ==> {
            let (c, r) = scan_position(width, height, k);
            0 <= c < width && 0 <= r < height && scan_index(width, height, c, r) == k
        },
        0 <= column < width && 0 <= row < height ==> {
            let i = scan_index(width, height, column, row);
            0 <= i < width * height && scan_position(width, height, i) == (column, row)
        },
{
    if 0 <= k < width * height {
        lemma_fundamental_div_mod(k, width);
        assert(0 <= k / width < height) by (nonlinear_arith)
            requires
                0 <= k < width * height,
                0 < width,
        ;
        assert((k / width) * width == width * (k / width)) by (nonlinear_arith);
    }
    if 0 <= column < width && 0 <= row < height {
        let line = height - 1 - row;
        let i = line * width + column;
        assert(0 <= i < width * height) by (nonlinear_arith)
            requires
                0 <= line < height,
                0 <= column < width,
                i == line * width + column,
        ;
        vstd::arithmetic::div_mod::lemma_fundamental_div_mod_converse(i, width, line, column);
    }
}

} // verus!
