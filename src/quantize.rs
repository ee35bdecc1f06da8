use vstd::prelude::*;

verus! {

/// Smallest code any supported quantized type can hold.
pub const CODE_FLOOR: i64 = -32768;

/// Largest code any supported quantized type can hold.
pub const CODE_CEIL: i64 = 65535;

/// `v` clamped into `[lo, hi]`.
pub open spec fn clamp(v: int, lo: int, hi: int) -> int {
    if v < lo {
        lo
    } else if v > hi {
        hi
    } else {
        v
    }
}

/// An integer type that holds quantized codes: it widens into the
/// accumulator and saturates back from a wide integer.
pub trait Quantized: Copy + Sized {
    /// The integer this code stands for.
    spec fn code(self) -> int;

    /// Smallest representable code.
    spec fn min_code() -> int;

    /// Largest representable code.
    spec fn max_code() -> int;

    proof fn lemma_code_range(x: Self)
        ensures
            Self::min_code() <= x.code() <= Self::max_code(),
    ;

    proof fn lemma_bounds()
        ensures
            CODE_FLOOR <= Self::min_code() <= 0,
            0 < Self::max_code() <= CODE_CEIL,
    ;

    /// The code as an accumulator value.
    fn widen(&self) -> (r: i64)
        ensures
            r as int == self.code(),
    ;

    /// `v` clamped into the representable range (never wrapped).
    fn saturate(v: i128) -> (r: Self)
        ensures
            r.code() == clamp(v as int, Self::min_code(), Self::max_code()),
    ;
}

impl Quantized for i8 {
    open spec fn code(self) -> int {
        self as int
    }

    open spec fn min_code() -> int {
        -128
    }

    open spec fn max_code() -> int {
        127
    }

    proof fn lemma_code_range(x: Self) {
    }

    proof fn lemma_bounds() {
    }

    fn widen(&self) -> (r: i64) {
        *self as i64
    }

    fn saturate(v: i128) -> (r: Self) {
        if v < -128 {
            -128
        } else if v > 127 {
            127
        } else {
            v as i8
        }
    }
}

impl Quantized for u8 {
    open spec fn code(self) -> int {
        self as int
    }

    open spec fn min_code() -> int {
        0
    }

    open spec fn max_code() -> int {
        255
    }

    proof fn lemma_code_range(x: Self) {
    }

    proof fn lemma_bounds() {
    }

    fn widen(&self) -> (r: i64) {
        *self as i64
    }

    fn saturate(v: i128) -> (r: Self) {
        if v < 0 {
            0
        } else if v > 255 {
            255
        } else {
            v as u8
        }
    }
}

impl Quantized for i16 {
    open spec fn code(self) -> int {
        self as int
    }

    open spec fn min_code() -> int {
        -32768
    }

    open spec fn max_code() -> int {
        32767
    }

    proof fn lemma_code_range(x: Self) {
    }

    proof fn lemma_bounds() {
    }

    fn widen(&self) -> (r: i64) {
        *self as i64
    }

    fn saturate(v: i128) -> (r: Self) {
        if v < -32768 {
            -32768
        } else if v > 32767 {
            32767
        } else {
            v as i16
        }
    }
}


/// An exact rational number `num / den`; well formed when `den > 0`.
#[derive(Clone, Copy, Debug, PartialEq, Eq, Structural)]
pub struct Ratio {
    pub num: i32,
    pub den: u32,
}

impl Ratio {
    pub open spec fn wf(self) -> bool {
        self.den > 0
    }

    pub fn new(num: i32, den: u32) -> (r: Ratio)
        ensures
            r.num == num,
            r.den == den,
    {
        Ratio { num, den }
    }
}

/// `n / d` rounded to the nearest integer, halves away from zero.
pub open spec fn round_half_away(n: int, d: int) -> int
    recommends
        d > 0,
{
    if n >= 0 {
        (2 * n + d) / (2 * d)
    } else {
        -((-2 * n + d) / (2 * d))
    }
}

/// `n / d` for a non-zero `d` of either sign, rounded half away from zero.
pub open spec fn round_quotient(n: int, d: int) -> int
    recommends
        d != 0,
{
    if d > 0 {
        round_half_away(n, d)
    } else {
        round_half_away(-n, -d)
    }
}

/// `round(multiplier * (sum / count) + offset)`, computed exactly: over the
/// common denominator `multiplier.den * count * offset.den`.
pub open spec fn requantized(multiplier: Ratio, offset: Ratio, sum: int, count: int) -> int {
    round_half_away(
        multiplier.num * sum * offset.den + offset.num * multiplier.den * count,
        multiplier.den * count * offset.den,
    )
}

/// Largest filter area (rows times columns) whose sum the accumulator holds.
pub const MAX_FILTER_AREA: usize = 1048576;

/// Rounds `n / d` half away from zero.
pub fn round_div(n: i128, d: i128) -> (r: i128)
    requires
        0 < d < 0x100_0000_0000_0000_0000_0000_0000_0000,
        -0x100_0000_0000_0000_0000_0000_0000_0000 < n < 0x100_0000_0000_0000_0000_0000_0000_0000,
    ensures
        r == round_half_away(n as int, d as int),
{
    if n >= 0 {
        let q: u128 = (2 * n + d) as u128 / (2 * d) as u128;
        proof {
            assert(q <= 2 * n + d) by (nonlinear_arith)
                requires q == (2 * n + d) / (2 * d), d > 0, n >= 0;
        }
        q as i128
    } else {
        let q: u128 = (-2 * n + d) as u128 / (2 * d) as u128;
        proof {
            assert(q <= -2 * n + d) by (nonlinear_arith)
                requires q == (-2 * n + d) / (2 * d), d > 0, n < 0;
        }
        -(q as i128)
    }
}

/// Maps a window's `sum` over `count` elements into the output domain:
/// `round(multiplier * sum / count + offset)`, exact and rounded half away
/// from zero.
pub fn requantize(sum: i64, count: usize, multiplier: Ratio, offset: Ratio) -> (r: i128)
    requires
        0 < count <= MAX_FILTER_AREA,
        CODE_FLOOR * count <= sum <= CODE_CEIL * count,
        multiplier.wf(),
        offset.wf(),
    ensures
        r == requantized(multiplier, offset, sum as int, count as int),
{
    let mn = multiplier.num as i128;
    let md = multiplier.den as i128;
    let on = offset.num as i128;
    let od = offset.den as i128;
    let s = sum as i128;
    let c = count as i128;
    proof {
        assert(-0x10_0000_0000 <= s <= 0x10_0000_0000) by (nonlinear_arith)
            requires
                0 < c <= 1048576,
                -32768 * c <= s <= 65535 * c,
        ;
        let ms = mn * s;
        assert(-0x80_0000_0000_0000_0000 <= ms <= 0x80_0000_0000_0000_0000) by (nonlinear_arith)
            requires
                ms == mn * s,
                -0x8000_0000 <= mn < 0x8000_0000,
                -0x10_0000_0000 <= s <= 0x10_0000_0000,
        ;
        assert(-0x80_0000_0000_0000_0000_0000_0000 <= ms * od <= 0x80_0000_0000_0000_0000_0000_0000)
            by (nonlinear_arith)
            requires
                -0x80_0000_0000_0000_0000 <= ms <= 0x80_0000_0000_0000_0000,
                0 <= od < 0x1_0000_0000,
        ;
        let omd = on * md;
        assert(-0x1_0000_0000_0000_0000 <= omd <= 0x1_0000_0000_0000_0000) by (nonlinear_arith)
            requires
                omd == on * md,
                -0x8000_0000 <= on < 0x8000_0000,
                0 <= md < 0x1_0000_0000,
        ;
        assert(-0x1_0000_0000_0000_0000_0000_0000 <= omd * c <= 0x1_0000_0000_0000_0000_0000_0000)
            by (nonlinear_arith)
            requires
                -0x1_0000_0000_0000_0000 <= omd <= 0x1_0000_0000_0000_0000,
                0 < c <= 1048576,
        ;
        let mdc = md * c;
        assert(0 < mdc <= 0x10_0000_0000_0000) by (nonlinear_arith)
            requires
                mdc == md * c,
                0 < md < 0x1_0000_0000,
                0 < c <= 1048576,
        ;
        assert(0 < mdc * od <= 0x10_0000_0000_0000_0000_0000) by (nonlinear_arith)
            requires
                0 < mdc <= 0x10_0000_0000_0000,
                0 < od < 0x1_0000_0000,
        ;
    }
    round_div(mn * s * od + on * md * c, md * c * od)
}

} // verus!
