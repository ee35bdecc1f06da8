use vstd::prelude::*;
use crate::quantize::{Quantized, Ratio, round_div, round_quotient};

verus! {

/// The clamp fused after requantization.
#[allow(non_camel_case_types)]
#[derive(Clone, Copy, Debug, PartialEq, Eq, Structural)]
pub enum FusedActivation {
    NONE,
    RELU,
    RELU6,
}

pub open spec fn max_int(a: int, b: int) -> int {
    if a >= b {
        a
    } else {
        b
    }
}

pub open spec fn min_int(a: int, b: int) -> int {
    if a <= b {
        a
    } else {
        b
    }
}

/// The code of real value 6 under `scale` and `zero_point`:
/// `round(6 / scale) + zero_point`.
pub open spec fn six_code(scale: Ratio, zero_point: int) -> int {
    round_quotient(6 * scale.den, scale.num as int) + zero_point
}

/// What a RELU6 scale needs: a well-formed, non-zero ratio.
pub open spec fn scale_usable(scale: Ratio) -> bool {
    scale.wf() && scale.num != 0
}

/// The code after the fused activation `mode`.
pub open spec fn activated(mode: FusedActivation, y: int, scale: Ratio, zero_point: int) -> int {
    match mode {
        FusedActivation::NONE => y,
        FusedActivation::RELU => max_int(y, zero_point),
        FusedActivation::RELU6 => max_int(zero_point, min_int(y, six_code(scale, zero_point))),
    }
}

/// `max(y, zero_point)`: real zero is the code `zero_point`.
pub fn relu<T: Quantized>(y: T, zero_point: T) -> (r: T)
    ensures
        r.code() == max_int(y.code(), zero_point.code()),
{
    if y.widen() >= zero_point.widen() {
        y
    } else {
        zero_point
    }
}

/// `round(6 / scale) + zero_point` as a wide integer.
fn six_ceiling(scale: Ratio, zero_point: i64) -> (r: i128)
    requires
        scale_usable(scale),
        -0x1_0000_0000 <= zero_point <= 0x1_0000_0000,
    ensures
        r == six_code(scale, zero_point as int),
        -0x10_0000_0000 <= r <= 0x10_0000_0000,
{
    let n: i128 = 6 * scale.den as i128;
    let d: i128 = scale.num as i128;
    let q = if d > 0 {
        round_div(n, d)
    } else {
        round_div(-n, -d)
    };
    proof {
        let (nn, dd) = if d > 0 { (n as int, d as int) } else { (-n as int, -d as int) };
        assert(dd > 0);
        if nn >= 0 {
            assert(0 <= (2 * nn + dd) / (2 * dd) <= 2 * nn + dd) by (nonlinear_arith)
                requires dd > 0, nn >= 0;
        } else {
            assert(0 <= (-2 * nn + dd) / (2 * dd) <= -2 * nn + dd) by (nonlinear_arith)
                requires dd > 0, nn < 0;
        }
    }
    q + zero_point as i128
}

/// `max(zero_point, min(y, round(6 / scale) + zero_point))`.
pub fn relu6<T: Quantized>(y: T, scale: Ratio, zero_point: T) -> (r: T)
    requires
        scale_usable(scale),
    ensures
        r.code() == max_int(zero_point.code(), min_int(y.code(), six_code(scale, zero_point.code()))),
{
    proof {
        T::lemma_bounds();
        T::lemma_code_range(y);
        T::lemma_code_range(zero_point);
    }
    let yi = y.widen();
    let zi = zero_point.widen();
    let b = six_ceiling(scale, zi);
    let lo: i128 = if (yi as i128) <= b {
        yi as i128
    } else {
        b
    };
    let v: i128 = if lo >= zi as i128 {
        lo
    } else {
        zi as i128
    };
    T::saturate(v)
}

/// Applies the fused activation `mode` to the requantized code `y`.
pub fn activate<T: Quantized>(mode: FusedActivation, y: T, scale: Ratio, zero_point: T) -> (r: T)
    requires
        mode == FusedActivation::RELU6 ==> scale_usable(scale),
    ensures
        r.code() == activated(mode, y.code(), scale, zero_point.code()),
{
    match mode {
        FusedActivation::NONE => y,
        FusedActivation::RELU => relu(y, zero_point),
        FusedActivation::RELU6 => relu6(y, scale, zero_point),
    }
}

} // verus!
