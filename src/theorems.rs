use vstd::prelude::*;
use crate::activation::{FusedActivation, activated, max_int, min_int, six_code};
use crate::average_pool_2d::{
    AveragePool2DOptions, AveragePool2DPadding, pooled_code, row_count, row_sum, window_count,
    window_origin, window_sum,
};
use crate::quantize::{Quantized, Ratio, clamp, requantized};
use crate::tensor::Tensor4D;

verus! {

/// How many of the `f` consecutive positions starting at `a` lie in `[0, n)`.
pub open spec fn overlap(a: int, f: int, n: int) -> int {
    let lo = max_int(a, 0);
    let hi = min_int(a + f, n);
    if hi > lo {
        hi - lo
    } else {
        0
    }
}

proof fn lemma_row_count<T: Quantized>(t: Tensor4D<T>, r0: int, c0: int, m: int, n: nat)
    ensures
        row_count(t, r0, c0, m, n) == if 0 <= r0 + m < t.rows {
            overlap(c0, n as int, t.cols as int)
        } else {
            0
        },
    decreases n,
{
    if n > 0 {
        lemma_row_count(t, r0, c0, m, (n - 1) as nat);
    }
}

/// The divisor of a window is the number of its positions inside the input:
/// the rows it shares with the input times the columns it shares with it.
/// This holds at every output coordinate, corners and edges included.
pub proof fn lemma_divisor_counts_positions_in_bounds<T: Quantized>(
    t: Tensor4D<T>,
    r0: int,
    c0: int,
    rows: nat,
    cols: nat,
)
    ensures
        window_count(t, r0, c0, rows, cols) == overlap(r0, rows as int, t.rows as int) * overlap(
            c0,
            cols as int,
            t.cols as int,
        ),
    decreases rows,
{
    if rows > 0 {
        lemma_divisor_counts_positions_in_bounds(t, r0, c0, (rows - 1) as nat, cols);
        lemma_row_count(t, r0, c0, rows - 1, cols);
        let a = overlap(r0, rows - 1, t.rows as int);
        let x = overlap(c0, cols as int, t.cols as int);
        assert((a + 1) * x == a * x + x) by (nonlinear_arith);
    }
}

/// Under SAME padding, a window that lies wholly inside the input is divided
/// by the full filter area.
pub proof fn lemma_interior_divisor_is_filter_area<T: Quantized>(
    input: Tensor4D<T>,
    filter_shape: (usize, usize),
    options: AveragePool2DOptions,
    i: int,
    j: int,
)
    requires
        options.padding == AveragePool2DPadding::SAME,
        0 <= i,
        0 <= j,
        0 <= window_origin(options, filter_shape, i, j).0,
        window_origin(options, filter_shape, i, j).0 + filter_shape.0 <= input.rows,
        0 <= window_origin(options, filter_shape, i, j).1,
        window_origin(options, filter_shape, i, j).1 + filter_shape.1 <= input.cols,
    ensures
        window_count(
            input,
            window_origin(options, filter_shape, i, j).0,
            window_origin(options, filter_shape, i, j).1,
            filter_shape.0 as nat,
            filter_shape.1 as nat,
        ) == filter_shape.0 * filter_shape.1,
{
    let o = window_origin(options, filter_shape, i, j);
    lemma_divisor_counts_positions_in_bounds(input, o.0, o.1, filter_shape.0 as nat, filter_shape.1 as nat);
}

/// VALID padding with a 1 by 1 filter and unit strides maps each input code
/// on its own: the output is `round(multiplier * x + offset)` of the input
/// code `x`, saturated and activated.
pub proof fn lemma_unit_filter_requantizes_each_code<T: Quantized>(
    input: Tensor4D<T>,
    output_scale: Ratio,
    output_zero_point: int,
    options: AveragePool2DOptions,
    constants: (Ratio, Ratio),
    i: int,
    j: int,
    ch: int,
)
    requires
        options.padding == AveragePool2DPadding::VALID,
        options.strides == (1usize, 1usize),
        input.in_bounds(i, j),
    ensures
        pooled_code(input, (1, 1), output_scale, output_zero_point, options, constants, i, j, ch)
            == activated(
            options.fused_activation,
            clamp(
                requantized(constants.0, constants.1, input.code_at(i, j, ch), 1),
                T::min_code(),
                T::max_code(),
            ),
            output_scale,
            output_zero_point,
        ),
{
    let o = window_origin(options, (1, 1), i, j);
    assert(o == (i, j));
    assert(row_count(input, i, j, 0, 0) == 0);
    assert(row_count(input, i, j, 0, 1) == 1);
    assert(window_count(input, i, j, 0, 1) == 0);
    assert(window_count(input, i, j, 1, 1) == 1);
    assert(row_sum(input, i, j, ch, 0, 0) == 0);
    assert(row_sum(input, i, j, ch, 0, 1) == input.code_at(i, j, ch));
    assert(window_sum(input, i, j, ch, 0, 1) == 0);
    assert(window_sum(input, i, j, ch, 1, 1) == input.code_at(i, j, ch));
}

/// Without an activation, a requantized value beyond the output type's range
/// comes out as the nearest bound of that range, never wrapped.
pub proof fn lemma_saturates_at_bounds<T: Quantized>(
    input: Tensor4D<T>,
    filter_shape: (usize, usize),
    output_scale: Ratio,
    output_zero_point: T,
    options: AveragePool2DOptions,
    constants: (Ratio, Ratio),
    i: int,
    j: int,
    ch: int,
)
    requires
        options.fused_activation == FusedActivation::NONE,
    ensures
        ({
            let o = window_origin(options, filter_shape, i, j);
            let count = window_count(input, o.0, o.1, filter_shape.0 as nat, filter_shape.1 as nat);
            let sum = window_sum(input, o.0, o.1, ch, filter_shape.0 as nat, filter_shape.1 as nat);
            let code = pooled_code(input, filter_shape, output_scale, output_zero_point.code(),
                options, constants, i, j, ch);
            &&& T::min_code() <= code <= T::max_code()
            &&& count > 0 && requantized(constants.0, constants.1, sum, count) > T::max_code()
                ==> code == T::max_code()
            &&& count > 0 && requantized(constants.0, constants.1, sum, count) < T::min_code()
                ==> code == T::min_code()
        }),
{
    T::lemma_code_range(output_zero_point);
}

/// With RELU fused, no output code lies below the output zero point.
pub proof fn lemma_relu_floor<T: Quantized>(
    input: Tensor4D<T>,
    filter_shape: (usize, usize),
    output_scale: Ratio,
    output_zero_point: int,
    options: AveragePool2DOptions,
    constants: (Ratio, Ratio),
    i: int,
    j: int,
    ch: int,
)
    requires
        options.fused_activation == FusedActivation::RELU,
    ensures
        pooled_code(input, filter_shape, output_scale, output_zero_point, options, constants, i, j, ch)
            >= output_zero_point,
{
}

/// With RELU6 fused and a positive output scale, every output code lies in
/// `[zero_point, round(6 / scale) + zero_point]`.
pub proof fn lemma_relu6_band<T: Quantized>(
    input: Tensor4D<T>,
    filter_shape: (usize, usize),
    output_scale: Ratio,
    output_zero_point: int,
    options: AveragePool2DOptions,
    constants: (Ratio, Ratio),
    i: int,
    j: int,
    ch: int,
)
    requires
        options.fused_activation == FusedActivation::RELU6,
        output_scale.wf(),
        output_scale.num > 0,
    ensures
        output_zero_point <= pooled_code(input, filter_shape, output_scale, output_zero_point,
            options, constants, i, j, ch) <= six_code(output_scale, output_zero_point),
{
    let n = 6 * output_scale.den;
    let d = output_scale.num as int;
    assert((2 * n + d) / (2 * d) >= 0) by (nonlinear_arith)
        requires
            n >= 0,
            d > 0,
    ;
}

} // verus!
