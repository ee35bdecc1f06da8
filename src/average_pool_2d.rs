use vstd::prelude::*;
use crate::activation::{FusedActivation, activate, activated, scale_usable};
use crate::quantize::{
    Quantized, Ratio, clamp, requantize, requantized, CODE_CEIL, CODE_FLOOR, MAX_FILTER_AREA,
};
use crate::tensor::{Tensor4D, lemma_flat_index};
use vstd::arithmetic::div_mod::lemma_fundamental_div_mod_converse;

verus! {

/// How windows meet the tensor's border.
#[allow(non_camel_case_types)]
#[derive(Clone, Copy, Debug, PartialEq, Eq, Structural)]
pub enum AveragePool2DPadding {
    /// Windows are centred on strided positions; positions outside the
    /// input count neither in the sum nor in the divisor.
    SAME,
    /// Windows lie wholly inside the input.
    VALID,
}

/// Activation, padding policy and `(row, column)` strides of one pooling.
#[derive(Clone, Copy, Debug)]
pub struct AveragePool2DOptions {
    pub fused_activation: FusedActivation,
    pub padding: AveragePool2DPadding,
    pub strides: (usize, usize),
}

/// Why a pooling configuration is refused.
#[derive(Clone, Copy, Debug, PartialEq, Eq, Structural)]
pub enum PoolError {
    /// A requantization constant has a zero denominator.
    InvalidConstants,
    /// RELU6 needs a well-formed, non-zero output scale.
    InvalidScale,
    /// The filter area exceeds `MAX_FILTER_AREA`.
    FilterTooLarge,
    /// The output extents do not fit the input, filter and strides.
    ShapeMismatch,
}

/// How far a window reaches back from its strided position.
pub open spec fn shift(padding: AveragePool2DPadding, f: int) -> int {
    match padding {
        AveragePool2DPadding::SAME => if f > 0 { (f - 1) / 2 } else { 0 },
        AveragePool2DPadding::VALID => 0,
    }
}

/// Sum of the codes of channel `ch` at `(r0 + m, c0 + k)` for `k < n`,
/// over the positions inside the input.
pub open spec fn row_sum<T: Quantized>(t: Tensor4D<T>, r0: int, c0: int, ch: int, m: int, n: nat) -> int
    decreases n,
{
    if n == 0 {
        0
    } else {
        row_sum(t, r0, c0, ch, m, (n - 1) as nat) + if t.in_bounds(r0 + m, c0 + n - 1) {
            t.code_at(r0 + m, c0 + n - 1, ch)
        } else {
            0
        }
    }
}

/// How many of `(r0 + m, c0 + k)`, `k < n`, lie inside the input.
pub open spec fn row_count<T: Quantized>(t: Tensor4D<T>, r0: int, c0: int, m: int, n: nat) -> int
    decreases n,
{
    if n == 0 {
        0
    } else {
        row_count(t, r0, c0, m, (n - 1) as nat) + if t.in_bounds(r0 + m, c0 + n - 1) {
            1int
        } else {
            0
        }
    }
}

/// Sum over the window rows `m < rows` of `cols` positions each, anchored at
/// `(r0, c0)`.
pub open spec fn window_sum<T: Quantized>(t: Tensor4D<T>, r0: int, c0: int, ch: int, rows: nat, cols: nat) -> int
    decreases rows,
{
    if rows == 0 {
        0
    } else {
        window_sum(t, r0, c0, ch, (rows - 1) as nat, cols) + row_sum(t, r0, c0, ch, rows - 1, cols)
    }
}

/// How many window positions anchored at `(r0, c0)` lie inside the input.
pub open spec fn window_count<T: Quantized>(t: Tensor4D<T>, r0: int, c0: int, rows: nat, cols: nat) -> int
    decreases rows,
{
    if rows == 0 {
        0
    } else {
        window_count(t, r0, c0, (rows - 1) as nat, cols) + row_count(t, r0, c0, rows - 1, cols)
    }
}

/// Top-left input position of the window of output `(i, j)`; it may lie
/// outside the input under SAME padding.
pub open spec fn window_origin(opts: AveragePool2DOptions, filter_shape: (usize, usize), i: int, j: int) -> (int, int) {
    (
        opts.strides.0 * i - shift(opts.padding, filter_shape.0 as int),
        opts.strides.1 * j - shift(opts.padding, filter_shape.1 as int),
    )
}

/// The output code at `(i, j, ch)`: the window average requantized,
/// saturated into `T`, then passed through the fused activation; an empty
/// window gives the output zero point.
pub open spec fn pooled_code<T: Quantized>(
    input: Tensor4D<T>,
    filter_shape: (usize, usize),
    output_scale: Ratio,
    output_zero_point: int,
    opts: AveragePool2DOptions,
    constants: (Ratio, Ratio),
    i: int,
    j: int,
    ch: int,
) -> int {
    let o = window_origin(opts, filter_shape, i, j);
    let fr = filter_shape.0 as nat;
    let fc = filter_shape.1 as nat;
    let count = window_count(input, o.0, o.1, fr, fc);
    let sum = window_sum(input, o.0, o.1, ch, fr, fc);
    if count == 0 {
        output_zero_point
    } else {
        activated(
            opts.fused_activation,
            clamp(requantized(constants.0, constants.1, sum, count), T::min_code(), T::max_code()),
            output_scale,
            output_zero_point,
        )
    }
}

/// Under VALID padding the windows of an `output_shape` output reach past the
/// input.
pub open spec fn valid_overrun(
    input_rows: int,
    input_cols: int,
    filter_shape: (usize, usize),
    output_shape: (usize, usize),
    strides: (usize, usize),
) -> bool {
    ||| output_shape.0 > 0 && strides.0 * (output_shape.0 - 1) + filter_shape.0 > input_rows
    ||| output_shape.1 > 0 && strides.1 * (output_shape.1 - 1) + filter_shape.1 > input_cols
}

/// The first problem of a configuration, in the order the checks are made.
pub open spec fn config_error(
    input_rows: int,
    input_cols: int,
    filter_shape: (usize, usize),
    output_shape: (usize, usize),
    output_scale: Ratio,
    opts: AveragePool2DOptions,
    constants: (Ratio, Ratio),
) -> Option<PoolError> {
    if !(constants.0.wf() && constants.1.wf()) {
        Some(PoolError::InvalidConstants)
    } else if opts.fused_activation == FusedActivation::RELU6 && !scale_usable(output_scale) {
        Some(PoolError::InvalidScale)
    } else if filter_shape.0 * filter_shape.1 > MAX_FILTER_AREA {
        Some(PoolError::FilterTooLarge)
    } else if output_shape.0 * output_shape.1 > usize::MAX {
        Some(PoolError::ShapeMismatch)
    } else if opts.padding == AveragePool2DPadding::VALID && valid_overrun(
        input_rows,
        input_cols,
        filter_shape,
        output_shape,
        opts.strides,
    ) {
        Some(PoolError::ShapeMismatch)
    } else {
        None
    }
}

proof fn lemma_row_step<T: Quantized>(t: Tensor4D<T>, r0: int, c0: int, ch: int, m: int, n: nat)
    ensures
        row_sum(t, r0, c0, ch, m, n + 1) == row_sum(t, r0, c0, ch, m, n) + if t.in_bounds(r0 + m, c0 + n) {
            t.code_at(r0 + m, c0 + n, ch)
        } else {
            0
        },
        row_count(t, r0, c0, m, n + 1) == row_count(t, r0, c0, m, n) + if t.in_bounds(r0 + m, c0 + n) {
            1int
        } else {
            0
        },
{
}

/// Sums channel `ch` over the window anchored at
/// `(base_r - shift_r, base_c - shift_c)`, visiting positions in row-major
/// order and skipping those outside the input; returns the sum and the
/// number of positions that contributed.
pub fn window_reduce<T: Quantized>(
    t: &Tensor4D<T>,
    base_r: u128,
    base_c: u128,
    shift_r: u128,
    shift_c: u128,
    filter_shape: (usize, usize),
    ch: usize,
) -> (r: (i64, usize))
    requires
        t.wf(),
        filter_shape.0 * filter_shape.1 <= MAX_FILTER_AREA,
        base_r + filter_shape.0 <= u128::MAX,
        base_c + filter_shape.1 <= u128::MAX,
    ensures
        r.0 == window_sum(*t, base_r - shift_r, base_c - shift_c, ch as int,
            filter_shape.0 as nat, filter_shape.1 as nat),
        r.1 == window_count(*t, base_r - shift_r, base_c - shift_c,
            filter_shape.0 as nat, filter_shape.1 as nat),
        r.1 <= filter_shape.0 * filter_shape.1,
        CODE_FLOOR * r.1 <= r.0 <= CODE_CEIL * r.1,
{
    let ghost r0 = base_r - shift_r;
    let ghost c0 = base_c - shift_c;
    let fr = filter_shape.0;
    let fc = filter_shape.1;
    let mut sum: i64 = 0;
    let mut count: usize = 0;
    let mut m: usize = 0;
    while m < fr
        invariant
            t.wf(),
            fr * fc <= MAX_FILTER_AREA,
            base_r + fr <= u128::MAX,
            base_c + fc <= u128::MAX,
            r0 == base_r - shift_r,
            c0 == base_c - shift_c,
            fr == filter_shape.0,
            fc == filter_shape.1,
            m <= fr,
            sum == window_sum(*t, r0, c0, ch as int, m as nat, fc as nat),
            count == window_count(*t, r0, c0, m as nat, fc as nat),
            count <= m * fc,
            CODE_FLOOR * count <= sum <= CODE_CEIL * count,
        decreases fr - m,
    {
        let ghost sum_before = sum;
        let ghost count_before = count;
        let mut n: usize = 0;
        while n < fc
            invariant
                t.wf(),
                fr * fc <= MAX_FILTER_AREA,
                base_r + fr <= u128::MAX,
                base_c + fc <= u128::MAX,
                r0 == base_r - shift_r,
                c0 == base_c - shift_c,
                fr == filter_shape.0,
                fc == filter_shape.1,
                m < fr,
                n <= fc,
                sum_before == window_sum(*t, r0, c0, ch as int, m as nat, fc as nat),
                count_before == window_count(*t, r0, c0, m as nat, fc as nat),
                sum == sum_before + row_sum(*t, r0, c0, ch as int, m as int, n as nat),
                count == count_before + row_count(*t, r0, c0, m as int, n as nat),
                count <= m * fc + n,
                CODE_FLOOR * count <= sum <= CODE_CEIL * count,
            decreases fc - n,
        {
            proof {
                lemma_row_step(*t, r0, c0, ch as int, m as int, n as nat);
                assert(m * fc + n + 1 <= fr * fc) by (nonlinear_arith)
                    requires
                        m < fr,
                        n < fc,
                ;
            }
            let cand_r: u128 = base_r + m as u128;
            let cand_c: u128 = base_c + n as u128;
            if cand_r >= shift_r && cand_r - shift_r < t.rows as u128 && cand_c >= shift_c
                && cand_c - shift_c < t.cols as u128 {
                let x = t.channel((cand_r - shift_r) as usize, (cand_c - shift_c) as usize, ch);
                proof {
                    T::lemma_bounds();
                    T::lemma_code_range(x);
                    let (c, s) = (count as int, sum as int);
                    assert(-32768 * (c + 1) <= s + x.code() <= 65535 * (c + 1)) by (nonlinear_arith)
                        requires
                            -32768 * c <= s <= 65535 * c,
                            -32768 <= x.code() <= 65535,
                    ;
                    assert(65535 * (c + 1) <= 0x1_0000_0000_0000) by (nonlinear_arith)
                        requires
                            c + 1 <= 1048576,
                    ;
                }
                sum = sum + x.widen();
                count = count + 1;
            }
            n += 1;
        }
        proof {
            assert(m * fc + fc == (m + 1) * fc) by (nonlinear_arith);
        }
        m += 1;
    }
    proof {
        assert(count <= fr * fc);
    }
    (sum, count)
}


/// The code of output `(i, j, ch)`: reduces its window, requantizes the
/// average (the output zero point for an empty window), saturates it into
/// `T` and applies the fused activation.
pub fn pool_cell<T: Quantized>(
    input: &Tensor4D<T>,
    filter_shape: (usize, usize),
    output_scale: Ratio,
    output_zero_point: T,
    options: AveragePool2DOptions,
    constants: (Ratio, Ratio),
    i: usize,
    j: usize,
    ch: usize,
) -> (r: T)
    requires
        input.wf(),
        filter_shape.0 * filter_shape.1 <= MAX_FILTER_AREA,
        constants.0.wf(),
        constants.1.wf(),
        options.fused_activation == FusedActivation::RELU6 ==> scale_usable(output_scale),
    ensures
        r.code() == pooled_code(*input, filter_shape, output_scale, output_zero_point.code(),
            options, constants, i as int, j as int, ch as int),
{
    let (fr, fc) = filter_shape;
    let (sr, sc) = options.strides;
    proof {
        let (a, b, f) = (sr as int, i as int, fr as int);
        assert(a * b + f <= u128::MAX) by (nonlinear_arith)
            requires
                0 <= a <= 0xffff_ffff_ffff_ffff,
                0 <= b <= 0xffff_ffff_ffff_ffff,
                0 <= f <= 0xffff_ffff_ffff_ffff,
        ;
        let (a, b, f) = (sc as int, j as int, fc as int);
        assert(a * b + f <= u128::MAX) by (nonlinear_arith)
            requires
                0 <= a <= 0xffff_ffff_ffff_ffff,
                0 <= b <= 0xffff_ffff_ffff_ffff,
                0 <= f <= 0xffff_ffff_ffff_ffff,
        ;
    }
    let (shift_r, shift_c): (u128, u128) = match options.padding {
        AveragePool2DPadding::SAME => (
            if fr > 0 { ((fr - 1) / 2) as u128 } else { 0 },
            if fc > 0 { ((fc - 1) / 2) as u128 } else { 0 },
        ),
        AveragePool2DPadding::VALID => (0, 0),
    };
    let (sum, count) = window_reduce(
        input,
        sr as u128 * i as u128,
        sc as u128 * j as u128,
        shift_r,
        shift_c,
        filter_shape,
        ch,
    );
    if count == 0 {
        output_zero_point
    } else {
        let y = T::saturate(requantize(sum, count, constants.0, constants.1));
        activate(options.fused_activation, y, output_scale, output_zero_point)
    }
}

/// Validates a configuration before any window is read: the first problem
/// that `config_error` names, or `None`.
pub fn check_config(
    input_rows: usize,
    input_cols: usize,
    filter_shape: (usize, usize),
    output_shape: (usize, usize),
    output_scale: Ratio,
    options: AveragePool2DOptions,
    constants: (Ratio, Ratio),
) -> (r: Option<PoolError>)
    ensures
        r == config_error(input_rows as int, input_cols as int, filter_shape, output_shape,
            output_scale, options, constants),
{
    proof {
        assert forall|a: int, b: int|
            0 <= a <= 0xffff_ffff_ffff_ffff && 0 <= b <= 0xffff_ffff_ffff_ffff implies #[trigger] (a
                * b) <= 0xffff_ffff_ffff_fffe_0000_0000_0000_0001 by {
            assert(a * b <= 0xffff_ffff_ffff_fffe_0000_0000_0000_0001) by (nonlinear_arith)
                requires
                    0 <= a <= 0xffff_ffff_ffff_ffff,
                    0 <= b <= 0xffff_ffff_ffff_ffff,
            ;
        }
    }
    let (fr, fc) = filter_shape;
    let (or, oc) = output_shape;
    let (sr, sc) = options.strides;
    if !(constants.0.den > 0 && constants.1.den > 0) {
        Some(PoolError::InvalidConstants)
    } else if options.fused_activation == FusedActivation::RELU6 && !(output_scale.den > 0
        && output_scale.num != 0) {
        Some(PoolError::InvalidScale)
    } else if fr as u128 * fc as u128 > MAX_FILTER_AREA as u128 {
        Some(PoolError::FilterTooLarge)
    } else if or as u128 * oc as u128 > usize::MAX as u128 {
        Some(PoolError::ShapeMismatch)
    } else if options.padding == AveragePool2DPadding::VALID && ((or > 0 && sr as u128 * (or
        - 1) as u128 + fr as u128 > input_rows as u128) || (oc > 0 && sc as u128 * (oc
        - 1) as u128 + fc as u128 > input_cols as u128)) {
        Some(PoolError::ShapeMismatch)
    } else {
        None
    }
}

/// Average-pools `input` into an `output_shape.0` by `output_shape.1` tensor
/// with the input's channel count, the given output scale and zero point.
/// Each output code is `pooled_code` of its coordinate; a configuration that
/// `config_error` refuses gives that error.
pub fn average_pool_2d<T: Quantized>(
    input: &Tensor4D<T>,
    filter_shape: (usize, usize),
    output_shape: (usize, usize),
    output_scale: Ratio,
    output_zero_point: T,
    options: AveragePool2DOptions,
    constants: (Ratio, Ratio),
) -> (r: Result<Tensor4D<T>, PoolError>)
    requires
        input.wf(),
    ensures
        match r {
            Ok(out) => {
                &&& config_error(input.rows as int, input.cols as int, filter_shape, output_shape,
                    output_scale, options, constants) is None
                &&& out.rows == output_shape.0
                &&& out.cols == output_shape.1
                &&& out.chans == input.chans
                &&& out.scale == output_scale
                &&& out.zero_point == output_zero_point
                &&& out.pixels@.len() == out.rows * out.cols
                &&& input.chans > 0 ==> out.wf()
                &&& forall|i: int, j: int|
                    #![trigger out.pixel(i, j)]
                    out.in_bounds(i, j) ==> out.pixel(i, j).len() == input.chans
                &&& forall|i: int, j: int, ch: int|
                    out.in_bounds(i, j) && 0 <= ch < input.chans ==> #[trigger] out.code_at(i, j, ch)
                        == pooled_code(*input, filter_shape, output_scale,
                        output_zero_point.code(), options, constants, i, j, ch)
            },
            Err(e) => config_error(input.rows as int, input.cols as int, filter_shape,
                output_shape, output_scale, options, constants) == Some(e),
        },
{
    if let Some(e) = check_config(
        input.rows,
        input.cols,
        filter_shape,
        output_shape,
        output_scale,
        options,
        constants,
    ) {
        return Err(e);
    }
    let (or, oc) = output_shape;
    let total: usize = or * oc;
    let chans = input.chans;
    let mut pixels: Vec<Vec<T>> = Vec::new();
    let mut p: usize = 0;
    let mut i: usize = 0;
    let mut j: usize = 0;
    proof {
        assert(oc == 0 ==> total == 0) by (nonlinear_arith)
            requires
                total == or * oc,
        ;
    }
    while p < total
        invariant
            input.wf(),
            filter_shape.0 * filter_shape.1 <= MAX_FILTER_AREA,
            constants.0.wf(),
            constants.1.wf(),
            options.fused_activation == FusedActivation::RELU6 ==> scale_usable(output_scale),
            total == or * oc,
            chans == input.chans,
            p <= total,
            p == i * oc + j,
            j < oc || p == total,
            pixels@.len() == p,
            forall|q: int|
                0 <= q < p ==> (#[trigger] pixels@[q])@.len() == chans && forall|ch: int|
                    0 <= ch < chans ==> (#[trigger] pixels@[q]@[ch]).code() == pooled_code(
                        *input, filter_shape, output_scale, output_zero_point.code(), options,
                        constants, q / (oc as int), q % (oc as int), ch),
        decreases total - p,
    {
        proof {
            assert(j < oc);
            lemma_fundamental_div_mod_converse(p as int, oc as int, i as int, j as int);
            assert(i < or) by (nonlinear_arith)
                requires
                    p == i * oc + j,
                    p < or * oc,
                    0 <= j < oc,
            ;
        }
        let mut px: Vec<T> = Vec::new();
        let mut ch: usize = 0;
        while ch < chans
            invariant
                input.wf(),
                filter_shape.0 * filter_shape.1 <= MAX_FILTER_AREA,
                constants.0.wf(),
                constants.1.wf(),
                options.fused_activation == FusedActivation::RELU6 ==> scale_usable(output_scale),
                ch <= chans,
                px@.len() == ch,
                i as int == (p as int) / (oc as int),
                j as int == (p as int) % (oc as int),
                forall|c: int|
                    0 <= c < ch ==> (#[trigger] px@[c]).code() == pooled_code(*input,
                        filter_shape, output_scale, output_zero_point.code(), options, constants,
                        i as int, j as int, c),
            decreases chans - ch,
        {
            let x = pool_cell(
                input,
                filter_shape,
                output_scale,
                output_zero_point,
                options,
                constants,
                i,
                j,
                ch,
            );
            px.push(x);
            ch += 1;
        }
        let ghost (prev_p, prev_i, prev_j) = (p as int, i as int, j as int);
        pixels.push(px);
        p += 1;
        if j + 1 == oc {
            i += 1;
            j = 0;
        } else {
            j += 1;
        }
        proof {
            assert(p == i * oc + j) by (nonlinear_arith)
                requires
                    p == prev_p + 1,
                    prev_p == prev_i * oc + prev_j,
                    (prev_j + 1 == oc && i == prev_i + 1 && j == 0) || (prev_j + 1 != oc && i == prev_i && j == prev_j + 1);
        }
    }
    let out = Tensor4D {
        rows: or,
        cols: oc,
        chans,
        pixels,
        scale: output_scale,
        zero_point: output_zero_point,
    };
    proof {
        assert forall|a: int, b: int| out.in_bounds(a, b) implies #[trigger] out.pixel(a, b).len()
            == chans by {
            lemma_flat_index(a, b, or as int, oc as int);
        }
        assert forall|a: int, b: int, ch: int|
            out.in_bounds(a, b) && 0 <= ch < chans implies #[trigger] out.code_at(a, b, ch)
                == pooled_code(*input, filter_shape, output_scale, output_zero_point.code(),
                options, constants, a, b, ch) by {
            lemma_flat_index(a, b, or as int, oc as int);
            lemma_fundamental_div_mod_converse(a * oc + b, oc as int, a, b);
            assert(out.pixels@[a * oc + b]@.len() == chans);
        }
    }
    Ok(out)
}

} // verus!
