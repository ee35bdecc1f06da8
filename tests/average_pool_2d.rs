use quant_pool::activation::{relu, relu6, FusedActivation};
use quant_pool::average_pool_2d::{
    average_pool_2d, check_config, pool_cell, window_reduce, AveragePool2DOptions,
    AveragePool2DPadding, PoolError,
};
use quant_pool::quantize::{requantize, round_div, Quantized, Ratio};
use quant_pool::tensor::Tensor4D;

fn grid<T: Quantized>(rows: usize, cols: usize, chans: usize, codes: Vec<Vec<T>>, zero_point: T) -> Tensor4D<T> {
    Tensor4D::new(rows, cols, chans, codes, Ratio::new(1, 10), zero_point).unwrap()
}

fn options(act: FusedActivation, padding: AveragePool2DPadding, strides: (usize, usize)) -> AveragePool2DOptions {
    AveragePool2DOptions { fused_activation: act, padding, strides }
}

fn codes<T: Quantized>(t: &Tensor4D<T>, ch: usize) -> Vec<T> {
    let mut v = Vec::new();
    for r in 0..t.rows {
        for c in 0..t.cols {
            v.push(t.channel(r, c, ch));
        }
    }
    v
}

#[test]
fn average_pool_2d_layer() {
    let input = Tensor4D::new(
        2,
        3,
        2,
        vec![vec![1i8, 2], vec![3, 4], vec![5, 6], vec![7, 8], vec![9, 10], vec![11, 12]],
        Ratio::new(13, 100),
        14,
    )
    .unwrap();
    let opts = options(FusedActivation::NONE, AveragePool2DPadding::SAME, (1, 1));
    let constants = (Ratio::new(8666667, 10000000), Ratio::new(38666666, 10000000));
    let out = average_pool_2d(&input, (2, 3), (2, 3), Ratio::new(15, 100), 16i8, opts, constants).unwrap();
    let expected = Tensor4D::new(
        2,
        3,
        2,
        vec![vec![8i8, 9], vec![9, 10], vec![10, 11], vec![11, 12], vec![12, 13], vec![13, 13]],
        Ratio::new(15, 100),
        16,
    )
    .unwrap();
    assert_eq!(out, expected);
}

#[test]
fn unit_filter_valid_requantizes_each_code() {
    let input = grid(2, 2, 1, vec![vec![5i8], vec![-5], vec![-7], vec![0]], 0);
    let opts = options(FusedActivation::NONE, AveragePool2DPadding::VALID, (1, 1));
    let constants = (Ratio::new(1, 2), Ratio::new(3, 1));
    let out = average_pool_2d(&input, (1, 1), (2, 2), Ratio::new(1, 10), 0i8, opts, constants).unwrap();
    // 5/2+3 = 5.5, -5/2+3 = 0.5, -7/2+3 = -0.5, 0+3 = 3: halves go away from zero.
    assert_eq!(codes(&out, 0), vec![6, 1, -1, 3]);
}

#[test]
fn same_padding_divides_by_positions_in_bounds() {
    let input = grid(3, 3, 1, vec![vec![8u8]; 9], 0);
    let opts = options(FusedActivation::NONE, AveragePool2DPadding::SAME, (1, 1));
    let constants = (Ratio::new(1, 1), Ratio::new(0, 1));
    let out = average_pool_2d(&input, (3, 3), (3, 3), Ratio::new(1, 10), 0u8, opts, constants).unwrap();
    // Zero padding with the nominal divisor would give 8 * 4 / 9 at a corner.
    assert_eq!(codes(&out, 0), vec![8u8; 9]);
}

#[test]
fn same_padding_corner_and_interior_counts() {
    let input = grid(3, 3, 1, (1..=9).map(|v| vec![v as i16]).collect(), 0);
    let base = 0u128;
    // Corner (0, 0) of a 3 by 3 filter: rows and columns -1..=1, four inside.
    let (sum, count) = window_reduce(&input, base, base, 1, 1, (3, 3), 0);
    assert_eq!((sum, count), (1 + 2 + 4 + 5, 4));
    // Interior (1, 1): the whole filter area.
    let (sum, count) = window_reduce(&input, 1, 1, 1, 1, (3, 3), 0);
    assert_eq!((sum, count), (45, 9));
    // Edge (0, 1): six inside.
    let (sum, count) = window_reduce(&input, 0, 1, 1, 1, (3, 3), 0);
    assert_eq!((sum, count), (1 + 2 + 3 + 4 + 5 + 6, 6));
}

#[test]
fn saturation_clamps_both_ends() {
    let input = grid(1, 2, 1, vec![vec![100i8], vec![-100]], 0);
    let opts = options(FusedActivation::NONE, AveragePool2DPadding::VALID, (1, 1));
    let constants = (Ratio::new(100, 1), Ratio::new(0, 1));
    let out = average_pool_2d(&input, (1, 1), (1, 2), Ratio::new(1, 10), 0i8, opts, constants).unwrap();
    assert_eq!(codes(&out, 0), vec![127, -128]);
    let input = grid(1, 2, 1, vec![vec![200u8], vec![1]], 0);
    let constants = (Ratio::new(2, 1), Ratio::new(-10, 1));
    let out = average_pool_2d(&input, (1, 1), (1, 2), Ratio::new(1, 10), 0u8, opts, constants).unwrap();
    assert_eq!(codes(&out, 0), vec![255, 0]);
}

#[test]
fn relu_keeps_codes_at_or_above_zero_point() {
    let input = grid(1, 3, 1, vec![vec![-20i8], vec![4], vec![30]], 0);
    let opts = options(FusedActivation::RELU, AveragePool2DPadding::VALID, (1, 1));
    let constants = (Ratio::new(1, 1), Ratio::new(0, 1));
    let out = average_pool_2d(&input, (1, 1), (1, 3), Ratio::new(1, 10), 5i8, opts, constants).unwrap();
    assert_eq!(codes(&out, 0), vec![5, 5, 30]);
    assert!(codes(&out, 0).iter().all(|&c| c >= 5));
}

#[test]
fn relu6_keeps_codes_in_band() {
    // Scale 1/2: real 6 is code round(6 / 0.5) + 3 = 15.
    let input = grid(1, 4, 1, vec![vec![-9i8], vec![3], vec![10], vec![90]], 3);
    let opts = options(FusedActivation::RELU6, AveragePool2DPadding::VALID, (1, 1));
    let constants = (Ratio::new(1, 1), Ratio::new(0, 1));
    let out = average_pool_2d(&input, (1, 1), (1, 4), Ratio::new(1, 2), 3i8, opts, constants).unwrap();
    assert_eq!(codes(&out, 0), vec![3, 3, 10, 15]);
    assert!(codes(&out, 0).iter().all(|&c| (3..=15).contains(&c)));
}

#[test]
fn relu_and_relu6_on_single_codes() {
    assert_eq!(relu(-3i8, 2), 2);
    assert_eq!(relu(7i8, 2), 7);
    // round(6 / 0.15) = 40, plus 16.
    assert_eq!(relu6(100i8, Ratio::new(15, 100), 16), 56);
    assert_eq!(relu6(20i8, Ratio::new(15, 100), 16), 20);
    assert_eq!(relu6(-1i8, Ratio::new(15, 100), 16), 16);
    // round(6 / 0.4) = round(15) = 15; round(6 / 0.8) = round(7.5) = 8.
    assert_eq!(relu6(100u8, Ratio::new(4, 10), 0), 15);
    assert_eq!(relu6(100u8, Ratio::new(8, 10), 0), 8);
}

#[test]
fn empty_window_gives_zero_point() {
    let input = grid(1, 1, 1, vec![vec![50i8]], 0);
    let opts = options(FusedActivation::NONE, AveragePool2DPadding::SAME, (4, 4));
    let constants = (Ratio::new(1, 1), Ratio::new(0, 1));
    let out = average_pool_2d(&input, (1, 1), (2, 2), Ratio::new(1, 10), -7i8, opts, constants).unwrap();
    assert_eq!(codes(&out, 0), vec![50, -7, -7, -7]);
}

#[test]
fn short_pixel_broadcasts_channel_zero() {
    let input = grid(1, 2, 2, vec![vec![4i8], vec![6, 9]], 0);
    assert_eq!(input.channel(0, 0, 1), 4);
    assert_eq!(input.channel(0, 1, 1), 9);
    let opts = options(FusedActivation::NONE, AveragePool2DPadding::VALID, (1, 1));
    let constants = (Ratio::new(1, 1), Ratio::new(0, 1));
    let out = average_pool_2d(&input, (1, 2), (1, 1), Ratio::new(1, 10), 0i8, opts, constants).unwrap();
    assert_eq!(out.pixels, vec![vec![5i8, 7]]);
}

#[test]
fn valid_windows_with_stride() {
    let input = grid(2, 4, 1, (0..8).map(|v| vec![v as i8]).collect(), 0);
    let opts = options(FusedActivation::NONE, AveragePool2DPadding::VALID, (1, 2));
    let constants = (Ratio::new(1, 1), Ratio::new(0, 1));
    let out = average_pool_2d(&input, (2, 2), (1, 2), Ratio::new(1, 10), 0i8, opts, constants).unwrap();
    // Windows {0,1,4,5} and {2,3,6,7}: averages 2.5 and 4.5.
    assert_eq!(codes(&out, 0), vec![3, 5]);
    assert_eq!(pool_cell(&input, (2, 2), Ratio::new(1, 10), 0i8, opts, constants, 0, 1, 0), 5);
}

#[test]
fn configuration_errors() {
    let input = grid(2, 2, 1, vec![vec![1i8]; 4], 0);
    let ok = (Ratio::new(1, 1), Ratio::new(0, 1));
    let valid = options(FusedActivation::NONE, AveragePool2DPadding::VALID, (1, 1));
    let s = Ratio::new(1, 10);
    assert_eq!(
        average_pool_2d(&input, (1, 1), (2, 2), s, 0i8, valid, (Ratio::new(1, 0), Ratio::new(0, 1))),
        Err(PoolError::InvalidConstants)
    );
    let relu6 = options(FusedActivation::RELU6, AveragePool2DPadding::VALID, (1, 1));
    assert_eq!(average_pool_2d(&input, (1, 1), (2, 2), Ratio::new(0, 1), 0i8, relu6, ok), Err(PoolError::InvalidScale));
    assert_eq!(average_pool_2d(&input, (2000, 1000), (1, 1), s, 0i8, valid, ok), Err(PoolError::FilterTooLarge));
    assert_eq!(average_pool_2d(&input, (2, 2), (2, 1), s, 0i8, valid, ok), Err(PoolError::ShapeMismatch));
    assert_eq!(average_pool_2d(&input, (1, 1), (1, 3), s, 0i8, valid, ok), Err(PoolError::ShapeMismatch));
    assert_eq!(check_config(2, 2, (2, 2), (1, 1), s, valid, ok), None);
    let same = options(FusedActivation::NONE, AveragePool2DPadding::SAME, (1, 1));
    assert_eq!(check_config(2, 2, (2, 2), (5, 5), s, same, ok), None);
}

#[test]
fn tensor_construction_checks_shape() {
    assert!(Tensor4D::new(2, 2, 1, vec![vec![1i8]; 3], Ratio::new(1, 1), 0).is_none());
    assert!(Tensor4D::new(1, 2, 1, vec![vec![1i8], vec![]], Ratio::new(1, 1), 0).is_none());
    let t = Tensor4D::new(1, 2, 1, vec![vec![1i8], vec![2]], Ratio::new(1, 1), 0).unwrap();
    assert_eq!(t.get(0, 1), Some(&vec![2i8]));
    assert_eq!(t.get(1, 0), None);
}

#[test]
fn requantize_exact_values() {
    // 0.8666667 * 5 + 3.8666666 = 8.2000001.
    assert_eq!(requantize(20, 4, Ratio::new(8666667, 10000000), Ratio::new(38666666, 10000000)), 8);
    assert_eq!(requantize(-3, 2, Ratio::new(1, 1), Ratio::new(0, 1)), -2);
    assert_eq!(requantize(3, 2, Ratio::new(1, 1), Ratio::new(0, 1)), 2);
    assert_eq!(round_div(7, 2), 4);
    assert_eq!(round_div(-7, 2), -4);
    assert_eq!(round_div(5, 3), 2);
    assert_eq!(i16::saturate(40000), 32767);
    assert_eq!(u8::saturate(-1), 0);
    assert_eq!(i8::saturate(-12), -12);
}
