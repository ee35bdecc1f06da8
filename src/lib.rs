//! Quantized spatial average pooling: window reduction under SAME / VALID
//! padding, exact requantization with half-away-from-zero rounding and
//! saturation, and a fused RELU / RELU6 clamp, all on integer codes.

pub mod quantize;
pub mod activation;
pub mod tensor;
pub mod average_pool_2d;
pub mod theorems;
