//! Unbiased sampling of 64-bit integers from a closed interval, using
//! Lemire's multiply-and-reject method: one wide multiplication per draw,
//! and a division only when a draw may land in the biased region.

pub mod model;
pub mod sampler;
pub mod laws;
pub mod source;

pub use sampler::{gen_range, rejection_threshold, sample_from_draws, wide_product};
pub use source::{DrawSource, Recorded};
