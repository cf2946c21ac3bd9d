//! IEEE 754 binary32 and binary64 values, carried as their bit patterns.
//!
//! A cell of a floating-point encoding is stored as the integer that holds
//! its bits. Sign, exponent and fraction are read off that integer by
//! division, so that ordering, negation and the encoding of integers are
//! plain arithmetic.

pub mod bits;
pub mod convert;
pub mod encode;
pub mod laws;

pub use bits::{
    int_ordering,
    lemma_order_key_injective,
    lemma_order_key_injective_32,
    Binary32,
    Binary64,
};
pub use laws::{lemma_small_int_narrows, lemma_small_int_widens};
