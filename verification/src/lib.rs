//! Building blocks for training a binary classifier with one hidden layer.
//!
//! The library owns everything about a training run that is exact: the layout
//! and shapes of the learnable arrays, the validation of a run's inputs, the
//! walk through the iterations, the cost history and the detection of
//! non-finite values. A scalar is carried as the 32 bits of its IEEE 754
//! single-precision encoding, so a caller that does the real-number
//! arithmetic hands values over with `to_bits` and takes them back with
//! `from_bits`.

pub mod encoding;
pub mod error;
pub mod matrix;
pub mod parameters;
pub mod propagation;
pub mod trainer;
