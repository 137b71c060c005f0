//! Block FIR filters for streaming signal processing: plain, decimating and
//! interpolating.
//!
//! A filter owns its coefficients and a delay line that carries the most recent
//! input samples from one block to the next. The arithmetic of a sample type is
//! supplied by its [`sample::Sample`] implementation; what this crate proves is
//! that every kernel call is made with buffers of the agreed shape and that the
//! sequence of block-wise calls computes the same output as one pass over the
//! whole input.
use vstd::prelude::*;

pub mod config;
pub mod direct;
pub mod filters;
pub mod fixed;
pub mod instance;
pub mod kernel;
pub mod sample;
pub mod stream;

verus! {

/// Conversion of a filter into the parameter record that a CMSIS-DSP style
/// kernel takes as its first argument.
pub trait CMSISType<T> {
    /// Whether the record can be derived from the filter's dimensions.
    spec fn convertible(&self) -> bool;

    fn as_cmsis_type(&mut self) -> T
        requires
            old(self).convertible(),
    ;
}

} // verus!
