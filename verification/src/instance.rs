//! Parameter records, one per filter variant.
//!
//! Each record holds the scalar fields that a kernel reads beside its buffers.
//! The delay line and the coefficients travel next to the record as slices.
use vstd::prelude::*;

verus! {

/// Parameters of a plain FIR kernel call.
#[derive(Clone, Copy, Debug, PartialEq, Eq)]
pub struct FirInstance {
    /// Number of coefficients.
    pub num_taps: u16,
}

/// Parameters of a decimating FIR kernel call.
#[derive(Clone, Copy, Debug, PartialEq, Eq)]
pub struct FirDecimateInstance {
    /// Decimation factor: one output sample for every `m` input samples.
    pub m: u8,
    /// Number of coefficients.
    pub num_taps: u16,
}

/// Parameters of an interpolating FIR kernel call.
#[derive(Clone, Copy, Debug, PartialEq, Eq)]
pub struct FirInterpolateInstance {
    /// Interpolation factor: `l` output samples for every input sample.
    pub l: u8,
    /// Number of coefficients in each of the `l` polyphase branches.
    pub phase_length: u16,
}

} // verus!
