//! What a sample representation is: the meaning of one output sample.
use vstd::prelude::*;

verus! {

/// A sample representation, such as a fixed-point format.
pub trait Sample: Copy + Sized {
    /// Whether `tap_sum` describes what the executable functions of this
    /// sample type compute.
    ///
    /// A sample type whose arithmetic is not verified leaves this and
    /// `tap_sum` as they are. The contracts of this crate then promise of its
    /// filters only what holds whatever the arithmetic does.
    open spec fn specified() -> bool {
        false
    }

    /// One output sample: the coefficients applied to a window of as many
    /// input samples, oldest sample first.
    open spec fn tap_sum(coeffs: Seq<Self>, window: Seq<Self>) -> Self {
        arbitrary()
    }
}

/// Whether `x` is a value that `T::default()` may return.
pub open spec fn is_default<T: Default>(x: T) -> bool {
    call_ensures(T::default, (), x)
}

} // verus!
