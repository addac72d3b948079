//! A scalar wrapper that never holds a negative value, kept as a bare field.

use vstd::prelude::*;

use crate::positive::lemma_abs_nonneg;
use crate::scalar::Scalar;

verus! {

/// A scalar that is always positive.
///
/// Like [`crate::positive::Positive`], construction takes the absolute value
/// of its argument.
#[derive(Debug, Clone, Copy, PartialEq)]
pub struct PositiveFloat<T>(pub T);

impl<T: Scalar> PositiveFloat<T> {
    /// The scalar this wrapper holds.
    pub open spec fn value(self) -> T {
        self.0
    }

    /// The wrapped scalar is never negative.
    pub open spec fn wf(self) -> bool {
        !self.value().spec_lt(T::spec_zero())
    }

    /// Wraps the absolute value of the given scalar.
    pub fn from(value: T) -> (r: Self)
        ensures
            r.value() == value.spec_abs(),
            r.wf(),
    {
        proof {
            lemma_abs_nonneg(value);
        }
        PositiveFloat(value.abs())
    }

    /// Returns the inner value.
    pub fn into_inner(self) -> (r: T)
        ensures
            r == self.value(),
    {
        self.0
    }
}

} // verus!
