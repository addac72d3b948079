//! A scalar wrapper that never holds a negative value.

use vstd::prelude::*;

use crate::scalar::lemma_consts_positive;
use crate::scalar::Scalar;

verus! {

/// A value that is always positive.
///
/// Construction takes the absolute value of its argument, so the wrapped
/// scalar is never negative.
#[derive(Debug, Clone, Copy, PartialEq)]
pub struct Positive<T>(pub T);

impl<T: Scalar> Positive<T> {
    /// The scalar this wrapper holds.
    pub open spec fn value(self) -> T {
        self.0
    }

    /// The wrapped scalar is never negative.
    pub open spec fn wf(self) -> bool {
        !self.value().spec_lt(T::spec_zero())
    }

    /// Wraps the absolute value of the given scalar.
    pub fn from(value: T) -> (r: Self)
        ensures
            r.value() == value.spec_abs(),
            r.wf(),
    {
        proof {
            lemma_abs_nonneg(value);
        }
        Positive(value.abs())
    }

    /// Returns the sum of both wrapped values, which stays positive.
    pub fn add(self, rhs: Self) -> (r: Self)
        ensures
            r.value() == self.value().spec_add(rhs.value()).spec_abs(),
            r.wf(),
    {
        Self::from(self.0.add(rhs.0))
    }

    /// Returns the positive zero.
    pub fn zero() -> (r: Self)
        ensures
            r.value() == T::spec_zero(),
            r.wf(),
    {
        proof {
            T::laws_order();
        }
        Positive(T::zero())
    }

    /// Whether the wrapped value is zero.
    pub fn is_zero(&self) -> (r: bool)
        ensures
            r == (self.value() == T::spec_zero()),
    {
        self.0.equals(T::zero())
    }

    /// Returns the inner value.
    pub fn into_inner(self) -> (r: T)
        ensures
            r == self.value(),
    {
        self.0
    }
}

/// The absolute value of any scalar is non-negative.
pub proof fn lemma_abs_nonneg<T: Scalar>(a: T)
    ensures
        !a.spec_abs().spec_lt(T::spec_zero()),
{
    T::laws_sign();
    T::laws_order();
    T::laws_ring();
    lemma_consts_positive::<T>();
    let z = T::spec_zero();
    if a.spec_lt(z) {
        assert(z.spec_neg().spec_lt(a.spec_neg()));
    }
}

} // verus!
