//! The radian unit.

use vstd::prelude::*;

use crate::scalar::lemma_consts_positive;
use crate::scalar::Scalar;

verus! {

/// An angle in radians, always a value within the range `[0, 2*pi)`.
///
/// Construction reduces any scalar angle into that range by the Euclidean
/// modulo of the full turn.
#[derive(Debug, Clone, Copy, PartialEq)]
pub struct Radian<T>(pub T);

impl<T: Scalar> Radian<T> {
    /// The angle this wrapper holds.
    pub open spec fn value(self) -> T {
        self.0
    }

    /// Whether a scalar angle lies within `[0, 2*pi)`.
    pub open spec fn in_range(value: T) -> bool {
        !value.spec_lt(T::spec_zero()) && value.spec_lt(T::spec_tau())
    }

    /// The angle that construction from the given scalar yields: the scalar
    /// itself when it is within `[0, 2*pi)`, and otherwise its remainder of
    /// the full turn, lifted by one turn when the scalar is negative.
    pub open spec fn spec_from(value: T) -> T {
        if Self::in_range(value) {
            value
        } else if value.spec_lt(T::spec_zero()) {
            value.spec_rem(T::spec_tau()).spec_add(T::spec_tau()).spec_rem(T::spec_tau())
        } else {
            value.spec_rem(T::spec_tau())
        }
    }

    /// The wrapped angle always lies within `[0, 2*pi)`.
    pub open spec fn wf(self) -> bool {
        Self::in_range(self.value())
    }

    /// Reduces the given scalar angle into the range `[0, 2*pi)`.
    pub fn from(value: T) -> (r: Self)
        ensures
            r.value() == Self::spec_from(value),
            r.wf(),
    {
        proof {
            lemma_consts_positive::<T>();
            T::laws_order();
        }
        if T::zero().le(value) && value.lt(T::tau()) {
            return Radian(value);
        }
        let mut modulus = value.rem(T::tau());
        if value.is_sign_negative() {
            modulus = modulus.add(T::tau()).rem(T::tau());
            proof {
                lemma_lifted_rem_in_range(value, modulus);
            }
        } else {
            proof {
                T::laws_rem();
            }
        }
        Radian(modulus)
    }

    /// Returns the angle scaled by the given factor, reduced back into range.
    pub fn mul(self, rhs: T) -> (r: Self)
        ensures
            r.value() == Self::spec_from(self.value().spec_mul(rhs)),
            r.wf(),
    {
        Self::from(self.into_inner().mul(rhs))
    }

    /// Returns the inner value.
    pub fn into_inner(self) -> (r: T)
        ensures
            r == self.value(),
    {
        self.0
    }
}

/// An angle less than one turn below the range lifts by exactly one turn:
/// a negative angle continues backwards from the top of the range.
pub proof fn lemma_radian_lifts_negative<T: Scalar>(value: T)
    requires
        T::spec_tau().spec_neg().spec_lt(value),
        value.spec_lt(T::spec_zero()),
    ensures
        Radian::<T>::spec_from(value) == value.spec_add(T::spec_tau()),
{
    T::laws_rem();
    T::laws_order();
    T::laws_ring();
    lemma_consts_positive::<T>();
    let z = T::spec_zero();
    let tau = T::spec_tau();
    // the first remainder keeps the in-range negative value
    assert(!z.spec_lt(value));
    assert(value.spec_rem(tau) == value);
    // and lifting it by one turn lands inside the range
    assert(tau.spec_neg().spec_add(tau).spec_lt(value.spec_add(tau)));
    assert(tau.spec_neg().spec_add(tau) == tau.spec_add(tau.spec_neg()));
    assert(z.spec_lt(value.spec_add(tau)));
    assert(value.spec_add(tau).spec_lt(z.spec_add(tau)));
    assert(z.spec_add(tau) == tau.spec_add(z));
    assert(value.spec_add(tau).spec_rem(tau) == value.spec_add(tau));
}

/// An angle less than one turn above the range drops by exactly one turn.
pub proof fn lemma_radian_drops_extra_turn<T: Scalar>(value: T)
    requires
        !value.spec_lt(T::spec_tau()),
        value.spec_lt(T::spec_tau().spec_add(T::spec_tau())),
    ensures
        Radian::<T>::spec_from(value) == value.spec_sub(T::spec_tau()),
{
    T::laws_rem();
    T::laws_order();
    T::laws_ring();
    lemma_consts_positive::<T>();
    let z = T::spec_zero();
    let tau = T::spec_tau();
    if value.spec_lt(z) {
        assert(value.spec_lt(tau));
        assert(false);
    }
    let reduced = value.spec_sub(tau);
    assert(reduced == value.spec_add(tau.spec_neg()));
    T::law_add_assoc(value, tau.spec_neg(), tau);
    assert(tau.spec_neg().spec_add(tau) == tau.spec_add(tau.spec_neg()));
    assert(value.spec_add(z) == value);
    assert(reduced.spec_add(tau) == value);
    // one turn down lands inside the range
    assert(!reduced.spec_lt(z)) by {
        if reduced.spec_lt(z) {
            assert(reduced.spec_add(tau).spec_lt(z.spec_add(tau)));
            assert(z.spec_add(tau) == tau.spec_add(z));
            assert(value.spec_lt(tau));
        }
    }
    assert(reduced.spec_lt(tau)) by {
        assert(value.spec_add(tau.spec_neg()).spec_lt(
            tau.spec_add(tau).spec_add(tau.spec_neg()),
        ));
        T::law_add_assoc(tau, tau, tau.spec_neg());
        assert(tau.spec_add(tau.spec_neg()) == z);
        assert(tau.spec_add(z) == tau);
    }
    // so one period of the remainder brings the angle down to it
    assert(value.spec_rem(tau) == reduced.spec_rem(tau));
    assert(reduced.spec_rem(tau) == reduced);
}

/// Shifting any angle by one full turn does not change the radian it
/// reduces to.
pub proof fn lemma_radian_periodic<T: Scalar>(value: T)
    ensures
        Radian::<T>::spec_from(value.spec_add(T::spec_tau())) == Radian::<T>::spec_from(value),
{
    T::laws_rem();
    T::laws_order();
    T::laws_ring();
    lemma_consts_positive::<T>();
    let z = T::spec_zero();
    let tau = T::spec_tau();
    let shifted = value.spec_add(tau);
    if Radian::<T>::in_range(value) {
        // the shift lands one turn above the range and drops back
        if value == z {
            assert(shifted == z.spec_add(tau));
            assert(z.spec_add(tau) == tau.spec_add(z));
        } else {
            assert(z.spec_lt(value));
            assert(z.spec_add(tau).spec_lt(value.spec_add(tau)));
            assert(z.spec_add(tau) == tau.spec_add(z));
        }
        assert(!shifted.spec_lt(tau));
        assert(value.spec_add(tau).spec_lt(tau.spec_add(tau)));
        lemma_radian_drops_extra_turn::<T>(shifted);
        T::law_add_assoc(value, tau, tau.spec_neg());
        assert(shifted.spec_sub(tau) == shifted.spec_add(tau.spec_neg()));
        assert(tau.spec_add(tau.spec_neg()) == z);
        assert(value.spec_add(z) == value);
    } else if value.spec_lt(z) {
        if tau.spec_neg().spec_lt(value) {
            // less than one turn below: the shift lands inside the range
            lemma_radian_lifts_negative::<T>(value);
            assert(tau.spec_neg().spec_add(tau).spec_lt(value.spec_add(tau)));
            assert(tau.spec_neg().spec_add(tau) == tau.spec_add(tau.spec_neg()));
            assert(z.spec_lt(shifted));
            assert(value.spec_add(tau).spec_lt(z.spec_add(tau)));
            assert(z.spec_add(tau) == tau.spec_add(z));
            assert(Radian::<T>::in_range(shifted));
        } else if value == tau.spec_neg() {
            // exactly one turn below: both sides reduce to zero
            assert(shifted == tau.spec_neg().spec_add(tau));
            assert(tau.spec_neg().spec_add(tau) == tau.spec_add(tau.spec_neg()));
            assert(shifted == z);
            assert(tau.spec_neg().spec_rem(tau) == tau.spec_rem(tau).spec_neg());
            assert(z.spec_sub(z) == z);
            assert(z.spec_sub(z) == z.spec_neg());
            assert(z.spec_add(tau) == tau.spec_add(z));
            assert(tau.spec_rem(tau) == z);
            assert(Radian::<T>::spec_from(value) == z);
            assert(!z.spec_lt(z) && z.spec_lt(tau));
            assert(Radian::<T>::spec_from(shifted) == z);
        } else {
            // more than one turn below: both sides stay negative, and the
            // remainder repeats one period up, through its odd symmetry
            assert(value.spec_lt(tau.spec_neg()));
            assert(value.spec_add(tau).spec_lt(tau.spec_neg().spec_add(tau)));
            assert(tau.spec_neg().spec_add(tau) == tau.spec_add(tau.spec_neg()));
            assert(shifted.spec_lt(z));
            let negated = value.spec_neg();
            assert(z.spec_neg().spec_lt(negated));
            assert(shifted.spec_neg() == negated.spec_add(tau.spec_neg()));
            let dropped = negated.spec_add(tau.spec_neg());
            assert(!dropped.spec_lt(z)) by {
                assert(z.spec_neg().spec_lt(shifted.spec_neg()));
            }
            T::law_add_assoc(negated, tau.spec_neg(), tau);
            assert(tau.spec_neg().spec_add(tau) == tau.spec_add(tau.spec_neg()));
            assert(negated.spec_add(z) == negated);
            assert(dropped.spec_add(tau) == negated);
            assert(negated.spec_rem(tau) == dropped.spec_rem(tau));
            assert(negated.spec_neg() == value);
            assert(negated.spec_neg().spec_rem(tau) == negated.spec_rem(tau).spec_neg());
            assert(dropped.spec_neg() == shifted);
            assert(dropped.spec_neg().spec_rem(tau) == dropped.spec_rem(tau).spec_neg());
            assert(value.spec_rem(tau) == shifted.spec_rem(tau));
        }
    } else {
        // at or above one full turn: the remainder repeats one period up
        assert(!value.spec_lt(z));
        assert(z.spec_add(value).spec_lt(tau.spec_add(value)));
        assert(z.spec_add(value) == value.spec_add(z));
        assert(tau.spec_add(value) == value.spec_add(tau));
        assert(value.spec_lt(shifted));
        assert(!shifted.spec_lt(tau));
        assert(!shifted.spec_lt(z));
        assert(value.spec_add(tau).spec_rem(tau) == value.spec_rem(tau));
    }
}

/// Lifting the remainder of a negative angle by one turn and reducing it
/// again lands within `[0, 2*pi)`.
proof fn lemma_lifted_rem_in_range<T: Scalar>(value: T, lifted: T)
    requires
        value.spec_lt(T::spec_zero()),
        lifted == value.spec_rem(T::spec_tau()).spec_add(T::spec_tau()).spec_rem(T::spec_tau()),
    ensures
        !lifted.spec_lt(T::spec_zero()),
        lifted.spec_lt(T::spec_tau()),
{
    T::laws_rem();
    T::laws_order();
    T::laws_ring();
    lemma_consts_positive::<T>();
    let z = T::spec_zero();
    let tau = T::spec_tau();
    let m = value.spec_rem(tau);
    // the first remainder lies in (-tau, 0], so the lifted value lies in (0, tau]
    assert(tau.spec_neg().spec_lt(m) && !z.spec_lt(m));
    assert(tau.spec_neg().spec_add(tau).spec_lt(m.spec_add(tau)));
    assert(tau.spec_neg().spec_add(tau) == tau.spec_add(tau.spec_neg()));
    assert(z.spec_lt(m.spec_add(tau)));
    if z.spec_lt(m) {
    } else {
        if m == z {
            assert(m.spec_add(tau) == tau.spec_add(z));
            assert(m.spec_add(tau) == tau);
        } else {
            assert(m.spec_add(tau).spec_lt(z.spec_add(tau)));
            assert(z.spec_add(tau) == tau.spec_add(z));
        }
    }
    // so the second remainder keeps values below tau and reduces tau to zero
    if m.spec_add(tau).spec_lt(tau) {
        assert(m.spec_add(tau).spec_rem(tau) == m.spec_add(tau));
    } else {
        assert(m.spec_add(tau) == tau);
        assert(tau.spec_rem(tau) == z);
    }
}

} // verus!
