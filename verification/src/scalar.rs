//! The scalar abstraction that every coordinate type is generic over.

use vstd::prelude::*;

verus! {

/// The capability interface a scalar type must offer so that the coordinate
/// types of this crate can be built over it: field arithmetic, ordering,
/// remainders, the elementary trigonometric functions, square roots and the
/// circle constants.
///
/// The specification side of the trait (the `spec` functions, the `ensures`
/// clauses of the executable methods and the `laws_*` proof obligations)
/// describes an exact real number: every result is pinned to its
/// mathematical value and the laws are the usual identities of real
/// arithmetic and trigonometry. Everything proved in this crate holds of any
/// implementation that honours this interface. A floating-point
/// implementation honours it only up to rounding: each law then holds within
/// the precision of the format, and every theorem of this crate degrades
/// accordingly, which is the usual contract of floating-point geometry.
pub trait Scalar: Sized + Copy {
    /// Mathematical value of `self + rhs`.
    spec fn spec_add(self, rhs: Self) -> Self;

    /// Mathematical value of `self - rhs`.
    spec fn spec_sub(self, rhs: Self) -> Self;

    /// Mathematical value of `self * rhs`.
    spec fn spec_mul(self, rhs: Self) -> Self;

    /// Mathematical value of `self / rhs`.
    spec fn spec_div(self, rhs: Self) -> Self;

    /// Mathematical value of `-self`.
    spec fn spec_neg(self) -> Self;

    /// Remainder of `self / rhs`, with the sign of `self`.
    spec fn spec_rem(self, rhs: Self) -> Self;

    /// Least non-negative remainder of `self / rhs`.
    spec fn spec_rem_euclid(self, rhs: Self) -> Self;

    /// Absolute value of `self`.
    spec fn spec_abs(self) -> Self;

    /// Sign of `self`: one for positive values, minus one for negative ones.
    spec fn spec_signum(self) -> Self;

    /// Sine of `self`, an angle in radians.
    spec fn spec_sin(self) -> Self;

    /// Cosine of `self`, an angle in radians.
    spec fn spec_cos(self) -> Self;

    /// Tangent of `self`, an angle in radians.
    spec fn spec_tan(self) -> Self;

    /// Inverse sine, valued in [-pi/2, pi/2].
    spec fn spec_asin(self) -> Self;

    /// Inverse cosine, valued in [0, pi].
    spec fn spec_acos(self) -> Self;

    /// Inverse tangent, valued in (-pi/2, pi/2).
    spec fn spec_atan(self) -> Self;

    /// Non-negative square root of `self`.
    spec fn spec_sqrt(self) -> Self;

    /// Strict order on scalars.
    spec fn spec_lt(self, rhs: Self) -> bool;

    /// The scalar zero.
    spec fn spec_zero() -> Self;

    /// The scalar one.
    spec fn spec_one() -> Self;

    /// The constant pi.
    spec fn spec_pi() -> Self;

    /// The constant pi / 2.
    spec fn spec_frac_pi_2() -> Self;

    /// The constant 2 * pi.
    spec fn spec_tau() -> Self;

    /// The constant square root of two.
    spec fn spec_sqrt_2() -> Self;

    /// The scalar holding the value of `n`.
    spec fn spec_from_usize(n: usize) -> Self;

    fn add(self, rhs: Self) -> (r: Self)
        ensures
            r == self.spec_add(rhs),
    ;

    fn sub(self, rhs: Self) -> (r: Self)
        ensures
            r == self.spec_sub(rhs),
    ;

    fn mul(self, rhs: Self) -> (r: Self)
        ensures
            r == self.spec_mul(rhs),
    ;

    fn div(self, rhs: Self) -> (r: Self)
        ensures
            r == self.spec_div(rhs),
    ;

    fn neg(self) -> (r: Self)
        ensures
            r == self.spec_neg(),
    ;

    fn rem(self, rhs: Self) -> (r: Self)
        ensures
            r == self.spec_rem(rhs),
    ;

    fn rem_euclid(self, rhs: Self) -> (r: Self)
        ensures
            r == self.spec_rem_euclid(rhs),
    ;

    fn abs(self) -> (r: Self)
        ensures
            r == self.spec_abs(),
    ;

    fn signum(self) -> (r: Self)
        ensures
            r == self.spec_signum(),
    ;

    fn sin(self) -> (r: Self)
        ensures
            r == self.spec_sin(),
    ;

    fn cos(self) -> (r: Self)
        ensures
            r == self.spec_cos(),
    ;

    fn tan(self) -> (r: Self)
        ensures
            r == self.spec_tan(),
    ;

    fn asin(self) -> (r: Self)
        ensures
            r == self.spec_asin(),
    ;

    fn acos(self) -> (r: Self)
        ensures
            r == self.spec_acos(),
    ;

    fn atan(self) -> (r: Self)
        ensures
            r == self.spec_atan(),
    ;

    fn sqrt(self) -> (r: Self)
        ensures
            r == self.spec_sqrt(),
    ;

    fn lt(self, rhs: Self) -> (r: bool)
        ensures
            r == self.spec_lt(rhs),
    ;

    fn le(self, rhs: Self) -> (r: bool)
        ensures
            r == (self.spec_lt(rhs) || self == rhs),
    ;

    fn equals(self, rhs: Self) -> (r: bool)
        ensures
            r == (self == rhs),
    ;

    /// Whether `self` is on the negative side of zero.
    fn is_sign_negative(self) -> (r: bool)
        ensures
            r == self.spec_lt(Self::spec_zero()),
    ;

    fn zero() -> (r: Self)
        ensures
            r == Self::spec_zero(),
    ;

    fn one() -> (r: Self)
        ensures
            r == Self::spec_one(),
    ;

    fn pi() -> (r: Self)
        ensures
            r == Self::spec_pi(),
    ;

    fn frac_pi_2() -> (r: Self)
        ensures
            r == Self::spec_frac_pi_2(),
    ;

    fn tau() -> (r: Self)
        ensures
            r == Self::spec_tau(),
    ;

    fn sqrt_2() -> (r: Self)
        ensures
            r == Self::spec_sqrt_2(),
    ;

    fn from_usize(n: usize) -> (r: Self)
        ensures
            r == Self::spec_from_usize(n),
    ;

    /// The scalars form a commutative ring under addition and
    /// multiplication; the associative and distributive laws stand apart,
    /// over named values, so that no chain of rewrites can run away.
    proof fn laws_ring()
        ensures
            forall|a: Self, b: Self| #[trigger] a.spec_add(b) == b.spec_add(a),
            forall|a: Self| #[trigger] a.spec_add(Self::spec_zero()) == a,
            forall|a: Self| #[trigger] a.spec_add(a.spec_neg()) == Self::spec_zero(),
            forall|a: Self, b: Self| #[trigger] a.spec_sub(b) == a.spec_add(b.spec_neg()),
            forall|a: Self| #[trigger] a.spec_neg().spec_neg() == a,
            forall|a: Self, b: Self| #[trigger] a.spec_mul(b) == b.spec_mul(a),
            forall|a: Self| #[trigger] a.spec_mul(Self::spec_one()) == a,
            forall|a: Self| #[trigger] a.spec_mul(Self::spec_zero()) == Self::spec_zero(),
            forall|a: Self, b: Self| #[trigger] a.spec_neg().spec_mul(b) == a.spec_mul(b).spec_neg(),
            forall|a: Self, b: Self|
                #[trigger] a.spec_add(b).spec_neg() == a.spec_neg().spec_add(b.spec_neg()),
            forall|a: Self| #[trigger] a.spec_sub(a) == Self::spec_zero(),
            forall|a: Self| #[trigger] Self::spec_zero().spec_sub(a) == a.spec_neg(),
    ;

    /// Addition is associative.
    proof fn law_add_assoc(a: Self, b: Self, c: Self)
        ensures
            a.spec_add(b).spec_add(c) == a.spec_add(b.spec_add(c)),
    ;

    /// Multiplication is associative.
    proof fn law_mul_assoc(a: Self, b: Self, c: Self)
        ensures
            a.spec_mul(b).spec_mul(c) == a.spec_mul(b.spec_mul(c)),
    ;

    /// Multiplication distributes over addition.
    proof fn law_mul_distrib(a: Self, b: Self, c: Self)
        ensures
            a.spec_mul(b.spec_add(c)) == a.spec_mul(b).spec_add(a.spec_mul(c)),
    ;

    /// Division inverts multiplication away from zero.
    proof fn laws_div()
        ensures
            forall|a: Self, b: Self|
                b != Self::spec_zero() ==> #[trigger] a.spec_mul(b).spec_div(b) == a,
            forall|a: Self| #[trigger] a.spec_div(Self::spec_one()) == a,
            forall|a: Self, b: Self, c: Self, d: Self|
                c != Self::spec_zero() && d != Self::spec_zero() ==> #[trigger] a.spec_div(c).spec_mul(
                    b.spec_div(d),
                ) == a.spec_mul(b).spec_div(c.spec_mul(d)),
            forall|a: Self, b: Self, c: Self|
                c != Self::spec_zero() ==> #[trigger] a.spec_div(c).spec_add(b.spec_div(c)) == a.spec_add(
                    b,
                ).spec_div(c),
            forall|a: Self, b: Self|
                b != Self::spec_zero() ==> #[trigger] a.spec_neg().spec_div(b.spec_neg()) == a.spec_div(
                    b,
                ),
    ;

    /// The strict order is a total order compatible with the arithmetic.
    proof fn laws_order()
        ensures
            forall|a: Self| !(#[trigger] a.spec_lt(a)),
            forall|a: Self, b: Self, c: Self|
                #[trigger] a.spec_lt(b) && #[trigger] b.spec_lt(c) ==> a.spec_lt(c),
            forall|a: Self, b: Self| #[trigger] a.spec_lt(b) || a == b || b.spec_lt(a),
            forall|a: Self, b: Self| a.spec_lt(b) ==> !(#[trigger] b.spec_lt(a)),
            forall|a: Self, b: Self, c: Self|
                a.spec_lt(b) ==> (#[trigger] a.spec_add(c)).spec_lt(#[trigger] b.spec_add(c)),
            forall|a: Self, b: Self|
                Self::spec_zero().spec_lt(a) && Self::spec_zero().spec_lt(b) ==> Self::spec_zero().spec_lt(
                    #[trigger] a.spec_mul(b),
                ),
            forall|a: Self, b: Self, c: Self|
                a.spec_lt(b) && Self::spec_zero().spec_lt(c) ==> (#[trigger] a.spec_mul(c)).spec_lt(
                    #[trigger] b.spec_mul(c),
                ),
            forall|a: Self, b: Self|
                a.spec_lt(b) ==> (#[trigger] b.spec_neg()).spec_lt(#[trigger] a.spec_neg()),
            Self::spec_zero().spec_lt(Self::spec_one()),
    ;

    /// The circle constants relate to one another as expected.
    proof fn laws_consts()
        ensures
            Self::spec_pi() == Self::spec_frac_pi_2().spec_add(Self::spec_frac_pi_2()),
            Self::spec_tau() == Self::spec_pi().spec_add(Self::spec_pi()),
            Self::spec_zero().spec_lt(Self::spec_frac_pi_2()),
            Self::spec_one().spec_lt(Self::spec_frac_pi_2()),
            Self::spec_one().spec_add(Self::spec_one()).spec_add(Self::spec_one()).spec_lt(
                Self::spec_pi(),
            ),
            Self::spec_pi().spec_lt(
                Self::spec_one().spec_add(Self::spec_one()).spec_add(Self::spec_one()).spec_add(
                    Self::spec_one(),
                ),
            ),
            Self::spec_sqrt_2().spec_mul(Self::spec_sqrt_2()) == Self::spec_one().spec_add(
                Self::spec_one(),
            ),
            Self::spec_zero().spec_lt(Self::spec_sqrt_2()),
            Self::spec_from_usize(0) == Self::spec_zero(),
            forall|n: usize|
                0 < n ==> #[trigger] Self::spec_from_usize(n) == Self::spec_from_usize(
                    (n - 1) as usize,
                ).spec_add(Self::spec_one()),
    ;

    /// Absolute value and sign behave as on the real line.
    proof fn laws_sign()
        ensures
            forall|a: Self|
                #[trigger] a.spec_abs() == if a.spec_lt(Self::spec_zero()) {
                    a.spec_neg()
                } else {
                    a
                },
            forall|a: Self|
                Self::spec_zero().spec_lt(a) ==> #[trigger] a.spec_signum() == Self::spec_one(),
            forall|a: Self|
                a.spec_lt(Self::spec_zero()) ==> #[trigger] a.spec_signum()
                    == Self::spec_one().spec_neg(),
    ;

    /// Both remainders reduce into one period of the modulus, keep a value
    /// already inside it, repeat from one period to the next, and the
    /// truncated one follows the sign of its dividend.
    proof fn laws_rem()
        ensures
            forall|a: Self, m: Self|
                Self::spec_zero().spec_lt(m) && !a.spec_lt(Self::spec_zero()) ==> !(
                #[trigger] a.spec_rem(m)).spec_lt(Self::spec_zero()) && a.spec_rem(m).spec_lt(m),
            forall|a: Self, m: Self|
                Self::spec_zero().spec_lt(m) && !a.spec_lt(Self::spec_zero()) && a.spec_lt(m)
                    ==> #[trigger] a.spec_rem(m) == a,
            forall|a: Self, m: Self|
                Self::spec_zero().spec_lt(m) && a.spec_lt(Self::spec_zero()) ==> m.spec_neg().spec_lt(
                    #[trigger] a.spec_rem(m),
                ) && !Self::spec_zero().spec_lt(a.spec_rem(m)),
            forall|m: Self| Self::spec_zero().spec_lt(m) ==> #[trigger] m.spec_rem(m)
                == Self::spec_zero(),
            forall|a: Self, m: Self|
                Self::spec_zero().spec_lt(m) && m.spec_neg().spec_lt(a) && !Self::spec_zero().spec_lt(
                    a,
                ) ==> #[trigger] a.spec_rem(m) == a,
            forall|a: Self, m: Self|
                Self::spec_zero().spec_lt(m) && !a.spec_lt(Self::spec_zero())
                    ==> #[trigger] a.spec_add(m).spec_rem(m) == a.spec_rem(m),
            forall|a: Self, m: Self|
                Self::spec_zero().spec_lt(m) ==> #[trigger] a.spec_neg().spec_rem(m)
                    == a.spec_rem(m).spec_neg(),
            forall|a: Self, m: Self|
                Self::spec_zero().spec_lt(m) ==> #[trigger] a.spec_add(m).spec_rem_euclid(m)
                    == a.spec_rem_euclid(m),
            forall|a: Self, m: Self|
                Self::spec_zero().spec_lt(m) ==> !(#[trigger] a.spec_rem_euclid(m)).spec_lt(
                    Self::spec_zero(),
                ) && a.spec_rem_euclid(m).spec_lt(m),
            forall|a: Self, m: Self|
                Self::spec_zero().spec_lt(m) && !a.spec_lt(Self::spec_zero()) && a.spec_lt(m)
                    ==> #[trigger] a.spec_rem_euclid(m) == a,
            forall|m: Self| Self::spec_zero().spec_lt(m) ==> #[trigger] m.spec_rem_euclid(m)
                == Self::spec_zero(),
    ;

    /// The trigonometric functions satisfy the usual identities of the
    /// real-valued circle functions.
    proof fn laws_trig()
        ensures
            Self::spec_zero().spec_sin() == Self::spec_zero(),
            Self::spec_zero().spec_cos() == Self::spec_one(),
            Self::spec_frac_pi_2().spec_sin() == Self::spec_one(),
            Self::spec_frac_pi_2().spec_cos() == Self::spec_zero(),
            Self::spec_pi().spec_sin() == Self::spec_zero(),
            Self::spec_pi().spec_cos() == Self::spec_one().spec_neg(),
            forall|a: Self| #[trigger] a.spec_neg().spec_sin() == a.spec_sin().spec_neg(),
            forall|a: Self| #[trigger] a.spec_neg().spec_cos() == a.spec_cos(),
            forall|a: Self|
                #[trigger] a.spec_sub(Self::spec_pi()).spec_sin() == a.spec_sin().spec_neg(),
            forall|a: Self|
                #[trigger] a.spec_sub(Self::spec_pi()).spec_cos() == a.spec_cos().spec_neg(),
            forall|a: Self|
                #[trigger] a.spec_sin().spec_mul(a.spec_sin()).spec_add(
                    a.spec_cos().spec_mul(a.spec_cos()),
                ) == Self::spec_one(),
            forall|a: Self|
                !(#[trigger] a.spec_sin()).spec_lt(Self::spec_one().spec_neg()) && !Self::spec_one().spec_lt(
                    a.spec_sin(),
                ),
            forall|a: Self|
                !(#[trigger] a.spec_cos()).spec_lt(Self::spec_one().spec_neg()) && !Self::spec_one().spec_lt(
                    a.spec_cos(),
                ),
            forall|a: Self|
                Self::spec_zero().spec_lt(a) && a.spec_lt(Self::spec_pi()) ==> Self::spec_zero().spec_lt(
                    #[trigger] a.spec_sin(),
                ),
            forall|a: Self|
                Self::spec_frac_pi_2().spec_neg().spec_lt(a) && a.spec_lt(Self::spec_frac_pi_2())
                    ==> Self::spec_zero().spec_lt(#[trigger] a.spec_cos()),
            forall|a: Self|
                Self::spec_frac_pi_2().spec_lt(a) && !Self::spec_pi().spec_lt(a) ==> (
                #[trigger] a.spec_cos()).spec_lt(Self::spec_zero()),
            forall|a: Self, b: Self|
                #[trigger] a.spec_sub(b).spec_cos() == a.spec_cos().spec_mul(b.spec_cos()).spec_add(
                    a.spec_sin().spec_mul(b.spec_sin()),
                ),
            forall|a: Self| #[trigger] a.spec_tan() == a.spec_sin().spec_div(a.spec_cos()),
    ;

    /// The inverse trigonometric functions undo the circle functions on the
    /// branches they are valued in.
    proof fn laws_inverse_trig()
        ensures
            forall|a: Self|
                !a.spec_lt(Self::spec_one().spec_neg()) && !Self::spec_one().spec_lt(a) ==> !(
                #[trigger] a.spec_asin()).spec_lt(Self::spec_frac_pi_2().spec_neg())
                    && !Self::spec_frac_pi_2().spec_lt(a.spec_asin()),
            forall|a: Self|
                !a.spec_lt(Self::spec_frac_pi_2().spec_neg()) && !Self::spec_frac_pi_2().spec_lt(a)
                    ==> #[trigger] a.spec_sin().spec_asin() == a,
            Self::spec_one().spec_acos() == Self::spec_zero(),
            Self::spec_one().spec_neg().spec_acos() == Self::spec_pi(),
            forall|a: Self|
                !a.spec_lt(Self::spec_one().spec_neg()) && !Self::spec_one().spec_lt(a) ==> !(
                #[trigger] a.spec_acos()).spec_lt(Self::spec_zero()) && !Self::spec_pi().spec_lt(
                    a.spec_acos(),
                ),
            forall|a: Self|
                !a.spec_lt(Self::spec_one().spec_neg()) && !Self::spec_one().spec_lt(a)
                    ==> #[trigger] a.spec_acos().spec_sin() == Self::spec_one().spec_sub(
                    a.spec_mul(a),
                ).spec_sqrt(),
            Self::spec_zero().spec_atan() == Self::spec_zero(),
            forall|a: Self|
                Self::spec_frac_pi_2().spec_neg().spec_lt(a) && a.spec_lt(Self::spec_frac_pi_2())
                    ==> (#[trigger] a.spec_sin().spec_div(a.spec_cos())).spec_atan() == a,
    ;

    /// The square root squares back to its argument on non-negative values.
    proof fn laws_sqrt()
        ensures
            forall|a: Self|
                !a.spec_lt(Self::spec_zero()) ==> (#[trigger] a.spec_sqrt()).spec_mul(
                    a.spec_sqrt(),
                ) == a && !a.spec_sqrt().spec_lt(Self::spec_zero()),
            forall|a: Self|
                !a.spec_lt(Self::spec_zero()) ==> #[trigger] a.spec_mul(a).spec_sqrt() == a,
    ;
}

/// The circle constants are positive and stand in their usual order, and
/// negating zero or a positive constant behaves as on the real line.
pub proof fn lemma_consts_positive<T: Scalar>()
    ensures
        T::spec_zero().spec_lt(T::spec_frac_pi_2()),
        T::spec_zero().spec_lt(T::spec_pi()),
        T::spec_zero().spec_lt(T::spec_tau()),
        T::spec_frac_pi_2().spec_lt(T::spec_pi()),
        T::spec_pi().spec_lt(T::spec_tau()),
        T::spec_zero().spec_neg() == T::spec_zero(),
        T::spec_pi().spec_neg().spec_lt(T::spec_zero()),
        T::spec_frac_pi_2().spec_neg().spec_lt(T::spec_zero()),
        T::spec_frac_pi_2().spec_neg().spec_lt(T::spec_frac_pi_2()),
        T::spec_pi().spec_neg().spec_lt(T::spec_pi()),
{
    T::laws_consts();
    T::laws_order();
    T::laws_ring();
    let z = T::spec_zero();
    let h = T::spec_frac_pi_2();
    let p = T::spec_pi();
    assert(z.spec_sub(z) == z);
    assert(z.spec_sub(z) == z.spec_neg());
    assert(z.spec_add(h) == h);
    assert(z.spec_add(h).spec_lt(h.spec_add(h)));
    assert(z.spec_add(p) == p);
    assert(z.spec_add(p).spec_lt(p.spec_add(p)));
    assert(h.spec_neg().spec_lt(z.spec_neg()));
    assert(p.spec_neg().spec_lt(z.spec_neg()));
}

/// The product of two negated scalars is the product of the scalars.
pub proof fn lemma_neg_mul_neg<T: Scalar>(a: T, b: T)
    ensures
        a.spec_neg().spec_mul(b.spec_neg()) == a.spec_mul(b),
{
    T::laws_ring();
    assert(a.spec_neg().spec_mul(b.spec_neg()) == a.spec_mul(b.spec_neg()).spec_neg());
    assert(a.spec_mul(b.spec_neg()) == b.spec_neg().spec_mul(a));
    assert(b.spec_neg().spec_mul(a) == b.spec_mul(a).spec_neg());
    assert(b.spec_mul(a).spec_neg().spec_neg() == b.spec_mul(a));
}

/// The square of any scalar is non-negative.
pub proof fn lemma_square_nonneg<T: Scalar>(a: T)
    ensures
        !a.spec_mul(a).spec_lt(T::spec_zero()),
{
    T::laws_ring();
    T::laws_order();
    let z = T::spec_zero();
    if z.spec_lt(a) {
        assert(z.spec_lt(a.spec_mul(a)));
    } else if a.spec_lt(z) {
        assert(z.spec_sub(z) == z);
        assert(z.spec_sub(z) == z.spec_neg());
        assert(z.spec_neg().spec_lt(a.spec_neg()));
        assert(z.spec_lt(a.spec_neg().spec_mul(a.spec_neg())));
        lemma_neg_mul_neg(a, a);
    } else {
        assert(a == z);
        assert(a.spec_mul(z) == z);
    }
}

/// A non-strict inequality survives scaling by a non-negative factor.
pub proof fn lemma_mul_le<T: Scalar>(a: T, b: T, c: T)
    requires
        !b.spec_lt(a),
        !c.spec_lt(T::spec_zero()),
    ensures
        !b.spec_mul(c).spec_lt(a.spec_mul(c)),
{
    T::laws_ring();
    T::laws_order();
    let z = T::spec_zero();
    if a == b {
    } else {
        assert(a.spec_lt(b));
        if c == z {
            assert(a.spec_mul(z) == z);
            assert(b.spec_mul(z) == z);
        } else {
            assert(z.spec_lt(c));
            assert(a.spec_mul(c).spec_lt(b.spec_mul(c)));
        }
    }
}

/// A non-strict inequality survives a shift by any summand.
pub proof fn lemma_add_le<T: Scalar>(a: T, b: T, c: T)
    requires
        !b.spec_lt(a),
    ensures
        !c.spec_add(b).spec_lt(c.spec_add(a)),
{
    T::laws_ring();
    T::laws_order();
    if a == b {
    } else {
        assert(a.spec_lt(b));
        assert(a.spec_add(c).spec_lt(b.spec_add(c)));
        assert(a.spec_add(c) == c.spec_add(a));
        assert(b.spec_add(c) == c.spec_add(b));
    }
}

/// A non-strict inequality flips under negation.
pub proof fn lemma_neg_le<T: Scalar>(a: T, b: T)
    requires
        !b.spec_lt(a),
    ensures
        !a.spec_neg().spec_lt(b.spec_neg()),
{
    T::laws_ring();
    T::laws_order();
    if a == b {
    } else {
        assert(a.spec_lt(b));
        assert(b.spec_neg().spec_lt(a.spec_neg()));
    }
}

/// The square of a product is the product of the squares.
pub proof fn lemma_mul_square<T: Scalar>(a: T, b: T)
    ensures
        a.spec_mul(b).spec_mul(a.spec_mul(b)) == a.spec_mul(a).spec_mul(b.spec_mul(b)),
{
    T::laws_ring();
    T::law_mul_assoc(a, b, a.spec_mul(b));
    assert(b.spec_mul(a.spec_mul(b)) == a.spec_mul(b).spec_mul(b));
    T::law_mul_assoc(a, b, b);
    T::law_mul_assoc(a, a, b.spec_mul(b));
}

/// The scalar of any positive count is positive.
pub proof fn lemma_from_usize_pos<T: Scalar>(n: usize)
    requires
        1 <= n,
    ensures
        T::spec_zero().spec_lt(T::spec_from_usize(n)),
    decreases n,
{
    T::laws_consts();
    T::laws_order();
    T::laws_ring();
    let z = T::spec_zero();
    let one = T::spec_one();
    if n == 1 {
        assert(T::spec_from_usize(1) == T::spec_from_usize(0).spec_add(one));
        assert(z.spec_add(one) == one.spec_add(z));
    } else {
        lemma_from_usize_pos::<T>((n - 1) as usize);
        let prev = T::spec_from_usize((n - 1) as usize);
        assert(T::spec_from_usize(n) == prev.spec_add(one));
        assert(z.spec_add(one).spec_lt(prev.spec_add(one)));
        assert(z.spec_add(one) == one.spec_add(z));
        assert(z.spec_lt(one));
    }
}

/// Negating a scalar does not change its absolute value.
pub proof fn lemma_abs_neg<T: Scalar>(a: T)
    ensures
        a.spec_neg().spec_abs() == a.spec_abs(),
{
    T::laws_ring();
    T::laws_order();
    T::laws_sign();
    lemma_consts_positive::<T>();
    let z = T::spec_zero();
    if a.spec_lt(z) {
        assert(z.spec_neg().spec_lt(a.spec_neg()));
    } else if z.spec_lt(a) {
        assert(a.spec_neg().spec_lt(z.spec_neg()));
        assert(a.spec_neg().spec_neg() == a);
    } else {
        assert(a == z);
        assert(z.spec_sub(z) == z);
        assert(z.spec_sub(z) == z.spec_neg());
    }
}

/// Multiplying a quotient back by its non-zero divisor recovers the
/// dividend.
pub proof fn lemma_div_mul_cancel<T: Scalar>(a: T, c: T)
    requires
        c != T::spec_zero(),
    ensures
        a.spec_div(c).spec_mul(c) == a,
{
    T::laws_ring();
    T::laws_div();
    assert(c.spec_div(T::spec_one()) == c);
    assert(a.spec_div(c).spec_mul(c.spec_div(T::spec_one())) == a.spec_mul(c).spec_div(
        c.spec_mul(T::spec_one()),
    ));
    assert(a.spec_mul(c).spec_div(c.spec_mul(T::spec_one())) == a.spec_mul(c).spec_div(c));
    assert(a.spec_mul(c).spec_div(c) == a);
}

/// Zero divided by any non-zero scalar is zero.
pub proof fn lemma_zero_div<T: Scalar>(c: T)
    requires
        c != T::spec_zero(),
    ensures
        T::spec_zero().spec_div(c) == T::spec_zero(),
{
    T::laws_ring();
    T::laws_div();
    assert(T::spec_zero().spec_mul(c) == c.spec_mul(T::spec_zero()));
    assert(T::spec_zero().spec_mul(c).spec_div(c) == T::spec_zero());
}

/// Negating a dividend negates the quotient.
pub proof fn lemma_neg_div<T: Scalar>(a: T, c: T)
    requires
        c != T::spec_zero(),
    ensures
        a.spec_neg().spec_div(c) == a.spec_div(c).spec_neg(),
{
    T::laws_ring();
    T::laws_div();
    lemma_div_mul_cancel(a.spec_neg(), c);
    lemma_div_mul_cancel(a, c);
    let q = a.spec_neg().spec_div(c);
    let p = a.spec_div(c).spec_neg();
    assert(p.spec_mul(c) == a.spec_div(c).spec_mul(c).spec_neg());
    assert(q.spec_mul(c).spec_div(c) == q);
    assert(p.spec_mul(c).spec_div(c) == p);
}

/// The quotient of two positive scalars is positive.
pub proof fn lemma_div_pos<T: Scalar>(a: T, c: T)
    requires
        T::spec_zero().spec_lt(a),
        T::spec_zero().spec_lt(c),
    ensures
        T::spec_zero().spec_lt(a.spec_div(c)),
{
    T::laws_ring();
    T::laws_order();
    lemma_div_mul_cancel(a, c);
    let q = a.spec_div(c);
    if q.spec_lt(T::spec_zero()) {
        assert(q.spec_mul(c).spec_lt(T::spec_zero().spec_mul(c)));
        assert(T::spec_zero().spec_mul(c) == c.spec_mul(T::spec_zero()));
        assert(false);
    } else if q == T::spec_zero() {
        assert(q.spec_mul(c) == c.spec_mul(T::spec_zero()));
        assert(false);
    }
}

/// Dividing both sides of a strict inequality by a positive scalar keeps
/// the inequality.
pub proof fn lemma_div_lt<T: Scalar>(a: T, b: T, c: T)
    requires
        a.spec_lt(b),
        T::spec_zero().spec_lt(c),
    ensures
        a.spec_div(c).spec_lt(b.spec_div(c)),
{
    T::laws_order();
    lemma_div_mul_cancel(a, c);
    lemma_div_mul_cancel(b, c);
    let qa = a.spec_div(c);
    let qb = b.spec_div(c);
    if qb.spec_lt(qa) {
        assert(qb.spec_mul(c).spec_lt(qa.spec_mul(c)));
        assert(false);
    } else if qa == qb {
        assert(false);
    }
}

/// The sum of two non-negative scalars is non-negative.
pub proof fn lemma_add_nonneg<T: Scalar>(a: T, b: T)
    ensures
        !a.spec_lt(T::spec_zero()) && !b.spec_lt(T::spec_zero()) ==> !a.spec_add(b).spec_lt(
            T::spec_zero(),
        ),
{
    T::laws_ring();
    T::laws_order();
    let z = T::spec_zero();
    if !a.spec_lt(z) && !b.spec_lt(z) {
        if a.spec_add(b).spec_lt(z) {
            if z.spec_lt(a) {
                assert(z.spec_add(b).spec_lt(a.spec_add(b)));
                assert(z.spec_add(b) == b.spec_add(z));
            } else {
                assert(a == z);
                assert(a.spec_add(b) == b.spec_add(z));
            }
            assert(false);
        }
    }
}

} // verus!
