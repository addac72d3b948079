//! Cartesian system of coordinates.

use vstd::prelude::*;

use crate::geographic::Geographic;
use crate::scalar::lemma_add_nonneg;
use crate::scalar::lemma_consts_positive;
use crate::scalar::lemma_mul_square;
use crate::scalar::lemma_neg_mul_neg;
use crate::scalar::lemma_square_nonneg;
use crate::scalar::Scalar;
use crate::transform::Transform;

verus! {

/// Coordinates according to the cartesian system of coordinates.
#[derive(Debug, Clone, Copy, PartialEq)]
pub struct Cartesian<T> {
    pub x: T,
    pub y: T,
    pub z: T,
}

impl<T: Scalar> Cartesian<T> {
    /// The coordinate origin, as a mathematical value.
    pub open spec fn spec_origin() -> Self {
        Cartesian { x: T::spec_zero(), y: T::spec_zero(), z: T::spec_zero() }
    }

    /// Componentwise sum of two points.
    pub open spec fn spec_add(self, rhs: Self) -> Self {
        Cartesian {
            x: self.x.spec_add(rhs.x),
            y: self.y.spec_add(rhs.y),
            z: self.z.spec_add(rhs.z),
        }
    }

    /// Componentwise product with a scalar.
    pub open spec fn spec_mul(self, rhs: T) -> Self {
        Cartesian {
            x: self.x.spec_mul(rhs),
            y: self.y.spec_mul(rhs),
            z: self.z.spec_mul(rhs),
        }
    }

    /// Componentwise quotient by a scalar.
    pub open spec fn spec_div(self, rhs: T) -> Self {
        Cartesian {
            x: self.x.spec_div(rhs),
            y: self.y.spec_div(rhs),
            z: self.z.spec_div(rhs),
        }
    }

    /// Euclidean distance between two points.
    pub open spec fn spec_distance(self, rhs: Self) -> T {
        let dx = self.x.spec_sub(rhs.x);
        let dy = self.y.spec_sub(rhs.y);
        let dz = self.z.spec_sub(rhs.z);
        dx.spec_mul(dx).spec_add(dy.spec_mul(dy)).spec_add(dz.spec_mul(dz)).spec_sqrt()
    }

    /// Length of the vector from the origin to the point.
    pub open spec fn spec_magnitude(self) -> T {
        self.x.spec_mul(self.x).spec_add(self.y.spec_mul(self.y)).spec_add(
            self.z.spec_mul(self.z),
        ).spec_sqrt()
    }

    /// Dot product of the vectors of two points.
    pub open spec fn spec_dot(self, rhs: Self) -> T {
        self.x.spec_mul(rhs.x).spec_add(self.y.spec_mul(rhs.y)).spec_add(self.z.spec_mul(rhs.z))
    }

    /// The point scaled down to the unit vector of its direction.
    pub open spec fn spec_normal(self) -> Self {
        self.spec_div(self.spec_magnitude())
    }

    /// Cross product of the vectors of two points.
    pub open spec fn spec_cross(self, rhs: Self) -> Self {
        Cartesian {
            x: self.y.spec_mul(rhs.z).spec_sub(self.z.spec_mul(rhs.y)),
            y: self.z.spec_mul(rhs.x).spec_sub(self.x.spec_mul(rhs.z)),
            z: self.x.spec_mul(rhs.y).spec_sub(self.y.spec_mul(rhs.x)),
        }
    }

    /// Returns the componentwise sum of self and rhs.
    pub fn add(self, rhs: Self) -> (r: Self)
        ensures
            r == self.spec_add(rhs),
    {
        Cartesian { x: self.x.add(rhs.x), y: self.y.add(rhs.y), z: self.z.add(rhs.z) }
    }

    /// Returns self scaled componentwise by rhs.
    pub fn mul(self, rhs: T) -> (r: Self)
        ensures
            r == self.spec_mul(rhs),
    {
        Cartesian { x: self.x.mul(rhs), y: self.y.mul(rhs), z: self.z.mul(rhs) }
    }

    /// Returns self divided componentwise by rhs.
    pub fn div(self, rhs: T) -> (r: Self)
        ensures
            r == self.spec_div(rhs),
    {
        Cartesian { x: self.x.div(rhs), y: self.y.div(rhs), z: self.z.div(rhs) }
    }

    /// Returns the distance between self and rhs.
    pub fn distance(&self, rhs: &Self) -> (r: T)
        ensures
            r == self.spec_distance(*rhs),
    {
        let dx = self.x.sub(rhs.x);
        let dy = self.y.sub(rhs.y);
        let dz = self.z.sub(rhs.z);
        dx.mul(dx).add(dy.mul(dy)).add(dz.mul(dz)).sqrt()
    }

    /// Returns the magnitude of the vector of self.
    pub fn magnitude(&self) -> (r: T)
        ensures
            r == self.spec_magnitude(),
    {
        proof {
            lemma_distance_from_origin(*self);
        }
        Cartesian::origin().distance(self)
    }

    /// Returns the dot product between the vectors of self and rhs.
    pub fn dot(&self, rhs: &Self) -> (r: T)
        ensures
            r == self.spec_dot(*rhs),
    {
        self.x.mul(rhs.x).add(self.y.mul(rhs.y)).add(self.z.mul(rhs.z))
    }

    /// Returns the coordinates of the normalized vector of self.
    pub fn normal(self) -> (r: Self)
        ensures
            r == self.spec_normal(),
    {
        let magnitude = self.magnitude();
        self.div(magnitude)
    }

    /// Returns the cross product between the vectors of self and rhs.
    pub fn cross(&self, rhs: &Self) -> (r: Self)
        ensures
            r == self.spec_cross(*rhs),
    {
        Cartesian::origin().with_x(self.y.mul(rhs.z).sub(self.z.mul(rhs.y))).with_y(
            self.z.mul(rhs.x).sub(self.x.mul(rhs.z)),
        ).with_z(self.x.mul(rhs.y).sub(self.y.mul(rhs.x)))
    }

    /// Returns the cartesian origin of coordinates.
    pub fn origin() -> (r: Self)
        ensures
            r == Self::spec_origin(),
    {
        Cartesian { x: T::zero(), y: T::zero(), z: T::zero() }
    }

    /// Returns self with its first coordinate replaced.
    pub fn with_x(self, x: T) -> (r: Self)
        ensures
            r == (Cartesian { x, ..self }),
    {
        Cartesian { x, ..self }
    }

    /// Returns self with its second coordinate replaced.
    pub fn with_y(self, y: T) -> (r: Self)
        ensures
            r == (Cartesian { y, ..self }),
    {
        Cartesian { y, ..self }
    }

    /// Returns self with its third coordinate replaced.
    pub fn with_z(self, z: T) -> (r: Self)
        ensures
            r == (Cartesian { z, ..self }),
    {
        Cartesian { z, ..self }
    }

    /// Performs the given transformation over self.
    pub fn transform<U: Transform<Self>>(self, transformation: U) -> (r: Self)
        ensures
            r == transformation.spec_transform(self),
    {
        transformation.transform(self)
    }

    /// The sine and cosine a geographic conversion uses for an angle: exact
    /// values at the exact multiples of a quarter turn, the circle functions
    /// everywhere else.
    pub open spec fn spec_precise_sin_cos(rad: T) -> (T, T) {
        if rad.spec_abs() == T::spec_frac_pi_2() {
            (rad.spec_signum(), T::spec_zero())
        } else if rad.spec_abs() == T::spec_pi() {
            (T::spec_zero(), T::spec_one().spec_neg())
        } else if rad == T::spec_zero() {
            (T::spec_zero(), T::spec_one())
        } else {
            (rad.spec_sin(), rad.spec_cos())
        }
    }

    /// The cartesian point a geographic point converts to: a spherical
    /// coordinate with radial distance equal to the altitude (one when the
    /// altitude is zero), polar angle pi/2 minus the latitude and azimuth
    /// equal to the longitude.
    pub open spec fn spec_from_geographic(coords: Geographic<T>) -> Self {
        let radial_distance = if coords.altitude.value() == T::spec_zero() {
            T::spec_one()
        } else {
            coords.altitude.value()
        };
        let theta = T::spec_frac_pi_2().spec_sub(coords.latitude.value());
        let phi = coords.longitude.value();
        let theta_sin_cos = Self::spec_precise_sin_cos(theta);
        let phi_sin_cos = Self::spec_precise_sin_cos(phi);
        Cartesian {
            x: radial_distance.spec_mul(theta_sin_cos.0).spec_mul(phi_sin_cos.1),
            y: radial_distance.spec_mul(theta_sin_cos.0).spec_mul(phi_sin_cos.0),
            z: radial_distance.spec_mul(theta_sin_cos.1),
        }
    }

    /// Converts a geographic point into the cartesian point it locates.
    pub fn from(coords: Geographic<T>) -> (r: Self)
        ensures
            r == Self::spec_from_geographic(coords),
    {
        let altitude = coords.altitude.into_inner();
        let radial_distance = if altitude.equals(T::zero()) {
            T::one()
        } else {
            altitude
        };

        let theta = T::frac_pi_2().sub(coords.latitude.into_inner());
        let phi = coords.longitude.into_inner();

        let (theta_sin, theta_cos) = precise_sin_cos(theta);
        let (phi_sin, phi_cos) = precise_sin_cos(phi);

        Cartesian {
            x: radial_distance.mul(theta_sin).mul(phi_cos),
            y: radial_distance.mul(theta_sin).mul(phi_sin),
            z: radial_distance.mul(theta_cos),
        }
    }
}

/// Improves the precision of sine and cosine for the exact multiples of a
/// quarter turn, which library trigonometry would only approximate.
fn precise_sin_cos<T: Scalar>(rad: T) -> (r: (T, T))
    ensures
        r == Cartesian::<T>::spec_precise_sin_cos(rad),
{
    if rad.abs().equals(T::frac_pi_2()) {
        (rad.signum(), T::zero())
    } else if rad.abs().equals(T::pi()) {
        (T::zero(), T::one().neg())
    } else if rad.equals(T::zero()) {
        (T::zero(), T::one())
    } else {
        (rad.sin(), rad.cos())
    }
}

/// The sine and cosine a conversion uses for an angle square and sum to
/// one, in every branch of the precision helper.
pub proof fn lemma_precise_sin_cos_unit<T: Scalar>(rad: T)
    ensures
        ({
            let pair = Cartesian::<T>::spec_precise_sin_cos(rad);
            pair.0.spec_mul(pair.0).spec_add(pair.1.spec_mul(pair.1)) == T::spec_one()
        }),
{
    T::laws_ring();
    T::laws_order();
    T::laws_sign();
    T::laws_trig();
    lemma_consts_positive::<T>();
    let z = T::spec_zero();
    let one = T::spec_one();
    if rad.spec_abs() == T::spec_frac_pi_2() {
        // the angle cannot be zero there, so its sign squares to one
        assert(rad != z);
        if rad.spec_lt(z) {
            lemma_neg_mul_neg(one, one);
            assert(one.spec_neg().spec_mul(one.spec_neg()) == one.spec_mul(one));
        } else {
            assert(z.spec_lt(rad));
        }
        assert(rad.spec_signum().spec_mul(rad.spec_signum()) == one);
        assert(one.spec_add(z.spec_mul(z)) == one);
    } else if rad.spec_abs() == T::spec_pi() {
        lemma_neg_mul_neg(one, one);
        assert(z.spec_mul(z).spec_add(one.spec_neg().spec_mul(one.spec_neg())) == z.spec_add(
            one,
        ));
        assert(z.spec_add(one) == one.spec_add(z));
    } else if rad == z {
        assert(z.spec_mul(z).spec_add(one.spec_mul(one)) == z.spec_add(one));
        assert(z.spec_add(one) == one.spec_add(z));
    } else {
        assert(rad.spec_sin().spec_mul(rad.spec_sin()).spec_add(
            rad.spec_cos().spec_mul(rad.spec_cos()),
        ) == one);
    }
}

/// A conversion from geographic coordinates lands at the radial distance
/// from the origin: at the altitude, or on the unit sphere when the
/// altitude is zero.
pub proof fn lemma_from_geographic_magnitude<T: Scalar>(coords: Geographic<T>)
    requires
        coords.altitude.wf(),
    ensures
        ({
            let radial_distance = if coords.altitude.value() == T::spec_zero() {
                T::spec_one()
            } else {
                coords.altitude.value()
            };
            Cartesian::spec_from_geographic(coords).spec_magnitude() == radial_distance
                && T::spec_zero().spec_lt(radial_distance)
        }),
{
    T::laws_ring();
    T::laws_order();
    T::laws_sqrt();
    lemma_consts_positive::<T>();
    let z = T::spec_zero();
    let radial_distance = if coords.altitude.value() == z {
        T::spec_one()
    } else {
        coords.altitude.value()
    };
    assert(z.spec_lt(radial_distance));
    let theta = T::spec_frac_pi_2().spec_sub(coords.latitude.value());
    let phi = coords.longitude.value();
    let theta_pair = Cartesian::<T>::spec_precise_sin_cos(theta);
    let phi_pair = Cartesian::<T>::spec_precise_sin_cos(phi);
    lemma_precise_sin_cos_unit::<T>(theta);
    lemma_precise_sin_cos_unit::<T>(phi);
    let level = radial_distance.spec_mul(theta_pair.0);
    let x = level.spec_mul(phi_pair.1);
    let y = level.spec_mul(phi_pair.0);
    let vertical = radial_distance.spec_mul(theta_pair.1);
    // the squares of the planar coordinates sum to the level radius squared
    lemma_mul_square(level, phi_pair.1);
    lemma_mul_square(level, phi_pair.0);
    let level_sq = level.spec_mul(level);
    T::law_mul_distrib(
        level_sq,
        phi_pair.1.spec_mul(phi_pair.1),
        phi_pair.0.spec_mul(phi_pair.0),
    );
    assert(phi_pair.1.spec_mul(phi_pair.1).spec_add(phi_pair.0.spec_mul(phi_pair.0))
        == phi_pair.0.spec_mul(phi_pair.0).spec_add(phi_pair.1.spec_mul(phi_pair.1)));
    assert(x.spec_mul(x).spec_add(y.spec_mul(y)) == level_sq.spec_mul(T::spec_one()));
    assert(x.spec_mul(x).spec_add(y.spec_mul(y)) == level_sq);
    // adding the vertical square gives the radial distance squared
    lemma_mul_square(radial_distance, theta_pair.0);
    lemma_mul_square(radial_distance, theta_pair.1);
    let radial_sq = radial_distance.spec_mul(radial_distance);
    T::law_mul_distrib(
        radial_sq,
        theta_pair.0.spec_mul(theta_pair.0),
        theta_pair.1.spec_mul(theta_pair.1),
    );
    assert(level_sq.spec_add(vertical.spec_mul(vertical)) == radial_sq.spec_mul(T::spec_one()));
    assert(x.spec_mul(x).spec_add(y.spec_mul(y)).spec_add(vertical.spec_mul(vertical))
        == radial_sq);
    // and the root of that square is the radial distance itself
    assert(radial_sq.spec_sqrt() == radial_distance);
}

/// A vector of positive magnitude normalizes to a unit vector: the dot
/// product of the normalized vector with itself is one.
pub proof fn lemma_normal_unit<T: Scalar>(point: Cartesian<T>)
    requires
        T::spec_zero().spec_lt(point.spec_magnitude()),
    ensures
        point.spec_normal().spec_dot(point.spec_normal()) == T::spec_one(),
{
    T::laws_ring();
    T::laws_order();
    T::laws_div();
    T::laws_sqrt();
    lemma_square_nonneg(point.x);
    lemma_square_nonneg(point.y);
    lemma_square_nonneg(point.z);
    lemma_add_nonneg(point.x.spec_mul(point.x), point.y.spec_mul(point.y));
    lemma_add_nonneg(
        point.x.spec_mul(point.x).spec_add(point.y.spec_mul(point.y)),
        point.z.spec_mul(point.z),
    );
    let squares = point.x.spec_mul(point.x).spec_add(point.y.spec_mul(point.y)).spec_add(
        point.z.spec_mul(point.z),
    );
    let magnitude = point.spec_magnitude();
    assert(magnitude.spec_mul(magnitude) == squares);
    assert(T::spec_zero().spec_lt(squares));
    assert(magnitude != T::spec_zero());
    assert(squares != T::spec_zero());
    // each normalized square is the square over the squared magnitude
    assert(point.x.spec_div(magnitude).spec_mul(point.x.spec_div(magnitude))
        == point.x.spec_mul(point.x).spec_div(squares));
    assert(point.y.spec_div(magnitude).spec_mul(point.y.spec_div(magnitude))
        == point.y.spec_mul(point.y).spec_div(squares));
    assert(point.z.spec_div(magnitude).spec_mul(point.z.spec_div(magnitude))
        == point.z.spec_mul(point.z).spec_div(squares));
    // and the normalized squares sum to the full square over itself
    assert(point.x.spec_mul(point.x).spec_div(squares).spec_add(
        point.y.spec_mul(point.y).spec_div(squares),
    ) == point.x.spec_mul(point.x).spec_add(point.y.spec_mul(point.y)).spec_div(squares));
    assert(point.x.spec_mul(point.x).spec_add(point.y.spec_mul(point.y)).spec_div(
        squares,
    ).spec_add(point.z.spec_mul(point.z).spec_div(squares)) == squares.spec_div(squares));
    assert(T::spec_one().spec_mul(squares) == squares);
    assert(T::spec_one().spec_mul(squares).spec_div(squares) == T::spec_one());
}

/// A difference distributes over a product from the left.
proof fn lemma_sub_mul<T: Scalar>(u: T, v: T, w: T)
    ensures
        u.spec_sub(v).spec_mul(w) == u.spec_mul(w).spec_sub(v.spec_mul(w)),
{
    T::laws_ring();
    assert(u.spec_sub(v) == u.spec_add(v.spec_neg()));
    assert(u.spec_add(v.spec_neg()).spec_mul(w) == w.spec_mul(u.spec_add(v.spec_neg())));
    T::law_mul_distrib(w, u, v.spec_neg());
    assert(w.spec_mul(u) == u.spec_mul(w));
    assert(w.spec_mul(v.spec_neg()) == v.spec_neg().spec_mul(w));
    assert(v.spec_neg().spec_mul(w) == v.spec_mul(w).spec_neg());
    assert(u.spec_mul(w).spec_sub(v.spec_mul(w)) == u.spec_mul(w).spec_add(
        v.spec_mul(w).spec_neg(),
    ));
}

/// Swapping the last two factors of a product of three scalars does not
/// change it.
proof fn lemma_mul3_swap<T: Scalar>(p: T, q: T, r: T)
    ensures
        p.spec_mul(q).spec_mul(r) == p.spec_mul(r).spec_mul(q),
{
    T::laws_ring();
    T::law_mul_assoc(p, q, r);
    assert(q.spec_mul(r) == r.spec_mul(q));
    T::law_mul_assoc(p, r, q);
}

/// Three differences around a cycle of three scalars cancel, in either
/// direction around the cycle.
proof fn lemma_three_way_cancel<T: Scalar>(first: T, second: T, third: T)
    ensures
        first.spec_sub(second).spec_add(third.spec_sub(first)).spec_add(second.spec_sub(third))
            == T::spec_zero(),
        first.spec_sub(second).spec_add(second.spec_sub(third)).spec_add(third.spec_sub(first))
            == T::spec_zero(),
{
    T::laws_ring();
    let z = T::spec_zero();
    assert(first.spec_sub(second).spec_add(third.spec_sub(first)) == second.spec_neg().spec_add(
        third,
    )) by {
        T::law_add_assoc(first, second.spec_neg(), third.spec_add(first.spec_neg()));
        T::law_add_assoc(second.spec_neg(), third, first.spec_neg());
        assert(second.spec_neg().spec_add(third).spec_add(first.spec_neg())
            == first.spec_neg().spec_add(second.spec_neg().spec_add(third)));
        T::law_add_assoc(first, first.spec_neg(), second.spec_neg().spec_add(third));
        assert(first.spec_add(first.spec_neg()) == z);
        assert(z.spec_add(second.spec_neg().spec_add(third)) == second.spec_neg().spec_add(
            third,
        ).spec_add(z));
    }
    assert(second.spec_neg().spec_add(third).spec_add(second.spec_sub(third)) == z) by {
        T::law_add_assoc(second.spec_neg(), third, second.spec_add(third.spec_neg()));
        T::law_add_assoc(third, second, third.spec_neg());
        assert(third.spec_add(second) == second.spec_add(third));
        T::law_add_assoc(second, third, third.spec_neg());
        assert(third.spec_add(third.spec_neg()) == z);
        assert(second.spec_add(z) == second);
        assert(third.spec_add(second.spec_add(third.spec_neg())) == second);
        assert(second.spec_neg().spec_add(second) == second.spec_add(second.spec_neg()));
    }
    assert(first.spec_sub(second).spec_add(second.spec_sub(third)) == first.spec_add(
        third.spec_neg(),
    )) by {
        T::law_add_assoc(first, second.spec_neg(), second.spec_add(third.spec_neg()));
        T::law_add_assoc(second.spec_neg(), second, third.spec_neg());
        assert(second.spec_neg().spec_add(second) == second.spec_add(second.spec_neg()));
        assert(z.spec_add(third.spec_neg()) == third.spec_neg().spec_add(z));
    }
    assert(first.spec_add(third.spec_neg()).spec_add(third.spec_sub(first)) == z) by {
        T::law_add_assoc(first, third.spec_neg(), third.spec_add(first.spec_neg()));
        T::law_add_assoc(third.spec_neg(), third, first.spec_neg());
        assert(third.spec_neg().spec_add(third) == third.spec_add(third.spec_neg()));
        assert(z.spec_add(first.spec_neg()) == first.spec_neg().spec_add(z));
        assert(first.spec_add(first.spec_neg()) == z);
    }
}

/// The cross product of two vectors is perpendicular to both of them: its
/// dot product with either operand is zero.
pub proof fn lemma_cross_perpendicular<T: Scalar>(a: Cartesian<T>, b: Cartesian<T>)
    ensures
        a.spec_cross(b).spec_dot(a) == T::spec_zero(),
        a.spec_cross(b).spec_dot(b) == T::spec_zero(),
{
    T::laws_ring();
    // each coordinate of either dot product splits into a difference of
    // three-factor products
    lemma_sub_mul(a.y.spec_mul(b.z), a.z.spec_mul(b.y), a.x);
    lemma_sub_mul(a.z.spec_mul(b.x), a.x.spec_mul(b.z), a.y);
    lemma_sub_mul(a.x.spec_mul(b.y), a.y.spec_mul(b.x), a.z);
    lemma_sub_mul(a.y.spec_mul(b.z), a.z.spec_mul(b.y), b.x);
    lemma_sub_mul(a.z.spec_mul(b.x), a.x.spec_mul(b.z), b.y);
    lemma_sub_mul(a.x.spec_mul(b.y), a.y.spec_mul(b.x), b.z);
    // towards the first operand, the six products pair up across the
    // coordinates
    let first_a = a.y.spec_mul(b.z).spec_mul(a.x);
    let second_a = a.z.spec_mul(b.y).spec_mul(a.x);
    let third_a = a.z.spec_mul(b.x).spec_mul(a.y);
    assert(a.x.spec_mul(b.z).spec_mul(a.y) == first_a) by {
        lemma_mul3_swap(a.x, b.z, a.y);
        lemma_mul3_swap(a.y, b.z, a.x);
        assert(a.x.spec_mul(a.y) == a.y.spec_mul(a.x));
    }
    assert(a.x.spec_mul(b.y).spec_mul(a.z) == second_a) by {
        lemma_mul3_swap(a.x, b.y, a.z);
        lemma_mul3_swap(a.z, b.y, a.x);
        assert(a.x.spec_mul(a.z) == a.z.spec_mul(a.x));
    }
    assert(a.y.spec_mul(b.x).spec_mul(a.z) == third_a) by {
        lemma_mul3_swap(a.y, b.x, a.z);
        lemma_mul3_swap(a.z, b.x, a.y);
        assert(a.y.spec_mul(a.z) == a.z.spec_mul(a.y));
    }
    lemma_three_way_cancel(first_a, second_a, third_a);
    assert(a.spec_cross(b).spec_dot(a) == first_a.spec_sub(second_a).spec_add(
        third_a.spec_sub(first_a),
    ).spec_add(second_a.spec_sub(third_a)));
    // and towards the second operand as well
    let first_b = a.y.spec_mul(b.z).spec_mul(b.x);
    let second_b = a.z.spec_mul(b.y).spec_mul(b.x);
    let third_b = a.x.spec_mul(b.z).spec_mul(b.y);
    assert(a.z.spec_mul(b.x).spec_mul(b.y) == second_b) by {
        lemma_mul3_swap(a.z, b.x, b.y);
    }
    assert(a.x.spec_mul(b.y).spec_mul(b.z) == third_b) by {
        lemma_mul3_swap(a.x, b.y, b.z);
    }
    assert(a.y.spec_mul(b.x).spec_mul(b.z) == first_b) by {
        lemma_mul3_swap(a.y, b.x, b.z);
    }
    lemma_three_way_cancel(first_b, second_b, third_b);
    assert(a.spec_cross(b).spec_dot(b) == first_b.spec_sub(second_b).spec_add(
        second_b.spec_sub(third_b),
    ).spec_add(third_b.spec_sub(first_b)));
}

/// Subtracting a scalar from zero does not change its square.
proof fn lemma_zero_sub_square<T: Scalar>(a: T)
    ensures
        T::spec_zero().spec_sub(a).spec_mul(T::spec_zero().spec_sub(a)) == a.spec_mul(a),
{
    T::laws_ring();
    assert(T::spec_zero().spec_sub(a) == a.spec_neg());
    lemma_neg_mul_neg(a, a);
}

/// The distance from the origin to a point is the root of the sum of the
/// squares of its coordinates.
proof fn lemma_distance_from_origin<T: Scalar>(point: Cartesian<T>)
    ensures
        Cartesian::<T>::spec_origin().spec_distance(point) == point.spec_magnitude(),
{
    T::laws_ring();
    lemma_zero_sub_square(point.x);
    lemma_zero_sub_square(point.y);
    lemma_zero_sub_square(point.z);
}

/// The magnitude of any point is non-negative.
pub proof fn lemma_magnitude_nonneg<T: Scalar>(point: Cartesian<T>)
    ensures
        !point.spec_magnitude().spec_lt(T::spec_zero()),
{
    T::laws_sqrt();
    lemma_square_nonneg(point.x);
    lemma_square_nonneg(point.y);
    lemma_square_nonneg(point.z);
    lemma_add_nonneg(point.x.spec_mul(point.x), point.y.spec_mul(point.y));
    lemma_add_nonneg(
        point.x.spec_mul(point.x).spec_add(point.y.spec_mul(point.y)),
        point.z.spec_mul(point.z),
    );
}

} // verus!
