//! Geographic system of coordinates.

use vstd::prelude::*;

use crate::cartesian::lemma_from_geographic_magnitude;
use crate::cartesian::lemma_precise_sin_cos_unit;
use crate::cartesian::Cartesian;
use crate::positive::Positive;
use crate::scalar::lemma_add_le;
use crate::scalar::lemma_consts_positive;
use crate::scalar::lemma_mul_le;
use crate::scalar::lemma_mul_square;
use crate::scalar::lemma_neg_le;
use crate::scalar::lemma_neg_mul_neg;
use crate::scalar::lemma_zero_div;
use crate::scalar::Scalar;

verus! {

/// Represents the horizontal axis in a geographic system of coordinates.
///
/// Since the longitude of a point on a sphere is the angle east (positive)
/// or west (negative) in reference of the meridian zero, the longitude value
/// must be in the range `[-pi, +pi)`. Any other value is remapped into that
/// range: both boundaries of the range are consecutive, so overflowing one
/// is the same as continuing from the other one in the same direction.
#[derive(Debug, Clone, Copy, PartialEq)]
pub struct Longitude<T>(pub T);

impl<T: Scalar> Longitude<T> {
    /// The angle this wrapper holds.
    pub open spec fn value(self) -> T {
        self.0
    }

    /// Whether a scalar lies within `[-pi, pi)`.
    pub open spec fn in_range(value: T) -> bool {
        (T::spec_pi().spec_neg().spec_lt(value) || T::spec_pi().spec_neg() == value)
            && value.spec_lt(T::spec_pi())
    }

    /// The angle construction from the given scalar yields: the scalar
    /// itself when it is within `[-pi, pi)`, and otherwise its wraparound
    /// remap into that range.
    pub open spec fn spec_from(value: T) -> T {
        if Self::in_range(value) {
            value
        } else {
            value.spec_add(T::spec_pi()).spec_rem_euclid(T::spec_tau()).spec_sub(T::spec_pi())
        }
    }

    /// The wrapped angle always lies within `[-pi, pi)`.
    pub open spec fn wf(self) -> bool {
        Self::in_range(self.value())
    }

    /// Remaps the given scalar angle into the range `[-pi, pi)`.
    pub fn from(value: T) -> (r: Self)
        ensures
            r.value() == Self::spec_from(value),
            r.wf(),
    {
        let neg_pi = T::pi().neg();
        if neg_pi.le(value) && value.lt(T::pi()) {
            Longitude(value)
        } else {
            // Both boundaries of the range are consecutive, which means that
            // overflowing one is the same as continuing from the other one
            // in the same direction.
            proof {
                lemma_wrap_in_range(value);
            }
            Longitude(value.add(T::pi()).rem_euclid(T::tau()).sub(T::pi()))
        }
    }

    /// The scalar angle of a cartesian point in the horizontal plane: the
    /// inverse tangent of y over x, corrected by a half turn on the negative
    /// side of x, a quarter turn on the vertical axis, and zero as the
    /// fallback for the degenerate origin.
    pub open spec fn spec_angle_of(point: Cartesian<T>) -> T {
        let zero = T::spec_zero();
        if zero.spec_lt(point.x) {
            point.y.spec_div(point.x).spec_atan()
        } else if point.x.spec_lt(zero) {
            if zero.spec_lt(point.y) || zero == point.y {
                point.y.spec_div(point.x).spec_atan().spec_add(T::spec_pi())
            } else {
                point.y.spec_div(point.x).spec_atan().spec_sub(T::spec_pi())
            }
        } else if zero.spec_lt(point.y) {
            T::spec_frac_pi_2()
        } else if point.y.spec_lt(zero) {
            T::spec_frac_pi_2().spec_neg()
        } else {
            zero
        }
    }

    /// Computes the longitude of the given cartesian point, as specified by
    /// the spherical coordinate system.
    pub fn from_cartesian(point: Cartesian<T>) -> (r: Self)
        ensures
            r.value() == Self::spec_from(Self::spec_angle_of(point)),
            r.wf(),
    {
        let zero = T::zero();
        let angle = if zero.lt(point.x) {
            point.y.div(point.x).atan()
        } else if point.x.lt(zero) {
            if zero.le(point.y) {
                point.y.div(point.x).atan().add(T::pi())
            } else {
                point.y.div(point.x).atan().sub(T::pi())
            }
        } else if zero.lt(point.y) {
            T::frac_pi_2()
        } else if point.y.lt(zero) {
            T::frac_pi_2().neg()
        } else {
            zero
        };
        Self::from(angle)
    }

    /// Returns the inner value.
    pub fn into_inner(self) -> (r: T)
        ensures
            r == self.value(),
    {
        self.0
    }
}

/// The wraparound remap of any scalar lands within `[-pi, pi)`.
proof fn lemma_wrap_in_range<T: Scalar>(value: T)
    ensures
        Longitude::<T>::in_range(
            value.spec_add(T::spec_pi()).spec_rem_euclid(T::spec_tau()).spec_sub(T::spec_pi()),
        ),
{
    T::laws_rem();
    T::laws_order();
    T::laws_ring();
    T::laws_consts();
    lemma_consts_positive::<T>();
    let z = T::spec_zero();
    let p = T::spec_pi();
    let tau = T::spec_tau();
    let u = value.spec_add(p).spec_rem_euclid(tau);
    let r = u.spec_sub(p);
    assert(!u.spec_lt(z) && u.spec_lt(tau));
    assert(r == u.spec_add(p.spec_neg()));
    // below: zero turns into the lower bound of the range
    assert(z.spec_add(p.spec_neg()) == p.spec_neg().spec_add(z));
    if u == z {
        assert(r == p.spec_neg());
    } else {
        assert(z.spec_lt(u));
        assert(z.spec_add(p.spec_neg()).spec_lt(u.spec_add(p.spec_neg())));
        assert(p.spec_neg().spec_lt(r));
    }
    // above: one full turn turns into the upper bound of the range
    assert(u.spec_add(p.spec_neg()).spec_lt(tau.spec_add(p.spec_neg())));
    assert(tau.spec_add(p.spec_neg()) == p.spec_add(p).spec_add(p.spec_neg()));
    T::law_add_assoc(p, p, p.spec_neg());
    assert(p.spec_add(p.spec_neg()) == z);
    assert(p.spec_add(z) == p);
}

/// Represents the vertical axis in a geographic system of coordinates.
///
/// Since the latitude of a point on a sphere is the angle between the
/// equatorial plane and the straight line through that point and the center
/// of the sphere, the latitude value must be in the range `[-pi/2, +pi/2]`.
/// Any other value is refolded into the range through the inverse sine of
/// its sine, which is approximate for inputs far outside the range.
#[derive(Debug, Clone, Copy, PartialEq)]
pub struct Latitude<T>(pub T);

impl<T: Scalar> Latitude<T> {
    /// The angle this wrapper holds.
    pub open spec fn value(self) -> T {
        self.0
    }

    /// Whether a scalar lies within `[-pi/2, pi/2]`.
    pub open spec fn in_range(value: T) -> bool {
        (T::spec_frac_pi_2().spec_neg().spec_lt(value) || T::spec_frac_pi_2().spec_neg() == value)
            && (value.spec_lt(T::spec_frac_pi_2()) || value == T::spec_frac_pi_2())
    }

    /// The angle construction from the given scalar yields: the scalar
    /// itself when it is within `[-pi/2, pi/2]`, and otherwise the inverse
    /// sine of its sine.
    pub open spec fn spec_from(value: T) -> T {
        if Self::in_range(value) {
            value
        } else {
            value.spec_sin().spec_asin()
        }
    }

    /// The wrapped angle always lies within `[-pi/2, pi/2]`.
    pub open spec fn wf(self) -> bool {
        Self::in_range(self.value())
    }

    /// Refolds the given scalar angle into the range `[-pi/2, pi/2]`.
    pub fn from(value: T) -> (r: Self)
        ensures
            r.value() == Self::spec_from(value),
            r.wf(),
    {
        if T::frac_pi_2().neg().le(value) && value.le(T::frac_pi_2()) {
            Latitude(value)
        } else {
            proof {
                lemma_fold_in_range(value);
            }
            Latitude(value.sin().asin())
        }
    }

    /// The scalar polar angle of a cartesian point: the inverse tangent of
    /// the planar radius over z, corrected by a half turn below the
    /// equatorial plane, with a quarter turn as the fallback on that plane
    /// and for the degenerate origin.
    pub open spec fn spec_polar_of(point: Cartesian<T>) -> T {
        let zero = T::spec_zero();
        let rho = point.x.spec_mul(point.x).spec_add(point.y.spec_mul(point.y)).spec_sqrt();
        if zero.spec_lt(point.z) {
            rho.spec_div(point.z).spec_atan()
        } else if point.z.spec_lt(zero) {
            T::spec_pi().spec_add(rho.spec_div(point.z).spec_atan())
        } else {
            T::spec_frac_pi_2()
        }
    }

    /// Computes the latitude of the given cartesian point, as specified by
    /// the spherical coordinate system.
    pub fn from_cartesian(point: Cartesian<T>) -> (r: Self)
        ensures
            r.value() == Self::spec_from(T::spec_frac_pi_2().spec_sub(Self::spec_polar_of(point))),
            r.wf(),
    {
        let zero = T::zero();
        let rho = point.x.mul(point.x).add(point.y.mul(point.y)).sqrt();
        let theta = if zero.lt(point.z) {
            rho.div(point.z).atan()
        } else if point.z.lt(zero) {
            T::pi().add(rho.div(point.z).atan())
        } else {
            T::frac_pi_2()
        };
        Self::from(T::frac_pi_2().sub(theta))
    }

    /// Returns the inner value.
    pub fn into_inner(self) -> (r: T)
        ensures
            r == self.value(),
    {
        self.0
    }
}

/// The inverse sine of the sine of any scalar lands within `[-pi/2, pi/2]`.
proof fn lemma_fold_in_range<T: Scalar>(value: T)
    ensures
        Latitude::<T>::in_range(value.spec_sin().spec_asin()),
{
    T::laws_trig();
    T::laws_inverse_trig();
    T::laws_order();
    let h = T::spec_frac_pi_2();
    let s = value.spec_sin();
    assert(!s.spec_lt(T::spec_one().spec_neg()) && !T::spec_one().spec_lt(s));
    assert(!s.spec_asin().spec_lt(h.spec_neg()) && !h.spec_lt(s.spec_asin()));
    assert(h.spec_neg().spec_lt(s.spec_asin()) || h.spec_neg() == s.spec_asin() || s.spec_asin().spec_lt(
        h.spec_neg(),
    ));
    assert(s.spec_asin().spec_lt(h) || s.spec_asin() == h || h.spec_lt(s.spec_asin()));
}

/// Represents the radius in a geographic system of coordinates.
///
/// Since the altitude of a point on a sphere is the distance between that
/// point and the center of the sphere, the altitude value must be positive:
/// construction takes the absolute value of its argument.
#[derive(Debug, Clone, Copy, PartialEq)]
pub struct Altitude<T>(pub Positive<T>);

impl<T: Scalar> Altitude<T> {
    /// The radius this wrapper holds.
    pub open spec fn value(self) -> T {
        self.0.value()
    }

    /// The wrapped radius is never negative.
    pub open spec fn wf(self) -> bool {
        self.0.wf()
    }

    /// Wraps the absolute value of the given scalar.
    pub fn from(value: T) -> (r: Self)
        ensures
            r.value() == value.spec_abs(),
            r.wf(),
    {
        Altitude(Positive::from(value))
    }

    /// Computes the altitude of the given cartesian point, as specified by
    /// the spherical coordinate system: its Euclidean norm.
    pub fn from_cartesian(point: Cartesian<T>) -> (r: Self)
        ensures
            r.value() == point.spec_magnitude(),
            r.wf(),
    {
        let norm = point.x.mul(point.x).add(point.y.mul(point.y)).add(
            point.z.mul(point.z),
        ).sqrt();
        proof {
            crate::cartesian::lemma_magnitude_nonneg(point);
            T::laws_sign();
        }
        Self::from(norm)
    }

    /// Returns the inner value.
    pub fn into_inner(self) -> (r: T)
        ensures
            r == self.value(),
    {
        self.0.into_inner()
    }
}

/// Coordinates according to the geographical system of coordinates.
#[derive(Debug, Clone, Copy, PartialEq)]
pub struct Geographic<T> {
    pub longitude: Longitude<T>,
    pub latitude: Latitude<T>,
    pub altitude: Altitude<T>,
}

impl<T: Scalar> Geographic<T> {
    /// The point every field of which is zero: the degenerate origin.
    pub open spec fn spec_default() -> Self {
        Geographic {
            longitude: Longitude(T::spec_zero()),
            latitude: Latitude(T::spec_zero()),
            altitude: Altitude(Positive(T::spec_zero())),
        }
    }

    /// Every field of the point is valid for its own axis.
    pub open spec fn wf(self) -> bool {
        self.longitude.wf() && self.latitude.wf() && self.altitude.wf()
    }

    /// The geographic point a cartesian point converts to, each field as
    /// specified by the spherical coordinate system.
    pub open spec fn spec_from_cartesian(point: Cartesian<T>) -> Self {
        Geographic {
            longitude: Longitude(Longitude::spec_from(Longitude::spec_angle_of(point))),
            latitude: Latitude(
                Latitude::spec_from(
                    T::spec_frac_pi_2().spec_sub(Latitude::spec_polar_of(point)),
                ),
            ),
            altitude: Altitude(Positive(point.spec_magnitude())),
        }
    }

    /// Converts a cartesian point into the geographic point it locates.
    pub fn from(point: Cartesian<T>) -> (r: Self)
        ensures
            r == Self::spec_from_cartesian(point),
            r.wf(),
    {
        Self::default().with_longitude(Longitude::from_cartesian(point)).with_latitude(
            Latitude::from_cartesian(point),
        ).with_altitude(Altitude::from_cartesian(point))
    }

    /// The great-circle distance between two points, by the spherical law
    /// of cosines: the inverse cosine of the sum of the product of the
    /// latitude sines and the product of the latitude cosines scaled by the
    /// cosine of the longitude difference.
    pub open spec fn spec_distance(self, rhs: Self) -> T {
        let prod_latitude_sin = self.latitude.value().spec_sin().spec_mul(
            rhs.latitude.value().spec_sin(),
        );
        let prod_latitude_cos = self.latitude.value().spec_cos().spec_mul(
            rhs.latitude.value().spec_cos(),
        );
        let longitude_diff = self.longitude.value().spec_sub(rhs.longitude.value()).spec_abs();
        prod_latitude_sin.spec_add(
            prod_latitude_cos.spec_mul(longitude_diff.spec_cos()),
        ).spec_acos()
    }

    /// Computes the great-circle distance from self to the given point (in
    /// radians).
    pub fn distance(&self, rhs: &Self) -> (r: T)
        ensures
            r == self.spec_distance(*rhs),
    {
        let prod_latitude_sin = self.latitude.into_inner().sin().mul(
            rhs.latitude.into_inner().sin(),
        );
        let prod_latitude_cos = self.latitude.into_inner().cos().mul(
            rhs.latitude.into_inner().cos(),
        );
        let longitude_diff = self.longitude.into_inner().sub(rhs.longitude.into_inner()).abs();

        prod_latitude_sin.add(prod_latitude_cos.mul(longitude_diff.cos())).acos()
    }

    /// Returns self with its longitude replaced.
    pub fn with_longitude(self, longitude: Longitude<T>) -> (r: Self)
        ensures
            r == (Geographic { longitude, ..self }),
    {
        Geographic { longitude, ..self }
    }

    /// Returns self with its latitude replaced.
    pub fn with_latitude(self, latitude: Latitude<T>) -> (r: Self)
        ensures
            r == (Geographic { latitude, ..self }),
    {
        Geographic { latitude, ..self }
    }

    /// Returns self with its altitude replaced.
    pub fn with_altitude(self, altitude: Altitude<T>) -> (r: Self)
        ensures
            r == (Geographic { altitude, ..self }),
    {
        Geographic { altitude, ..self }
    }
}

impl<T: Scalar> Default for Geographic<T> {
    /// Returns the degenerate origin point, which is well formed.
    fn default() -> (r: Self)
        ensures
            r == Self::spec_default(),
            r.wf(),
    {
        proof {
            lemma_consts_positive::<T>();
            T::laws_order();
        }
        Geographic {
            longitude: Longitude(T::zero()),
            latitude: Latitude(T::zero()),
            altitude: Altitude(Positive(T::zero())),
        }
    }
}

/// Remapping a longitude is idempotent: the longitude of any scalar feeds
/// back into construction unchanged.
pub proof fn lemma_longitude_idempotent<T: Scalar>(value: T)
    ensures
        Longitude::<T>::spec_from(Longitude::<T>::spec_from(value)) == Longitude::<T>::spec_from(
            value,
        ),
{
    if !Longitude::<T>::in_range(value) {
        lemma_wrap_in_range(value);
    }
}

/// Refolding a latitude is idempotent: the latitude of any scalar feeds
/// back into construction unchanged.
pub proof fn lemma_latitude_idempotent<T: Scalar>(value: T)
    ensures
        Latitude::<T>::spec_from(Latitude::<T>::spec_from(value)) == Latitude::<T>::spec_from(
            value,
        ),
{
    if !Latitude::<T>::in_range(value) {
        lemma_fold_in_range(value);
    }
}

/// The great-circle distance from any point to itself is zero.
pub proof fn lemma_distance_self_is_zero<T: Scalar>(point: Geographic<T>)
    ensures
        point.spec_distance(point) == T::spec_zero(),
{
    T::laws_ring();
    T::laws_order();
    T::laws_sign();
    T::laws_trig();
    T::laws_inverse_trig();
    let lat = point.latitude.value();
    let lon = point.longitude.value();
    assert(lon.spec_sub(lon) == T::spec_zero());
    assert(T::spec_zero().spec_abs() == T::spec_zero());
    assert(lat.spec_cos().spec_mul(lat.spec_cos()).spec_mul(T::spec_one()) == lat.spec_cos().spec_mul(
        lat.spec_cos(),
    ));
    assert(lat.spec_sin().spec_mul(lat.spec_sin()).spec_add(
        lat.spec_cos().spec_mul(lat.spec_cos()),
    ) == T::spec_one());
}

/// The great-circle distance is symmetric in its two points.
pub proof fn lemma_distance_symmetric<T: Scalar>(a: Geographic<T>, b: Geographic<T>)
    ensures
        a.spec_distance(b) == b.spec_distance(a),
{
    T::laws_ring();
    crate::scalar::lemma_abs_neg(a.longitude.value().spec_sub(b.longitude.value()));
    let u = a.longitude.value();
    let v = b.longitude.value();
    assert(u.spec_sub(v).spec_neg() == u.spec_neg().spec_add(v.spec_neg().spec_neg()));
    assert(u.spec_sub(v).spec_neg() == v.spec_add(u.spec_neg()));
    assert(u.spec_sub(v).spec_neg() == v.spec_sub(u));
}

/// The conversion from cartesian coordinates sends the upward unit vector
/// to the north pole on the unit sphere.
pub proof fn lemma_north_unit_converts_back<T: Scalar>()
    ensures
        Geographic::<T>::spec_from_cartesian(
            Cartesian { x: T::spec_zero(), y: T::spec_zero(), z: T::spec_one() },
        ) == (Geographic {
            latitude: Latitude(T::spec_frac_pi_2()),
            altitude: Altitude(Positive(T::spec_one())),
            ..Geographic::spec_default()
        }),
{
    T::laws_ring();
    T::laws_order();
    T::laws_div();
    T::laws_sqrt();
    T::laws_inverse_trig();
    lemma_consts_positive::<T>();
    let z = T::spec_zero();
    let one = T::spec_one();
    let h = T::spec_frac_pi_2();
    let p = Cartesian { x: z, y: z, z: one };
    // the longitude falls back to zero on the vertical axis
    assert(Longitude::<T>::spec_angle_of(p) == z);
    assert(Longitude::<T>::spec_from(z) == z);
    // the planar radius vanishes, so the polar angle does too
    assert(z.spec_mul(z) == z);
    assert(z.spec_add(z) == z);
    assert(z.spec_mul(z).spec_add(z.spec_mul(z)).spec_sqrt() == z);
    assert(z.spec_div(one) == z);
    assert(z.spec_atan() == z);
    assert(Latitude::<T>::spec_polar_of(p) == z);
    assert(h.spec_sub(z) == h.spec_add(z.spec_neg()));
    assert(h.spec_add(z) == h);
    assert(Latitude::<T>::spec_from(h) == h);
    // the magnitude of a unit vector is one
    assert(one.spec_mul(one) == one);
    assert(z.spec_add(one) == one.spec_add(z));
    assert(z.spec_add(one.spec_mul(one)).spec_sqrt() == one);
    assert(p.spec_magnitude() == one);
}

/// The conversion from cartesian coordinates sends the downward unit
/// vector to the south pole on the unit sphere.
pub proof fn lemma_south_unit_converts_back<T: Scalar>()
    ensures
        Geographic::<T>::spec_from_cartesian(
            Cartesian { x: T::spec_zero(), y: T::spec_zero(), z: T::spec_one().spec_neg() },
        ) == (Geographic {
            latitude: Latitude(T::spec_frac_pi_2().spec_neg()),
            altitude: Altitude(Positive(T::spec_one())),
            ..Geographic::spec_default()
        }),
{
    T::laws_ring();
    T::laws_order();
    T::laws_div();
    T::laws_sqrt();
    T::laws_consts();
    T::laws_inverse_trig();
    lemma_consts_positive::<T>();
    let z = T::spec_zero();
    let one = T::spec_one();
    let h = T::spec_frac_pi_2();
    let p = Cartesian { x: z, y: z, z: one.spec_neg() };
    // the longitude falls back to zero on the vertical axis
    assert(Longitude::<T>::spec_angle_of(p) == z);
    assert(Longitude::<T>::spec_from(z) == z);
    // the planar radius vanishes; below the equator the polar angle is a
    // half turn
    assert(z.spec_mul(z) == z);
    assert(z.spec_add(z) == z);
    assert(z.spec_mul(z).spec_add(z.spec_mul(z)).spec_sqrt() == z);
    assert(one.spec_neg().spec_lt(z.spec_neg()));
    assert(one.spec_neg() != z);
    assert(z.spec_mul(one.spec_neg()) == one.spec_neg().spec_mul(z));
    assert(z.spec_mul(one.spec_neg()).spec_div(one.spec_neg()) == z);
    assert(z.spec_atan() == z);
    assert(Latitude::<T>::spec_polar_of(p) == T::spec_pi().spec_add(z));
    assert(T::spec_pi().spec_add(z) == T::spec_pi());
    // a quarter turn short of a half turn is a quarter turn down
    assert(h.spec_sub(T::spec_pi()) == h.spec_add(T::spec_pi().spec_neg()));
    assert(T::spec_pi().spec_neg() == h.spec_neg().spec_add(h.spec_neg()));
    T::law_add_assoc(h, h.spec_neg(), h.spec_neg());
    assert(h.spec_add(h.spec_neg()) == z);
    assert(z.spec_add(h.spec_neg()) == h.spec_neg().spec_add(z));
    assert(h.spec_sub(T::spec_pi()) == h.spec_neg());
    assert(Latitude::<T>::spec_from(h.spec_neg()) == h.spec_neg());
    // the magnitude of a unit vector is one
    lemma_neg_mul_neg(one, one);
    assert(one.spec_mul(one) == one);
    assert(z.spec_add(one.spec_neg().spec_mul(one.spec_neg())) == one.spec_add(z));
    assert(z.spec_add(one.spec_neg().spec_mul(one.spec_neg())).spec_sqrt() == one);
    assert(p.spec_magnitude() == one);
}

/// The conversion from cartesian coordinates sends the coordinate origin,
/// whose direction is degenerate, to the degenerate geographic origin: the
/// fallback longitude and latitude are both zero, a point on the equator.
pub proof fn lemma_origin_converts_to_default<T: Scalar>()
    ensures
        Geographic::<T>::spec_from_cartesian(
            Cartesian { x: T::spec_zero(), y: T::spec_zero(), z: T::spec_zero() },
        ) == Geographic::<T>::spec_default(),
{
    T::laws_ring();
    T::laws_order();
    T::laws_sqrt();
    lemma_consts_positive::<T>();
    let z = T::spec_zero();
    let h = T::spec_frac_pi_2();
    let p = Cartesian { x: z, y: z, z: z };
    // both angles fall back: the longitude to zero, the polar angle to a
    // quarter turn, which puts the latitude on the equator
    assert(Longitude::<T>::spec_angle_of(p) == z);
    assert(Longitude::<T>::spec_from(z) == z);
    assert(Latitude::<T>::spec_polar_of(p) == h);
    assert(h.spec_sub(h) == z);
    assert(Latitude::<T>::spec_from(z) == z);
    // the magnitude of the origin is zero
    assert(z.spec_mul(z) == z);
    assert(z.spec_add(z) == z);
    assert(z.spec_mul(z).spec_add(z.spec_mul(z)).spec_add(z.spec_mul(z)).spec_sqrt() == z);
    assert(p.spec_magnitude() == z);
}

/// Scaling both parts of a ratio by the same non-zero factor cancels out.
proof fn lemma_scaled_ratio<T: Scalar>(factor: T, numerator: T, denominator: T)
    requires
        factor != T::spec_zero(),
        denominator != T::spec_zero(),
    ensures
        factor.spec_mul(numerator).spec_div(factor.spec_mul(denominator)) == numerator.spec_div(
            denominator,
        ),
{
    T::laws_ring();
    T::laws_div();
    assert(T::spec_one().spec_mul(factor) == factor);
    assert(T::spec_one().spec_mul(factor).spec_div(factor) == T::spec_one());
    assert(factor.spec_div(factor).spec_mul(numerator.spec_div(denominator))
        == factor.spec_mul(numerator).spec_div(factor.spec_mul(denominator)));
    assert(T::spec_one().spec_mul(numerator.spec_div(denominator)) == numerator.spec_div(
        denominator,
    ).spec_mul(T::spec_one()));
}

/// The ratio of sine over cosine does not change a half turn down.
proof fn lemma_ratio_shift_half_turn<T: Scalar>(angle: T)
    requires
        angle.spec_cos() != T::spec_zero(),
    ensures
        angle.spec_sin().spec_div(angle.spec_cos()) == angle.spec_sub(T::spec_pi()).spec_sin().spec_div(
            angle.spec_sub(T::spec_pi()).spec_cos(),
        ),
{
    T::laws_ring();
    T::laws_div();
    T::laws_trig();
    assert(angle.spec_sub(T::spec_pi()).spec_sin() == angle.spec_sin().spec_neg());
    assert(angle.spec_sub(T::spec_pi()).spec_cos() == angle.spec_cos().spec_neg());
    assert(angle.spec_sin().spec_neg().spec_div(angle.spec_cos().spec_neg())
        == angle.spec_sin().spec_div(angle.spec_cos()));
}

/// The polar angle of a point away from the poles lies strictly between
/// zero and a half turn, and taking it back from the quarter turn recovers
/// the latitude.
proof fn lemma_polar_angle_bounds<T: Scalar>(latitude: T)
    requires
        T::spec_frac_pi_2().spec_neg().spec_lt(latitude),
        latitude.spec_lt(T::spec_frac_pi_2()),
    ensures
        T::spec_zero().spec_lt(T::spec_frac_pi_2().spec_sub(latitude)),
        T::spec_frac_pi_2().spec_sub(latitude).spec_lt(T::spec_pi()),
        T::spec_frac_pi_2().spec_sub(T::spec_frac_pi_2().spec_sub(latitude)) == latitude,
{
    T::laws_ring();
    T::laws_order();
    T::laws_consts();
    lemma_consts_positive::<T>();
    let z = T::spec_zero();
    let h = T::spec_frac_pi_2();
    let theta = h.spec_sub(latitude);
    assert(theta == h.spec_add(latitude.spec_neg()));
    // below: the angle stays above zero
    assert(h.spec_neg().spec_lt(latitude.spec_neg().spec_neg()));
    assert(h.spec_neg().spec_add(h).spec_lt(latitude.spec_neg().spec_add(h)));
    assert(h.spec_neg().spec_add(h) == h.spec_add(h.spec_neg()));
    assert(latitude.spec_neg().spec_add(h) == h.spec_add(latitude.spec_neg()));
    assert(z.spec_lt(theta));
    // above: the angle stays under a half turn
    assert(latitude.spec_neg().spec_lt(h.spec_neg().spec_neg()));
    assert(latitude.spec_neg().spec_add(h).spec_lt(h.spec_add(h)));
    assert(theta.spec_lt(T::spec_pi()));
    // and the latitude comes back from the angle
    assert(h.spec_sub(theta) == h.spec_add(theta.spec_neg()));
    assert(theta.spec_neg() == h.spec_neg().spec_add(latitude.spec_neg().spec_neg()));
    assert(theta.spec_neg() == h.spec_neg().spec_add(latitude));
    T::law_add_assoc(h, h.spec_neg(), latitude);
    assert(h.spec_add(h.spec_neg()) == z);
    assert(z.spec_add(latitude) == latitude.spec_add(z));
}

/// The conversion to cartesian coordinates keeps a point away from the
/// poles off the vertical axis: its level radius, the product of the
/// radial distance and the sine of the polar angle, is positive.
proof fn lemma_level_radius_positive<T: Scalar>(coords: Geographic<T>)
    requires
        coords.wf(),
        T::spec_frac_pi_2().spec_neg().spec_lt(coords.latitude.value()),
        coords.latitude.value().spec_lt(T::spec_frac_pi_2()),
    ensures
        ({
            let radial_distance = if coords.altitude.value() == T::spec_zero() {
                T::spec_one()
            } else {
                coords.altitude.value()
            };
            let pair = Cartesian::<T>::spec_precise_sin_cos(
                T::spec_frac_pi_2().spec_sub(coords.latitude.value()),
            );
            T::spec_zero().spec_lt(radial_distance) && T::spec_zero().spec_lt(pair.0)
                && T::spec_zero().spec_lt(radial_distance.spec_mul(pair.0))
        }),
{
    T::laws_ring();
    T::laws_order();
    T::laws_sign();
    T::laws_trig();
    T::laws_consts();
    lemma_consts_positive::<T>();
    lemma_polar_angle_bounds::<T>(coords.latitude.value());
    let z = T::spec_zero();
    let h = T::spec_frac_pi_2();
    let theta = h.spec_sub(coords.latitude.value());
    let radial_distance = if coords.altitude.value() == z {
        T::spec_one()
    } else {
        coords.altitude.value()
    };
    assert(z.spec_lt(radial_distance));
    assert(theta.spec_abs() == theta);
    if theta == h {
        assert(Cartesian::<T>::spec_precise_sin_cos(theta).0 == theta.spec_signum());
        assert(theta.spec_signum() == T::spec_one());
    } else {
        assert(theta != T::spec_pi());
        assert(Cartesian::<T>::spec_precise_sin_cos(theta).0 == theta.spec_sin());
        assert(z.spec_lt(theta.spec_sin()));
    }
}

/// The longitude of the cartesian image of a well-formed geographic point
/// away from the poles is the longitude the point started from.
proof fn lemma_longitude_round_trip<T: Scalar>(coords: Geographic<T>)
    requires
        coords.wf(),
        T::spec_frac_pi_2().spec_neg().spec_lt(coords.latitude.value()),
        coords.latitude.value().spec_lt(T::spec_frac_pi_2()),
    ensures
        Longitude::<T>::spec_from(
            Longitude::<T>::spec_angle_of(Cartesian::spec_from_geographic(coords)),
        ) == coords.longitude.value(),
{
    T::laws_ring();
    T::laws_order();
    T::laws_sign();
    T::laws_trig();
    T::laws_inverse_trig();
    T::laws_rem();
    T::laws_consts();
    lemma_consts_positive::<T>();
    lemma_level_radius_positive(coords);
    let z = T::spec_zero();
    let one = T::spec_one();
    let h = T::spec_frac_pi_2();
    let p = T::spec_pi();
    let phi = coords.longitude.value();
    let radial_distance = if coords.altitude.value() == z {
        one
    } else {
        coords.altitude.value()
    };
    let theta = h.spec_sub(coords.latitude.value());
    let level = radial_distance.spec_mul(Cartesian::<T>::spec_precise_sin_cos(theta).0);
    assert(z.spec_lt(level));
    assert(level != z);
    let pair = Cartesian::<T>::spec_precise_sin_cos(phi);
    let point = Cartesian::spec_from_geographic(coords);
    assert(point.x == level.spec_mul(pair.1));
    assert(point.y == level.spec_mul(pair.0));
    if phi.spec_abs() == h {
        // on the vertical axis the conversion keeps the exact sign
        assert(level.spec_mul(z) == z);
        if phi.spec_lt(z) {
            assert(phi.spec_neg() == h);
            assert(phi == h.spec_neg());
            assert(phi.spec_signum() == one.spec_neg());
            assert(level.spec_mul(one.spec_neg()) == one.spec_neg().spec_mul(level));
            assert(one.spec_neg().spec_mul(level) == one.spec_mul(level).spec_neg());
            assert(one.spec_mul(level) == level.spec_mul(one));
            assert(level.spec_neg().spec_lt(z.spec_neg()));
            assert(point.y.spec_lt(z));
            assert(Longitude::<T>::spec_angle_of(point) == h.spec_neg());
        } else {
            assert(z.spec_lt(phi));
            assert(phi == h);
            assert(phi.spec_signum() == one);
            assert(level.spec_mul(one) == level);
            assert(Longitude::<T>::spec_angle_of(point) == h);
        }
        assert(Longitude::<T>::spec_from(phi) == phi);
    } else if phi.spec_abs() == p {
        // the negative bound maps to the back point and wraps to itself
        assert(!phi.spec_lt(z) ==> phi.spec_abs() == phi);
        assert(phi.spec_lt(z));
        assert(phi.spec_neg() == p);
        assert(phi == p.spec_neg());
        assert(level.spec_mul(one.spec_neg()) == one.spec_neg().spec_mul(level));
        assert(one.spec_neg().spec_mul(level) == one.spec_mul(level).spec_neg());
        assert(one.spec_mul(level) == level.spec_mul(one));
        assert(level.spec_neg().spec_lt(z.spec_neg()));
        assert(point.x.spec_lt(z));
        assert(point.y == level.spec_mul(z));
        assert(point.y == z);
        lemma_zero_div(point.x);
        assert(z.spec_atan() == z);
        assert(Longitude::<T>::spec_angle_of(point) == z.spec_add(p));
        assert(z.spec_add(p) == p.spec_add(z));
        assert(Longitude::<T>::spec_angle_of(point) == p);
        // a half turn east of the meridian wraps to the western bound
        assert(!Longitude::<T>::in_range(p));
        assert(p.spec_add(p) == T::spec_tau());
        assert(T::spec_tau().spec_rem_euclid(T::spec_tau()) == z);
        assert(z.spec_sub(p) == p.spec_neg());
        assert(Longitude::<T>::spec_from(p) == p.spec_neg());
    } else if phi == z {
        // the meridian maps to the front point
        assert(point.x == level.spec_mul(one));
        assert(point.x == level);
        assert(point.y == level.spec_mul(z));
        assert(point.y == z);
        lemma_zero_div(point.x);
        assert(z.spec_atan() == z);
        assert(Longitude::<T>::spec_angle_of(point) == z);
        assert(Longitude::<T>::spec_from(z) == z);
    } else {
        // everywhere else the library trigonometry runs, quadrant by
        // quadrant
        assert(pair == (phi.spec_sin(), phi.spec_cos()));
        assert(!phi.spec_lt(z) ==> phi.spec_abs() == phi);
        assert(phi.spec_lt(z) ==> phi.spec_abs() == phi.spec_neg());
        if h.spec_lt(phi) {
            // eastern quadrant behind the meridian: x negative, y positive
            assert(phi.spec_lt(p));
            assert(phi.spec_cos().spec_lt(z));
            assert(z.spec_lt(h));
            assert(z.spec_lt(phi));
            assert(z.spec_lt(phi.spec_sin()));
            assert(phi.spec_cos().spec_mul(level).spec_lt(z.spec_mul(level)));
            assert(z.spec_mul(level) == level.spec_mul(z));
            assert(phi.spec_cos().spec_mul(level) == level.spec_mul(phi.spec_cos()));
            assert(point.x.spec_lt(z));
            assert(z.spec_lt(level.spec_mul(phi.spec_sin())));
            lemma_scaled_ratio(level, phi.spec_sin(), phi.spec_cos());
            lemma_ratio_shift_half_turn(phi);
            // the shifted angle falls inside the branch of the inverse
            // tangent
            let shifted = phi.spec_sub(p);
            assert(shifted == phi.spec_add(p.spec_neg()));
            assert(h.spec_add(p.spec_neg()).spec_lt(phi.spec_add(p.spec_neg())));
            assert(p.spec_neg() == h.spec_neg().spec_add(h.spec_neg()));
            T::law_add_assoc(h, h.spec_neg(), h.spec_neg());
            assert(h.spec_add(h.spec_neg()) == z);
            assert(z.spec_add(h.spec_neg()) == h.spec_neg().spec_add(z));
            assert(h.spec_add(p.spec_neg()) == h.spec_neg());
            assert(h.spec_neg().spec_lt(shifted));
            assert(phi.spec_add(p.spec_neg()).spec_lt(p.spec_add(p.spec_neg())));
            assert(p.spec_add(p.spec_neg()) == z);
            assert(shifted.spec_lt(z));
            assert(shifted.spec_lt(h));
            assert(shifted.spec_sin().spec_div(shifted.spec_cos()).spec_atan() == shifted);
            // undoing the shift recovers the longitude
            assert(Longitude::<T>::spec_angle_of(point) == shifted.spec_add(p));
            assert(shifted.spec_add(p) == phi.spec_add(p.spec_neg()).spec_add(p));
            T::law_add_assoc(phi, p.spec_neg(), p);
            assert(p.spec_neg().spec_add(p) == p.spec_add(p.spec_neg()));
            assert(phi.spec_add(z) == phi);
            assert(Longitude::<T>::spec_angle_of(point) == phi);
            assert(Longitude::<T>::spec_from(phi) == phi);
        } else if phi.spec_lt(h.spec_neg()) {
            // western quadrant behind the meridian: x and y both negative
            assert(T::spec_pi().spec_neg().spec_lt(phi)) by {
                if phi == p.spec_neg() {
                    assert(phi.spec_lt(z));
                    assert(phi.spec_abs() == phi.spec_neg());
                    assert(p.spec_neg().spec_neg() == p);
                }
            }
            assert(h.spec_lt(phi.spec_neg()));
            assert(p.spec_neg().spec_neg() == p);
            assert(phi.spec_neg().spec_lt(p));
            assert(phi.spec_neg().spec_cos().spec_lt(z));
            assert(phi.spec_neg().spec_cos() == phi.spec_cos());
            assert(z.spec_lt(phi.spec_neg().spec_sin()));
            assert(phi.spec_neg().spec_sin() == phi.spec_sin().spec_neg());
            assert(phi.spec_sin().spec_neg().spec_neg().spec_lt(z.spec_neg()));
            assert(phi.spec_sin().spec_neg().spec_neg() == phi.spec_sin());
            assert(phi.spec_sin().spec_lt(z));
            assert(phi.spec_cos().spec_mul(level).spec_lt(z.spec_mul(level)));
            assert(z.spec_mul(level) == level.spec_mul(z));
            assert(phi.spec_cos().spec_mul(level) == level.spec_mul(phi.spec_cos()));
            assert(point.x.spec_lt(z));
            assert(phi.spec_sin().spec_mul(level).spec_lt(z.spec_mul(level)));
            assert(phi.spec_sin().spec_mul(level) == level.spec_mul(phi.spec_sin()));
            assert(point.y.spec_lt(z));
            lemma_scaled_ratio(level, phi.spec_sin(), phi.spec_cos());
            // a half turn up lands inside the branch of the inverse tangent
            let shifted = phi.spec_add(p);
            assert(p.spec_neg().spec_add(p).spec_lt(phi.spec_add(p)));
            assert(p.spec_neg().spec_add(p) == p.spec_add(p.spec_neg()));
            assert(z.spec_lt(shifted));
            assert(phi.spec_add(p).spec_lt(h.spec_neg().spec_add(p)));
            assert(p == h.spec_add(h));
            T::law_add_assoc(h.spec_neg(), h, h);
            assert(h.spec_neg().spec_add(h) == h.spec_add(h.spec_neg()));
            assert(z.spec_add(h) == h.spec_add(z));
            assert(h.spec_neg().spec_add(p) == h);
            assert(shifted.spec_lt(h));
            assert(h.spec_neg().spec_lt(z));
            assert(h.spec_neg().spec_lt(shifted));
            assert(shifted.spec_sub(p) == shifted.spec_add(p.spec_neg()));
            T::law_add_assoc(phi, p, p.spec_neg());
            assert(p.spec_add(p.spec_neg()) == z);
            assert(phi.spec_add(z) == phi);
            assert(shifted.spec_sub(p) == phi);
            lemma_ratio_shift_half_turn(shifted);
            assert(shifted.spec_cos() != z) by {
                assert(shifted.spec_sub(p).spec_cos() == shifted.spec_cos().spec_neg());
                if shifted.spec_cos() == z {
                    assert(z.spec_sub(z) == z);
                    assert(z.spec_sub(z) == z.spec_neg());
                    assert(phi.spec_cos() == z);
                }
            }
            assert(shifted.spec_sin().spec_div(shifted.spec_cos()) == phi.spec_sin().spec_div(
                phi.spec_cos(),
            ));
            assert(shifted.spec_sin().spec_div(shifted.spec_cos()).spec_atan() == shifted);
            // undoing the shift recovers the longitude
            assert(Longitude::<T>::spec_angle_of(point) == shifted.spec_sub(p));
            assert(Longitude::<T>::spec_from(phi) == phi);
        } else {
            // the quadrants around the meridian: x positive
            assert(h.spec_neg().spec_lt(phi) && phi.spec_lt(h)) by {
                assert(phi != h && phi != h.spec_neg()) by {
                    if phi == h.spec_neg() {
                        assert(phi.spec_abs() == h.spec_neg().spec_neg());
                    }
                }
            }
            assert(z.spec_lt(phi.spec_cos()));
            assert(z.spec_lt(level.spec_mul(phi.spec_cos())));
            lemma_scaled_ratio(level, phi.spec_sin(), phi.spec_cos());
            assert(phi.spec_sin().spec_div(phi.spec_cos()).spec_atan() == phi);
            assert(Longitude::<T>::spec_angle_of(point) == phi);
            assert(Longitude::<T>::spec_from(phi) == phi);
        }
    }
}

/// The latitude of the cartesian image of a well-formed geographic point
/// away from the poles is the latitude the point started from.
proof fn lemma_latitude_round_trip<T: Scalar>(coords: Geographic<T>)
    requires
        coords.wf(),
        T::spec_frac_pi_2().spec_neg().spec_lt(coords.latitude.value()),
        coords.latitude.value().spec_lt(T::spec_frac_pi_2()),
    ensures
        Latitude::<T>::spec_from(
            T::spec_frac_pi_2().spec_sub(
                Latitude::<T>::spec_polar_of(Cartesian::spec_from_geographic(coords)),
            ),
        ) == coords.latitude.value(),
{
    T::laws_ring();
    T::laws_order();
    T::laws_sign();
    T::laws_trig();
    T::laws_inverse_trig();
    T::laws_sqrt();
    T::laws_consts();
    lemma_consts_positive::<T>();
    lemma_level_radius_positive(coords);
    lemma_polar_angle_bounds::<T>(coords.latitude.value());
    let z = T::spec_zero();
    let one = T::spec_one();
    let h = T::spec_frac_pi_2();
    let p = T::spec_pi();
    let latitude = coords.latitude.value();
    let phi = coords.longitude.value();
    let radial_distance = if coords.altitude.value() == z {
        one
    } else {
        coords.altitude.value()
    };
    let theta = h.spec_sub(latitude);
    let pair_theta = Cartesian::<T>::spec_precise_sin_cos(theta);
    let pair_phi = Cartesian::<T>::spec_precise_sin_cos(phi);
    let level = radial_distance.spec_mul(pair_theta.0);
    let point = Cartesian::spec_from_geographic(coords);
    // the planar radius of the image is exactly the level radius
    lemma_precise_sin_cos_unit::<T>(phi);
    lemma_mul_square(level, pair_phi.1);
    lemma_mul_square(level, pair_phi.0);
    T::law_mul_distrib(
        level.spec_mul(level),
        pair_phi.1.spec_mul(pair_phi.1),
        pair_phi.0.spec_mul(pair_phi.0),
    );
    assert(pair_phi.1.spec_mul(pair_phi.1).spec_add(pair_phi.0.spec_mul(pair_phi.0))
        == pair_phi.0.spec_mul(pair_phi.0).spec_add(pair_phi.1.spec_mul(pair_phi.1)));
    assert(point.x.spec_mul(point.x).spec_add(point.y.spec_mul(point.y)) == level.spec_mul(
        level,
    ).spec_mul(T::spec_one()));
    assert(point.x.spec_mul(point.x).spec_add(point.y.spec_mul(point.y)) == level.spec_mul(
        level,
    ));
    assert(!level.spec_lt(z));
    assert(level.spec_mul(level).spec_sqrt() == level);
    let rho = point.x.spec_mul(point.x).spec_add(point.y.spec_mul(point.y)).spec_sqrt();
    assert(rho == level);
    if theta == h {
        // on the equator the vertical coordinate is exactly zero and the
        // polar angle falls back to the quarter turn
        assert(pair_theta.1 == z);
        assert(point.z == radial_distance.spec_mul(z));
        assert(point.z == z);
        assert(Latitude::<T>::spec_polar_of(point) == h);
        assert(h.spec_sub(h) == z);
        assert(latitude == z);
        assert(Latitude::<T>::spec_from(z) == z);
    } else {
        assert(theta.spec_abs() == theta);
        assert(theta != p);
        assert(pair_theta == (theta.spec_sin(), theta.spec_cos()));
        assert(radial_distance != z);
        if theta.spec_lt(h) {
            // above the equator: the vertical coordinate is positive
            assert(h.spec_neg().spec_lt(z));
            assert(h.spec_neg().spec_lt(theta));
            assert(z.spec_lt(theta.spec_cos()));
            assert(z.spec_lt(radial_distance.spec_mul(theta.spec_cos())));
            lemma_scaled_ratio(radial_distance, theta.spec_sin(), theta.spec_cos());
            assert(rho.spec_div(point.z) == theta.spec_sin().spec_div(theta.spec_cos()));
            assert(theta.spec_sin().spec_div(theta.spec_cos()).spec_atan() == theta);
            assert(Latitude::<T>::spec_polar_of(point) == theta);
        } else {
            // below the equator: the vertical coordinate is negative and
            // the polar angle comes back shifted by a half turn
            assert(h.spec_lt(theta));
            assert(theta.spec_cos().spec_lt(z));
            assert(theta.spec_cos().spec_mul(radial_distance).spec_lt(
                z.spec_mul(radial_distance),
            ));
            assert(z.spec_mul(radial_distance) == radial_distance.spec_mul(z));
            assert(theta.spec_cos().spec_mul(radial_distance) == radial_distance.spec_mul(
                theta.spec_cos(),
            ));
            assert(point.z.spec_lt(z));
            lemma_scaled_ratio(radial_distance, theta.spec_sin(), theta.spec_cos());
            lemma_ratio_shift_half_turn(theta);
            let shifted = theta.spec_sub(p);
            assert(shifted == theta.spec_add(p.spec_neg()));
            assert(h.spec_add(p.spec_neg()).spec_lt(theta.spec_add(p.spec_neg())));
            assert(p.spec_neg() == h.spec_neg().spec_add(h.spec_neg()));
            T::law_add_assoc(h, h.spec_neg(), h.spec_neg());
            assert(h.spec_add(h.spec_neg()) == z);
            assert(z.spec_add(h.spec_neg()) == h.spec_neg().spec_add(z));
            assert(h.spec_add(p.spec_neg()) == h.spec_neg());
            assert(h.spec_neg().spec_lt(shifted));
            assert(theta.spec_add(p.spec_neg()).spec_lt(p.spec_add(p.spec_neg())));
            assert(p.spec_add(p.spec_neg()) == z);
            assert(shifted.spec_lt(z));
            assert(shifted.spec_lt(h));
            assert(rho.spec_div(point.z) == shifted.spec_sin().spec_div(shifted.spec_cos()));
            assert(shifted.spec_sin().spec_div(shifted.spec_cos()).spec_atan() == shifted);
            assert(Latitude::<T>::spec_polar_of(point) == p.spec_add(shifted));
            assert(p.spec_add(shifted) == p.spec_add(theta.spec_add(p.spec_neg())));
            assert(theta.spec_add(p.spec_neg()) == p.spec_neg().spec_add(theta));
            T::law_add_assoc(p, p.spec_neg(), theta);
            assert(z.spec_add(theta) == theta.spec_add(z));
            assert(Latitude::<T>::spec_polar_of(point) == theta);
        }
        assert(Latitude::<T>::spec_from(latitude) == latitude);
    }
}

/// The wraparound remap of the longitude leaves a value already within
/// `[-pi, pi)` unchanged.
proof fn lemma_wrap_fixes_in_range<T: Scalar>(value: T)
    requires
        Longitude::<T>::in_range(value),
    ensures
        value.spec_add(T::spec_pi()).spec_rem_euclid(T::spec_tau()).spec_sub(T::spec_pi())
            == value,
{
    T::laws_rem();
    T::laws_order();
    T::laws_ring();
    T::laws_consts();
    lemma_consts_positive::<T>();
    let z = T::spec_zero();
    let p = T::spec_pi();
    let tau = T::spec_tau();
    let lifted = value.spec_add(p);
    // the lifted angle lies within one period, so the remainder keeps it
    if p.spec_neg() == value {
        assert(lifted == p.spec_neg().spec_add(p));
        assert(p.spec_neg().spec_add(p) == p.spec_add(p.spec_neg()));
        assert(lifted == z);
    } else {
        assert(p.spec_neg().spec_lt(value));
        assert(p.spec_neg().spec_add(p).spec_lt(lifted));
        assert(p.spec_neg().spec_add(p) == p.spec_add(p.spec_neg()));
        assert(z.spec_lt(lifted));
    }
    assert(value.spec_add(p).spec_lt(p.spec_add(p)));
    assert(lifted.spec_rem_euclid(tau) == lifted);
    // and taking the lift back recovers the value
    T::law_add_assoc(value, p, p.spec_neg());
    assert(p.spec_add(p.spec_neg()) == z);
    assert(value.spec_add(z) == value);
    assert(lifted.spec_sub(p) == lifted.spec_add(p.spec_neg()));
}

/// The wraparound remap of the longitude repeats with a period of one
/// full turn.
proof fn lemma_wrap_periodic<T: Scalar>(value: T)
    ensures
        value.spec_add(T::spec_tau()).spec_add(T::spec_pi()).spec_rem_euclid(
            T::spec_tau(),
        ).spec_sub(T::spec_pi()) == value.spec_add(T::spec_pi()).spec_rem_euclid(
            T::spec_tau(),
        ).spec_sub(T::spec_pi()),
{
    T::laws_rem();
    T::laws_ring();
    lemma_consts_positive::<T>();
    let p = T::spec_pi();
    let tau = T::spec_tau();
    T::law_add_assoc(value, tau, p);
    assert(tau.spec_add(p) == p.spec_add(tau));
    T::law_add_assoc(value, p, tau);
    assert(value.spec_add(tau).spec_add(p) == value.spec_add(p).spec_add(tau));
    assert(value.spec_add(p).spec_add(tau).spec_rem_euclid(tau) == value.spec_add(
        p,
    ).spec_rem_euclid(tau));
}

/// Shifting any angle by one full turn does not change the longitude it
/// remaps to: both boundaries of the range are one point of the circle.
pub proof fn lemma_longitude_periodic<T: Scalar>(value: T)
    ensures
        Longitude::<T>::spec_from(value.spec_add(T::spec_tau())) == Longitude::<T>::spec_from(
            value,
        ),
{
    T::laws_order();
    T::laws_ring();
    T::laws_consts();
    lemma_consts_positive::<T>();
    lemma_wrap_periodic::<T>(value);
    let z = T::spec_zero();
    let p = T::spec_pi();
    let tau = T::spec_tau();
    let shifted = value.spec_add(tau);
    if Longitude::<T>::in_range(value) {
        // the shift leaves the range upwards, and wrapping it undoes it
        lemma_wrap_fixes_in_range::<T>(value);
        if p.spec_neg() == value {
            assert(shifted == p.spec_neg().spec_add(tau));
        } else {
            assert(p.spec_neg().spec_lt(value));
            assert(p.spec_neg().spec_add(tau).spec_lt(value.spec_add(tau)));
        }
        assert(p.spec_neg().spec_add(tau) == p.spec_neg().spec_add(p.spec_add(p)));
        T::law_add_assoc(p.spec_neg(), p, p);
        assert(p.spec_neg().spec_add(p) == p.spec_add(p.spec_neg()));
        assert(z.spec_add(p) == p.spec_add(z));
        assert(p.spec_neg().spec_add(tau) == p);
        assert(!shifted.spec_lt(p));
        assert(!Longitude::<T>::in_range(shifted));
    } else if Longitude::<T>::in_range(shifted) {
        // the shift lands inside the range, and wrapping the plain value
        // is the same as wrapping the shifted one, which it undoes
        lemma_wrap_fixes_in_range::<T>(shifted);
    } else {
        // neither side is in range: both wrap, one turn apart
    }
}

/// An angle less than one turn past the upper boundary remaps one full
/// turn down.
pub proof fn lemma_longitude_wraps_down<T: Scalar>(value: T)
    requires
        !value.spec_lt(T::spec_pi()),
        value.spec_lt(T::spec_pi().spec_add(T::spec_tau())),
    ensures
        Longitude::<T>::spec_from(value) == value.spec_sub(T::spec_tau()),
{
    T::laws_order();
    T::laws_ring();
    T::laws_consts();
    lemma_consts_positive::<T>();
    let z = T::spec_zero();
    let p = T::spec_pi();
    let tau = T::spec_tau();
    let reduced = value.spec_sub(tau);
    assert(reduced == value.spec_add(tau.spec_neg()));
    T::law_add_assoc(value, tau.spec_neg(), tau);
    assert(tau.spec_neg().spec_add(tau) == tau.spec_add(tau.spec_neg()));
    assert(value.spec_add(z) == value);
    assert(reduced.spec_add(tau) == value);
    // one turn down lands inside the range
    assert(Longitude::<T>::in_range(reduced)) by {
        assert(p.spec_add(tau.spec_neg()).spec_lt(value.spec_add(tau.spec_neg())) || p == value);
        assert(p.spec_add(tau.spec_neg()) == p.spec_sub(tau));
        assert(p.spec_sub(tau) == p.spec_neg()) by {
            assert(p.spec_sub(tau) == p.spec_add(p.spec_add(p).spec_neg()));
            assert(p.spec_add(p).spec_neg() == p.spec_neg().spec_add(p.spec_neg()));
            T::law_add_assoc(p, p.spec_neg(), p.spec_neg());
            assert(p.spec_add(p.spec_neg()) == z);
            assert(z.spec_add(p.spec_neg()) == p.spec_neg().spec_add(z));
        }
        assert(p == value ==> reduced == p.spec_neg());
        assert(value.spec_add(tau.spec_neg()).spec_lt(p.spec_add(tau).spec_add(tau.spec_neg())));
        T::law_add_assoc(p, tau, tau.spec_neg());
        assert(tau.spec_add(tau.spec_neg()) == z);
        assert(p.spec_add(z) == p);
    }
    // so the remap undoes the shift the periodicity introduces
    lemma_longitude_periodic::<T>(reduced);
    lemma_wrap_fixes_in_range::<T>(reduced);
    assert(Longitude::<T>::spec_from(reduced) == reduced);
    assert(!Longitude::<T>::in_range(value)) by {
        assert(!value.spec_lt(p));
    }
}

/// An angle less than one turn below the lower boundary remaps one full
/// turn up.
pub proof fn lemma_longitude_wraps_up<T: Scalar>(value: T)
    requires
        T::spec_pi().spec_neg().spec_sub(T::spec_tau()).spec_lt(value),
        value.spec_lt(T::spec_pi().spec_neg()),
    ensures
        Longitude::<T>::spec_from(value) == value.spec_add(T::spec_tau()),
{
    T::laws_order();
    T::laws_ring();
    T::laws_consts();
    lemma_consts_positive::<T>();
    let z = T::spec_zero();
    let p = T::spec_pi();
    let tau = T::spec_tau();
    let lifted = value.spec_add(tau);
    // one turn up lands inside the range
    assert(Longitude::<T>::in_range(lifted)) by {
        assert(p.spec_neg().spec_sub(tau).spec_add(tau).spec_lt(lifted));
        assert(p.spec_neg().spec_sub(tau) == p.spec_neg().spec_add(tau.spec_neg()));
        T::law_add_assoc(p.spec_neg(), tau.spec_neg(), tau);
        assert(tau.spec_neg().spec_add(tau) == tau.spec_add(tau.spec_neg()));
        assert(p.spec_neg().spec_add(z) == p.spec_neg());
        assert(value.spec_add(tau).spec_lt(p.spec_neg().spec_add(tau)));
        assert(p.spec_neg().spec_add(tau) == p.spec_neg().spec_add(p.spec_add(p)));
        T::law_add_assoc(p.spec_neg(), p, p);
        assert(p.spec_neg().spec_add(p) == p.spec_add(p.spec_neg()));
        assert(z.spec_add(p) == p.spec_add(z));
        assert(p.spec_neg().spec_add(tau) == p);
    }
    lemma_longitude_periodic::<T>(value);
    lemma_wrap_fixes_in_range::<T>(lifted);
    assert(Longitude::<T>::spec_from(lifted) == lifted);
}

/// The sine repeats with a period of one full turn.
proof fn lemma_sin_full_turn<T: Scalar>(value: T)
    ensures
        value.spec_add(T::spec_tau()).spec_sin() == value.spec_sin(),
{
    T::laws_trig();
    T::laws_ring();
    T::laws_consts();
    let p = T::spec_pi();
    let tau = T::spec_tau();
    let shifted = value.spec_add(tau);
    // two half-turn shifts flip the sign twice
    assert(shifted.spec_sub(p).spec_sin() == shifted.spec_sin().spec_neg());
    assert(shifted.spec_sub(p).spec_sub(p).spec_sin() == shifted.spec_sub(p).spec_sin().spec_neg());
    assert(shifted.spec_sub(p).spec_sub(p) == value) by {
        assert(shifted.spec_sub(p) == shifted.spec_add(p.spec_neg()));
        T::law_add_assoc(value, tau, p.spec_neg());
        assert(tau.spec_add(p.spec_neg()) == p.spec_add(p).spec_add(p.spec_neg()));
        T::law_add_assoc(p, p, p.spec_neg());
        assert(p.spec_add(p.spec_neg()) == T::spec_zero());
        assert(p.spec_add(T::spec_zero()) == p);
        assert(shifted.spec_sub(p) == value.spec_add(p));
        assert(value.spec_add(p).spec_sub(p) == value.spec_add(p).spec_add(p.spec_neg()));
        T::law_add_assoc(value, p, p.spec_neg());
        assert(value.spec_add(T::spec_zero()) == value);
    }
    assert(value.spec_sin().spec_neg().spec_neg() == value.spec_sin());
}

/// Shifting any angle by one full turn does not change the latitude it
/// refolds to.
pub proof fn lemma_latitude_periodic<T: Scalar>(value: T)
    ensures
        Latitude::<T>::spec_from(value.spec_add(T::spec_tau())) == Latitude::<T>::spec_from(
            value,
        ),
{
    T::laws_order();
    T::laws_ring();
    T::laws_consts();
    T::laws_inverse_trig();
    lemma_consts_positive::<T>();
    lemma_sin_full_turn::<T>(value);
    let z = T::spec_zero();
    let h = T::spec_frac_pi_2();
    let p = T::spec_pi();
    let tau = T::spec_tau();
    let shifted = value.spec_add(tau);
    if Latitude::<T>::in_range(value) {
        // the shift leaves the range upwards: one turn above the lower
        // bound is already three quarter turns
        assert(h.spec_neg().spec_add(tau) == h.spec_add(p)) by {
            assert(h.spec_neg().spec_add(tau) == h.spec_neg().spec_add(p.spec_add(p)));
            T::law_add_assoc(h.spec_neg(), p, p);
            assert(h.spec_neg().spec_add(p) == h.spec_neg().spec_add(h.spec_add(h)));
            T::law_add_assoc(h.spec_neg(), h, h);
            assert(h.spec_neg().spec_add(h) == h.spec_add(h.spec_neg()));
            assert(z.spec_add(h) == h.spec_add(z));
            assert(h.spec_neg().spec_add(p) == h);
            assert(h.spec_add(p) == p.spec_add(h));
        }
        assert(h.spec_lt(h.spec_neg().spec_add(tau))) by {
            assert(z.spec_add(h).spec_lt(p.spec_add(h)));
            assert(z.spec_add(h) == h.spec_add(z));
            assert(h.spec_add(p) == p.spec_add(h));
        }
        if h.spec_neg() == value {
            assert(shifted == h.spec_neg().spec_add(tau));
        } else {
            assert(h.spec_neg().spec_lt(value));
            assert(h.spec_neg().spec_add(tau).spec_lt(value.spec_add(tau)));
        }
        assert(h.spec_lt(shifted));
        assert(!Latitude::<T>::in_range(shifted));
        // and the inverse sine undoes the refold of the shifted angle
        assert(!value.spec_lt(h.spec_neg()) && !h.spec_lt(value));
        assert(value.spec_sin().spec_asin() == value);
    } else if Latitude::<T>::in_range(shifted) {
        // the shift lands inside the range and the inverse sine recovers it
        assert(!shifted.spec_lt(h.spec_neg()) && !h.spec_lt(shifted));
        assert(shifted.spec_sin().spec_asin() == shifted);
    } else {
        // neither side is in range: both refold equal sines
    }
}

/// An angle mirrored across the upper pole refolds to the mirrored
/// latitude: between a quarter turn and three quarter turns, the refold
/// yields the supplement of the angle.
pub proof fn lemma_latitude_mirror<T: Scalar>(value: T)
    requires
        !value.spec_lt(T::spec_frac_pi_2()),
        !T::spec_pi().spec_add(T::spec_frac_pi_2()).spec_lt(value),
    ensures
        Latitude::<T>::spec_from(value) == T::spec_pi().spec_sub(value),
{
    T::laws_order();
    T::laws_ring();
    T::laws_trig();
    T::laws_consts();
    T::laws_inverse_trig();
    lemma_consts_positive::<T>();
    let z = T::spec_zero();
    let h = T::spec_frac_pi_2();
    let p = T::spec_pi();
    let mirrored = p.spec_sub(value);
    // the mirrored angle lies inside the range
    assert(!mirrored.spec_lt(h.spec_neg())) by {
        lemma_neg_le(value, p.spec_add(h));
        lemma_add_le(p.spec_add(h).spec_neg(), value.spec_neg(), p);
        assert(mirrored == p.spec_add(value.spec_neg()));
        assert(p.spec_add(p.spec_add(h).spec_neg()) == h.spec_neg()) by {
            assert(p.spec_add(h).spec_neg() == p.spec_neg().spec_add(h.spec_neg()));
            T::law_add_assoc(p, p.spec_neg(), h.spec_neg());
            assert(p.spec_add(p.spec_neg()) == z);
            assert(z.spec_add(h.spec_neg()) == h.spec_neg().spec_add(z));
        }
    }
    assert(!h.spec_lt(mirrored)) by {
        lemma_neg_le(h, value);
        lemma_add_le(value.spec_neg(), h.spec_neg(), p);
        assert(mirrored == p.spec_add(value.spec_neg()));
        assert(p.spec_add(h.spec_neg()) == h) by {
            assert(p == h.spec_add(h));
            T::law_add_assoc(h, h, h.spec_neg());
            assert(h.spec_add(h.spec_neg()) == z);
            assert(h.spec_add(z) == h);
        }
    }
    // its sine is the sine of the angle itself
    assert(mirrored.spec_sin() == value.spec_sin()) by {
        assert(value.spec_sub(p).spec_sin() == value.spec_sin().spec_neg());
        assert(value.spec_sub(p).spec_neg() == mirrored) by {
            assert(value.spec_sub(p) == value.spec_add(p.spec_neg()));
            assert(value.spec_add(p.spec_neg()).spec_neg() == value.spec_neg().spec_add(
                p.spec_neg().spec_neg(),
            ));
            assert(p.spec_neg().spec_neg() == p);
            assert(value.spec_neg().spec_add(p) == p.spec_add(value.spec_neg()));
            assert(mirrored == p.spec_add(value.spec_neg()));
        }
        assert(value.spec_sub(p).spec_neg().spec_sin() == value.spec_sub(p).spec_sin().spec_neg());
        assert(value.spec_sin().spec_neg().spec_neg() == value.spec_sin());
    }
    // so the inverse sine of the refold yields the mirrored angle
    if value == h {
        assert(Latitude::<T>::in_range(value));
        assert(mirrored == h.spec_add(h).spec_add(h.spec_neg())) by {
            assert(mirrored == p.spec_add(h.spec_neg()));
            assert(p == h.spec_add(h));
        }
        assert(mirrored == h) by {
            T::law_add_assoc(h, h, h.spec_neg());
            assert(h.spec_add(h.spec_neg()) == z);
            assert(h.spec_add(z) == h);
        }
    } else {
        assert(h.spec_lt(value));
        assert(!Latitude::<T>::in_range(value));
        assert(mirrored.spec_sin().spec_asin() == mirrored);
    }
}

/// The great-circle distance between any two points lies within `[0, pi]`:
/// the argument of the inverse cosine never leaves `[-1, 1]`.
pub proof fn lemma_distance_in_range<T: Scalar>(a: Geographic<T>, b: Geographic<T>)
    ensures
        !a.spec_distance(b).spec_lt(T::spec_zero()),
        !T::spec_pi().spec_lt(a.spec_distance(b)),
{
    T::laws_ring();
    T::laws_order();
    T::laws_trig();
    T::laws_inverse_trig();
    lemma_consts_positive::<T>();
    let z = T::spec_zero();
    let one = T::spec_one();
    let x = a.latitude.value();
    let y = b.latitude.value();
    let diff = a.longitude.value().spec_sub(b.longitude.value()).spec_abs();
    let prod_sin = x.spec_sin().spec_mul(y.spec_sin());
    let prod_cos = x.spec_cos().spec_mul(y.spec_cos());
    let cos_diff = diff.spec_cos();
    let argument = prod_sin.spec_add(prod_cos.spec_mul(cos_diff));
    // the cosines of the latitude difference and sum are the two marks the
    // argument stays between
    let lower_mark = x.spec_sub(y).spec_cos();
    assert(lower_mark == prod_cos.spec_add(prod_sin));
    assert(prod_sin.spec_add(prod_cos) == lower_mark);
    let upper_mark = x.spec_sub(y.spec_neg()).spec_cos();
    assert(upper_mark == prod_cos.spec_add(prod_sin.spec_neg())) by {
        assert(y.spec_neg().spec_cos() == y.spec_cos());
        assert(y.spec_neg().spec_sin() == y.spec_sin().spec_neg());
        assert(x.spec_sin().spec_mul(y.spec_sin().spec_neg()) == y.spec_sin().spec_neg().spec_mul(
            x.spec_sin(),
        ));
        assert(y.spec_sin().spec_neg().spec_mul(x.spec_sin()) == y.spec_sin().spec_mul(
            x.spec_sin(),
        ).spec_neg());
        assert(y.spec_sin().spec_mul(x.spec_sin()) == prod_sin);
    }
    assert(prod_sin.spec_add(prod_cos.spec_neg()) == upper_mark.spec_neg()) by {
        assert(upper_mark.spec_neg() == prod_cos.spec_neg().spec_add(
            prod_sin.spec_neg().spec_neg(),
        ));
        assert(prod_sin.spec_neg().spec_neg() == prod_sin);
        assert(prod_cos.spec_neg().spec_add(prod_sin) == prod_sin.spec_add(prod_cos.spec_neg()));
    }
    // the scaled cosine stays between the product and its negation
    if prod_cos.spec_lt(z) {
        let flipped = prod_cos.spec_neg();
        assert(z.spec_neg().spec_lt(flipped));
        assert(!flipped.spec_lt(z));
        lemma_mul_le(one.spec_neg(), cos_diff, flipped);
        lemma_mul_le(cos_diff, one, flipped);
        // the scaled flipped cosine is the negated scaled cosine
        assert(cos_diff.spec_mul(flipped) == prod_cos.spec_mul(cos_diff).spec_neg()) by {
            assert(cos_diff.spec_mul(flipped) == flipped.spec_mul(cos_diff));
            assert(flipped.spec_mul(cos_diff) == prod_cos.spec_mul(cos_diff).spec_neg());
        }
        assert(one.spec_neg().spec_mul(flipped) == prod_cos) by {
            assert(one.spec_neg().spec_mul(flipped) == one.spec_mul(flipped).spec_neg());
            assert(one.spec_mul(flipped) == flipped.spec_mul(one));
            assert(flipped.spec_mul(one) == flipped);
            assert(prod_cos.spec_neg().spec_neg() == prod_cos);
        }
        assert(one.spec_mul(flipped) == flipped) by {
            assert(one.spec_mul(flipped) == flipped.spec_mul(one));
        }
        // so the scaled cosine lies between the product and its negation
        lemma_neg_le(prod_cos, prod_cos.spec_mul(cos_diff).spec_neg());
        lemma_neg_le(prod_cos.spec_mul(cos_diff).spec_neg(), flipped);
        assert(prod_cos.spec_mul(cos_diff).spec_neg().spec_neg() == prod_cos.spec_mul(cos_diff));
        assert(flipped.spec_neg() == prod_cos);
        // the argument stays between the marks
        lemma_add_le(prod_cos, prod_cos.spec_mul(cos_diff), prod_sin);
        lemma_add_le(prod_cos.spec_mul(cos_diff), prod_cos.spec_neg(), prod_sin);
    } else {
        lemma_mul_le(one.spec_neg(), cos_diff, prod_cos);
        lemma_mul_le(cos_diff, one, prod_cos);
        assert(one.spec_neg().spec_mul(prod_cos) == prod_cos.spec_neg()) by {
            assert(one.spec_neg().spec_mul(prod_cos) == one.spec_mul(prod_cos).spec_neg());
            assert(one.spec_mul(prod_cos) == prod_cos.spec_mul(one));
            assert(prod_cos.spec_mul(one) == prod_cos);
        }
        assert(cos_diff.spec_mul(prod_cos) == prod_cos.spec_mul(cos_diff));
        assert(one.spec_mul(prod_cos) == prod_cos) by {
            assert(one.spec_mul(prod_cos) == prod_cos.spec_mul(one));
        }
        // the argument stays between the marks
        lemma_add_le(prod_cos.spec_neg(), prod_cos.spec_mul(cos_diff), prod_sin);
        lemma_add_le(prod_cos.spec_mul(cos_diff), prod_cos, prod_sin);
    }
    // between the marks means within [-1, 1]
    assert(!argument.spec_lt(one.spec_neg())) by {
        lemma_neg_le(upper_mark, one);
        if argument.spec_lt(one.spec_neg()) {
            assert(upper_mark.spec_neg().spec_lt(argument) || upper_mark.spec_neg() == argument
                || argument.spec_lt(upper_mark.spec_neg()));
            assert(lower_mark.spec_lt(argument) || lower_mark == argument || argument.spec_lt(
                lower_mark,
            ));
            assert(false);
        }
    }
    assert(!one.spec_lt(argument)) by {
        lemma_neg_le(one.spec_neg(), upper_mark);
        assert(one.spec_neg().spec_neg() == one);
        if one.spec_lt(argument) {
            assert(argument.spec_lt(lower_mark) || argument == lower_mark || lower_mark.spec_lt(
                argument,
            ));
            assert(argument.spec_lt(upper_mark.spec_neg()) || argument == upper_mark.spec_neg()
                || upper_mark.spec_neg().spec_lt(argument));
            assert(false);
        }
    }
    // the inverse cosine of a value in [-1, 1] lies within [0, pi]
    assert(!argument.spec_acos().spec_lt(z) && !T::spec_pi().spec_lt(argument.spec_acos()));
}

/// Converting a geographic point to cartesian coordinates and converting
/// the image back recovers the point exactly, wherever its direction is
/// non-degenerate: anywhere away from the two poles and with a non-zero
/// altitude.
pub proof fn lemma_geographic_round_trip<T: Scalar>(coords: Geographic<T>)
    requires
        coords.wf(),
        T::spec_frac_pi_2().spec_neg().spec_lt(coords.latitude.value()),
        coords.latitude.value().spec_lt(T::spec_frac_pi_2()),
        coords.altitude.value() != T::spec_zero(),
    ensures
        Geographic::spec_from_cartesian(Cartesian::spec_from_geographic(coords)) == coords,
{
    lemma_longitude_round_trip(coords);
    lemma_latitude_round_trip(coords);
    lemma_from_geographic_magnitude(coords);
}

} // verus!
