//! Arc shape iterator.

use vstd::prelude::*;

use crate::cartesian::lemma_from_geographic_magnitude;
use crate::cartesian::lemma_normal_unit;
use crate::cartesian::Cartesian;
use crate::geographic::lemma_north_unit_converts_back;
use crate::geographic::lemma_origin_converts_to_default;
use crate::geographic::lemma_south_unit_converts_back;
use crate::geographic::Altitude;
use crate::geographic::Geographic;
use crate::geographic::Latitude;
use crate::positive::Positive;
use crate::radian::Radian;
use crate::scalar::lemma_consts_positive;
use crate::scalar::lemma_from_usize_pos;
use crate::scalar::Scalar;
use crate::transform::rotation::lemma_rotation_zero_identity;
use crate::transform::Rotation;
use crate::transform::Transform;

verus! {

/// An arc between two points in a globe.
#[derive(Debug, Clone, Copy)]
pub struct Arc<T> {
    /// The initial endpoint of the arc.
    pub from: Geographic<T>,
    /// The final endpoint of the arc.
    pub to: Geographic<T>,
    /// The total amount of segments (straight lines) the arc is made of,
    /// which must be at least one.
    pub segments: usize,
}

impl<T: Scalar> Arc<T> {
    /// The unit vector of the cartesian direction of the initial endpoint.
    pub open spec fn spec_from_unit(self) -> Cartesian<T> {
        Cartesian::spec_from_geographic(self.from).spec_normal()
    }

    /// The unit vector of the cartesian direction of the final endpoint.
    pub open spec fn spec_to_unit(self) -> Cartesian<T> {
        Cartesian::spec_from_geographic(self.to).spec_normal()
    }

    /// The rotation one segment of the arc applies: its axis is the cross
    /// product of the two unit endpoints, so that it is perpendicular to
    /// the plane that contains both, and its angle is the angle between
    /// them divided by the amount of segments.
    pub open spec fn spec_rotation(self) -> Rotation<T> {
        Rotation {
            axis: self.spec_from_unit().spec_cross(self.spec_to_unit()),
            theta: Radian(
                Radian::spec_from(
                    self.spec_from_unit().spec_dot(self.spec_to_unit()).spec_acos().spec_div(
                        T::spec_from_usize(self.segments),
                    ),
                ),
            ),
        }
    }

    /// Returns the arc with both endpoints at the degenerate origin and the
    /// given amount of segments.
    pub fn new(segments: usize) -> (r: Self)
        requires
            1 <= segments,
        ensures
            r.from == Geographic::<T>::spec_default(),
            r.to == Geographic::<T>::spec_default(),
            r.segments == segments,
    {
        Arc { from: Geographic::default(), to: Geographic::default(), segments }
    }

    /// Returns self with its initial endpoint replaced.
    pub fn with_from(self, from: Geographic<T>) -> (r: Self)
        ensures
            r == (Arc { from, ..self }),
    {
        Arc { from, ..self }
    }

    /// Returns self with its final endpoint replaced.
    pub fn with_to(self, to: Geographic<T>) -> (r: Self)
        ensures
            r == (Arc { to, ..self }),
    {
        Arc { to, ..self }
    }

    /// Returns the iterator over the points of the arc.
    ///
    /// The amount of segments stays below the machine bound so that the
    /// iterator can count one index past its last point.
    pub fn into_iter(self) -> (it: ArcIter<T>)
        requires
            self.segments < usize::MAX,
        ensures
            it.spec_from() == self.spec_from_unit(),
            it.spec_to() == self.spec_to_unit(),
            it.spec_total_segments() == self.segments,
            it.spec_next_segment() == 0,
            it.spec_rotation() == self.spec_rotation(),
    {
        let from = Cartesian::from(self.from).normal();
        let to = Cartesian::from(self.to).normal();

        let rotation = Rotation::noop().with_axis(from.cross(&to)).with_theta(
            // the formula for the angle (in radians) between the two
            // vectors is the arccosine of the division between the dot
            // product and the product of the magnitudes; both vectors being
            // normalized, it reduces to the arccosine of the dot product
            Radian::from(from.dot(&to).acos().div(T::from_usize(self.segments))),
        );

        ArcIter { from, to, total_segments: self.segments, next_segment: 0, rotation }
    }
}

/// Iterator over the [`Arc`] shape: a one-shot cursor that yields one
/// geographic point per segment boundary, the amount of segments plus one
/// points in all.
#[derive(Debug)]
pub struct ArcIter<T> {
    from: Cartesian<T>,
    to: Cartesian<T>,
    total_segments: usize,
    next_segment: usize,
    rotation: Rotation<T>,
}

impl<T> ArcIter<T> {
    /// The amount of segments leaves room for the cursor to count one
    /// index past the last point.
    #[verifier::type_invariant]
    spec fn inv(self) -> bool {
        self.total_segments < usize::MAX
    }
}

impl<T: Scalar> ArcIter<T> {
    /// The unit vector of the initial endpoint of the arc.
    pub closed spec fn spec_from(self) -> Cartesian<T> {
        self.from
    }

    /// The unit vector of the final endpoint of the arc.
    pub closed spec fn spec_to(self) -> Cartesian<T> {
        self.to
    }

    /// The total amount of segments of the arc.
    pub closed spec fn spec_total_segments(self) -> usize {
        self.total_segments
    }

    /// The index of the next point to yield.
    pub closed spec fn spec_next_segment(self) -> usize {
        self.next_segment
    }

    /// The rotation one segment of the arc applies.
    pub closed spec fn spec_rotation(self) -> Rotation<T> {
        self.rotation
    }

    /// The geographic point the iterator yields for the given segment
    /// index: the final endpoint converted back to geographic coordinates
    /// for the last index, and, for any earlier index, the initial endpoint
    /// rotated by the index times the segment angle and converted back.
    /// Yielding the final endpoint directly, instead of the last rotated
    /// point, keeps floating error from accumulating away from it.
    pub open spec fn spec_point(self, i: usize) -> Geographic<T> {
        if i == self.spec_total_segments() {
            Geographic::spec_from_cartesian(self.spec_to())
        } else {
            Geographic::spec_from_cartesian(
                (Rotation {
                    axis: self.spec_rotation().axis,
                    theta: Radian(
                        Radian::spec_from(
                            self.spec_rotation().theta.value().spec_mul(T::spec_from_usize(i)),
                        ),
                    ),
                }).spec_rotated(self.spec_from()),
            )
        }
    }

    /// Yields the point of the next segment boundary, or nothing once every
    /// boundary of the arc is done.
    pub fn next(&mut self) -> (r: Option<Geographic<T>>)
        ensures
            old(self).spec_next_segment() > old(self).spec_total_segments() ==> r == None::<
                Geographic<T>,
            > && *final(self) == *old(self),
            old(self).spec_next_segment() <= old(self).spec_total_segments() ==> r == Some(
                old(self).spec_point(old(self).spec_next_segment()),
            ) && final(self).spec_next_segment() == old(self).spec_next_segment() + 1
                && final(self).spec_from() == old(self).spec_from() && final(self).spec_to() == old(
                self,
            ).spec_to() && final(self).spec_total_segments() == old(self).spec_total_segments()
                && final(self).spec_rotation() == old(self).spec_rotation(),
    {
        proof {
            use_type_invariant(&*self);
        }
        if self.next_segment > self.total_segments {
            return None;
        }

        if self.next_segment == self.total_segments {
            self.next_segment = self.next_segment + 1;
            return Some(Geographic::from(self.to));
        }

        let next = Rotation::noop().with_axis(self.rotation.axis).with_theta(
            self.rotation.theta.mul(T::from_usize(self.next_segment)),
        ).transform(self.from);

        self.next_segment = self.next_segment + 1;
        Some(Geographic::from(next))
    }
}

/// An arc whose endpoints coincide collapses: every point an iterator over
/// it yields is the same point, namely the shared endpoint carried onto
/// the unit sphere of its direction and back to geographic coordinates.
pub proof fn lemma_arc_with_equal_endpoints<T: Scalar>(arc: Arc<T>, it: ArcIter<T>)
    requires
        arc.from == arc.to,
        arc.from.altitude.wf(),
        1 <= arc.segments,
        it.spec_from() == arc.spec_from_unit(),
        it.spec_to() == arc.spec_to_unit(),
        it.spec_total_segments() == arc.segments,
        it.spec_rotation() == arc.spec_rotation(),
    ensures
        forall|i: usize|
            i <= arc.segments ==> #[trigger] it.spec_point(i) == Geographic::spec_from_cartesian(
                arc.spec_from_unit(),
            ),
{
    T::laws_ring();
    T::laws_order();
    T::laws_div();
    T::laws_rem();
    T::laws_inverse_trig();
    lemma_consts_positive::<T>();
    // the shared endpoint has a positive radial distance, so its direction
    // normalizes to a unit vector and the angle between the endpoints is
    // the inverse cosine of one: zero
    lemma_from_geographic_magnitude(arc.from);
    lemma_normal_unit(Cartesian::spec_from_geographic(arc.from));
    let u = arc.spec_from_unit();
    assert(u.spec_dot(u) == T::spec_one());
    // dividing the zero angle among the segments leaves the angle zero
    lemma_from_usize_pos::<T>(arc.segments);
    let count = T::spec_from_usize(arc.segments);
    assert(count != T::spec_zero());
    assert(T::spec_zero().spec_mul(count) == count.spec_mul(T::spec_zero()));
    assert(T::spec_zero().spec_mul(count).spec_div(count) == T::spec_zero());
    assert(Radian::<T>::in_range(T::spec_zero()));
    assert(it.spec_rotation().theta.value() == T::spec_zero());
    // so every rotation the iterator applies is the identity
    assert forall|i: usize| i <= arc.segments implies #[trigger] it.spec_point(i)
        == Geographic::spec_from_cartesian(arc.spec_from_unit()) by {
        if i == arc.segments {
            assert(it.spec_point(i) == Geographic::spec_from_cartesian(it.spec_to()));
        } else {
            let step = Rotation {
                axis: it.spec_rotation().axis,
                theta: Radian(
                    Radian::<T>::spec_from(
                        it.spec_rotation().theta.value().spec_mul(T::spec_from_usize(i)),
                    ),
                ),
            };
            assert(T::spec_zero().spec_mul(T::spec_from_usize(i)) == T::spec_from_usize(
                i,
            ).spec_mul(T::spec_zero()));
            assert(step.theta.value() == T::spec_zero());
            lemma_rotation_zero_identity(step, it.spec_from());
        }
    }
}

/// The poles of the unit sphere convert to the two vertical unit vectors:
/// their polar angles are the exact multiples of a quarter turn the
/// precision helper pins down.
proof fn lemma_pole_units<T: Scalar>(arc: Arc<T>)
    requires
        arc.from == (Geographic {
            latitude: Latitude(T::spec_frac_pi_2()),
            ..Geographic::<T>::spec_default()
        }),
        arc.to == (Geographic {
            latitude: Latitude(T::spec_frac_pi_2().spec_neg()),
            ..Geographic::<T>::spec_default()
        }),
    ensures
        arc.spec_from_unit() == (Cartesian {
            x: T::spec_zero(),
            y: T::spec_zero(),
            z: T::spec_one(),
        }),
        arc.spec_to_unit() == (Cartesian {
            x: T::spec_zero(),
            y: T::spec_zero(),
            z: T::spec_one().spec_neg(),
        }),
{
    T::laws_ring();
    T::laws_order();
    T::laws_sign();
    T::laws_consts();
    T::laws_div();
    lemma_consts_positive::<T>();
    let z = T::spec_zero();
    let one = T::spec_one();
    let h = T::spec_frac_pi_2();
    // the north pole: polar angle and azimuth both zero
    let north_cart = Cartesian::spec_from_geographic(arc.from);
    assert(h.spec_sub(h) == z);
    assert(z.spec_abs() == z);
    assert(Cartesian::<T>::spec_precise_sin_cos(z) == (z, one));
    assert(one.spec_mul(z) == z);
    assert(z.spec_mul(one) == one.spec_mul(z));
    assert(z.spec_mul(z) == z);
    assert(one.spec_mul(one) == one);
    assert(north_cart == (Cartesian { x: z, y: z, z: one }));
    // the south pole: its polar angle is a half turn
    let south_cart = Cartesian::spec_from_geographic(arc.to);
    assert(h.spec_sub(h.spec_neg()) == h.spec_add(h.spec_neg().spec_neg()));
    assert(h.spec_sub(h.spec_neg()) == T::spec_pi());
    assert(T::spec_pi().spec_abs() == T::spec_pi());
    assert(T::spec_pi() != h);
    assert(Cartesian::<T>::spec_precise_sin_cos(T::spec_pi()) == (z, one.spec_neg()));
    assert(one.spec_mul(one.spec_neg()) == one.spec_neg().spec_mul(one));
    assert(one.spec_neg().spec_mul(one) == one.spec_neg());
    assert(south_cart == (Cartesian { x: z, y: z, z: one.spec_neg() }));
    // both sit at distance one, so normalizing divides by one
    lemma_from_geographic_magnitude(arc.from);
    lemma_from_geographic_magnitude(arc.to);
    assert(north_cart.spec_magnitude() == one);
    assert(south_cart.spec_magnitude() == one);
    assert(z.spec_div(one) == z);
    assert(one.spec_div(one) == one);
    assert(one.spec_neg().spec_div(one) == one.spec_neg());
}

/// An arc of two segments between the poles carries the ambiguous
/// rotation of the antipodal pair: the zero axis, and a quarter turn per
/// segment.
proof fn lemma_pole_rotation<T: Scalar>(arc: Arc<T>)
    requires
        arc.from == (Geographic {
            latitude: Latitude(T::spec_frac_pi_2()),
            ..Geographic::<T>::spec_default()
        }),
        arc.to == (Geographic {
            latitude: Latitude(T::spec_frac_pi_2().spec_neg()),
            ..Geographic::<T>::spec_default()
        }),
        arc.segments == 2,
    ensures
        arc.spec_rotation() == (Rotation {
            axis: Cartesian::<T>::spec_origin(),
            theta: Radian(T::spec_frac_pi_2()),
        }),
{
    lemma_pole_units(arc);
    T::laws_ring();
    T::laws_order();
    T::laws_div();
    T::laws_consts();
    T::laws_inverse_trig();
    lemma_consts_positive::<T>();
    let z = T::spec_zero();
    let one = T::spec_one();
    let h = T::spec_frac_pi_2();
    let north_unit = arc.spec_from_unit();
    let south_unit = arc.spec_to_unit();
    // the cross product of opposite vectors vanishes
    assert(z.spec_mul(one.spec_neg()) == one.spec_neg().spec_mul(z));
    assert(one.spec_mul(z) == z.spec_mul(one));
    assert(z.spec_mul(z) == z);
    assert(z.spec_sub(z) == z);
    assert(north_unit.spec_cross(south_unit) == Cartesian::<T>::spec_origin());
    // their angle is the inverse cosine of minus one: a half turn, so a
    // quarter turn for each of the two segments
    assert(one.spec_mul(one.spec_neg()) == one.spec_neg());
    assert(z.spec_add(one.spec_neg()) == one.spec_neg().spec_add(z));
    assert(north_unit.spec_dot(south_unit) == one.spec_neg());
    let two = one.spec_add(one);
    assert(T::spec_from_usize(2) == T::spec_from_usize(1).spec_add(one));
    assert(T::spec_from_usize(1) == T::spec_from_usize(0).spec_add(one));
    assert(z.spec_add(one) == one.spec_add(z));
    assert(T::spec_from_usize(2) == two);
    T::law_mul_distrib(h, one, one);
    assert(h.spec_mul(two) == h.spec_add(h));
    assert(z.spec_add(one).spec_lt(one.spec_add(one)));
    assert(z.spec_lt(two));
    assert(two != z);
    assert(h.spec_mul(two).spec_div(two) == h);
    assert(T::spec_pi().spec_div(two) == h);
    assert(Radian::<T>::in_range(h));
}

/// A quarter turn about the zero axis collapses the upward unit vector
/// onto the coordinate origin: every coefficient of the formula carries
/// either the zero axis or the exact cosine zero.
proof fn lemma_quarter_turn_collapses<T: Scalar>()
    ensures
        (Rotation {
            axis: Cartesian::<T>::spec_origin(),
            theta: Radian(T::spec_frac_pi_2()),
        }).spec_rotated(Cartesian { x: T::spec_zero(), y: T::spec_zero(), z: T::spec_one() })
            == (Cartesian { x: T::spec_zero(), y: T::spec_zero(), z: T::spec_zero() }),
{
    T::laws_ring();
    T::laws_trig();
    let z = T::spec_zero();
    let one = T::spec_one();
    let h = T::spec_frac_pi_2();
    assert(h.spec_sin() == one);
    assert(h.spec_cos() == z);
    assert(one.spec_sub(z) == one.spec_add(z.spec_neg()));
    assert(z.spec_sub(z) == z);
    assert(z.spec_sub(z) == z.spec_neg());
    assert(one.spec_add(z) == one);
    let sub_1_cos = one.spec_sub(h.spec_cos());
    assert(sub_1_cos == one);
    assert(z.spec_mul(z) == z);
    assert(z.spec_mul(one) == one.spec_mul(z));
    assert(z.spec_mul(z).spec_mul(one) == one.spec_mul(z.spec_mul(z)));
    assert(z.spec_add(z) == z);
    assert(one.spec_mul(z) == z);
    assert(z.spec_sub(z.spec_mul(one)) == z);
    assert(z.spec_add(z.spec_mul(one)) == z);
}

/// An arc whose endpoints coincide on the unit sphere, away from the
/// poles, yields its endpoint over and over: the amount of segments plus
/// one times the same point.
pub proof fn lemma_arc_with_equal_unit_endpoints<T: Scalar>(arc: Arc<T>, it: ArcIter<T>)
    requires
        arc.from == arc.to,
        arc.from.wf(),
        arc.from.altitude.value() == T::spec_one(),
        T::spec_frac_pi_2().spec_neg().spec_lt(arc.from.latitude.value()),
        arc.from.latitude.value().spec_lt(T::spec_frac_pi_2()),
        1 <= arc.segments,
        it.spec_from() == arc.spec_from_unit(),
        it.spec_to() == arc.spec_to_unit(),
        it.spec_total_segments() == arc.segments,
        it.spec_rotation() == arc.spec_rotation(),
    ensures
        forall|i: usize| i <= arc.segments ==> #[trigger] it.spec_point(i) == arc.from,
{
    T::laws_ring();
    T::laws_order();
    T::laws_div();
    lemma_consts_positive::<T>();
    lemma_arc_with_equal_endpoints(arc, it);
    // on the unit sphere the radial distance is one, so normalizing the
    // endpoint's cartesian image leaves it unchanged
    lemma_from_geographic_magnitude(arc.from);
    let point = Cartesian::spec_from_geographic(arc.from);
    assert(T::spec_one() != T::spec_zero());
    assert(point.spec_magnitude() == T::spec_one());
    assert(point.x.spec_div(T::spec_one()) == point.x);
    assert(point.y.spec_div(T::spec_one()) == point.y);
    assert(point.z.spec_div(T::spec_one()) == point.z);
    assert(arc.spec_from_unit() == point);
    // and converting the image back recovers the endpoint itself
    crate::geographic::lemma_geographic_round_trip(arc.from);
}

/// An arc of two segments between the poles yields exactly the three
/// points the spherical geometry calls for: the north pole on the unit
/// sphere, then — the antipodal pair being ambiguous, its rotation axis
/// the zero vector — the degenerate origin, a point on the equator, and
/// the south pole on the unit sphere last.
pub proof fn lemma_arc_between_poles<T: Scalar>(arc: Arc<T>, it: ArcIter<T>)
    requires
        arc.from == (Geographic {
            latitude: Latitude(T::spec_frac_pi_2()),
            ..Geographic::<T>::spec_default()
        }),
        arc.to == (Geographic {
            latitude: Latitude(T::spec_frac_pi_2().spec_neg()),
            ..Geographic::<T>::spec_default()
        }),
        arc.segments == 2,
        it.spec_from() == arc.spec_from_unit(),
        it.spec_to() == arc.spec_to_unit(),
        it.spec_total_segments() == arc.segments,
        it.spec_rotation() == arc.spec_rotation(),
    ensures
        it.spec_point(0) == (Geographic {
            latitude: Latitude(T::spec_frac_pi_2()),
            altitude: Altitude(Positive(T::spec_one())),
            ..Geographic::<T>::spec_default()
        }),
        it.spec_point(1) == Geographic::<T>::spec_default(),
        it.spec_point(2) == (Geographic {
            latitude: Latitude(T::spec_frac_pi_2().spec_neg()),
            altitude: Altitude(Positive(T::spec_one())),
            ..Geographic::<T>::spec_default()
        }),
{
    lemma_pole_units(arc);
    lemma_pole_rotation(arc);
    T::laws_ring();
    T::laws_order();
    T::laws_consts();
    lemma_consts_positive::<T>();
    let z = T::spec_zero();
    let one = T::spec_one();
    let h = T::spec_frac_pi_2();
    let north_unit = Cartesian { x: z, y: z, z: one };
    // the first point rotates by the angle zero and stays the north pole
    assert(h.spec_mul(T::spec_from_usize(0)) == T::spec_from_usize(0).spec_mul(h));
    assert(h.spec_mul(T::spec_from_usize(0)) == z);
    assert(Radian::<T>::in_range(z));
    let step_0 = Rotation {
        axis: Cartesian::<T>::spec_origin(),
        theta: Radian(Radian::<T>::spec_from(h.spec_mul(T::spec_from_usize(0)))),
    };
    lemma_rotation_zero_identity(step_0, north_unit);
    lemma_north_unit_converts_back::<T>();
    assert(it.spec_point(0) == Geographic::spec_from_cartesian(north_unit));
    // the middle point rotates by a quarter turn about the zero axis and
    // collapses onto the coordinate origin
    assert(T::spec_from_usize(1) == T::spec_from_usize(0).spec_add(one));
    assert(z.spec_add(one) == one.spec_add(z));
    assert(T::spec_from_usize(1) == one);
    assert(h.spec_mul(one) == h);
    assert(Radian::<T>::in_range(h));
    let step_1 = Rotation {
        axis: Cartesian::<T>::spec_origin(),
        theta: Radian(Radian::<T>::spec_from(h.spec_mul(T::spec_from_usize(1)))),
    };
    assert(step_1.theta.value() == h);
    lemma_quarter_turn_collapses::<T>();
    lemma_origin_converts_to_default::<T>();
    assert(it.spec_point(1) == Geographic::spec_from_cartesian(
        step_1.spec_rotated(north_unit),
    ));
    // the last point is the south pole handed back directly
    lemma_south_unit_converts_back::<T>();
    assert(it.spec_point(2) == Geographic::spec_from_cartesian(it.spec_to()));
}

} // verus!
