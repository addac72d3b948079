//! Gall Stereographic projection.

use vstd::prelude::*;

use crate::cartesian::Cartesian;
use crate::geographic::{Altitude, Geographic, Latitude, Longitude};
use crate::positive::Positive;
use crate::scalar::Scalar;

use super::Projection;

use crate::scalar::lemma_consts_positive;
use crate::scalar::lemma_div_lt;
use crate::scalar::lemma_div_mul_cancel;
use crate::scalar::lemma_div_pos;
use crate::scalar::lemma_neg_div;

verus! {

/// The Gall stereographic projection: the longitude shrinks by the square
/// root of two and the latitude stretches through the tangent of its half.
#[derive(Debug, Clone, Copy)]
pub struct GallStereographic<T> {
    /// The radius of the globe being projected.
    pub radius: Positive<T>,
}

impl<T: Scalar> Projection<T> for GallStereographic<T> {
    /// The planar point whose first coordinate is the radius times the
    /// longitude over the square root of two, and whose second coordinate
    /// stretches the tangent of half the latitude.
    open spec fn spec_forward(self, coordinates: Geographic<T>) -> Cartesian<T> {
        let two = T::spec_one().spec_add(T::spec_one());
        Cartesian {
            x: self.radius.value().spec_mul(coordinates.longitude.value()).spec_div(
                T::spec_sqrt_2(),
            ),
            y: self.radius.value().spec_mul(
                T::spec_one().spec_add(T::spec_sqrt_2().spec_div(two)),
            ).spec_mul(coordinates.latitude.value().spec_div(two).spec_tan()),
            z: T::spec_zero(),
        }
    }

    /// The geographic point that undoes the forward map: the latitude is
    /// twice the inverse tangent of the scaled second coordinate, the
    /// longitude scales the first coordinate back; the altitude is not
    /// represented on the plane and comes back as zero.
    open spec fn spec_reverse(self, coordinates: Cartesian<T>) -> Geographic<T> {
        let two = T::spec_one().spec_add(T::spec_one());
        Geographic {
            longitude: Longitude(
                Longitude::spec_from(
                    coordinates.x.spec_mul(T::spec_sqrt_2()).spec_div(self.radius.value()),
                ),
            ),
            latitude: Latitude(
                Latitude::spec_from(
                    two.spec_mul(
                        coordinates.y.spec_div(
                            self.radius.value().spec_mul(
                                T::spec_one().spec_add(T::spec_sqrt_2().spec_div(two)),
                            ),
                        ).spec_atan(),
                    ),
                ),
            ),
            altitude: Altitude(Positive(T::spec_zero())),
        }
    }

    fn forward(&self, coordinates: &Geographic<T>) -> (r: Cartesian<T>) {
        let two = T::one().add(T::one());

        Cartesian {
            x: self.radius.into_inner().mul(coordinates.longitude.into_inner()).div(T::sqrt_2()),
            y: self.radius.into_inner().mul(T::one().add(T::sqrt_2().div(two))).mul(
                coordinates.latitude.into_inner().div(two).tan(),
            ),
            z: T::zero(),
        }
    }

    fn reverse(&self, coordinates: &Cartesian<T>) -> (r: Geographic<T>) {
        let two = T::one().add(T::one());

        Geographic::default().with_latitude(
            Latitude::from(
                two.mul(
                    coordinates.y.div(
                        self.radius.into_inner().mul(T::one().add(T::sqrt_2().div(two))),
                    ).atan(),
                ),
            ),
        ).with_longitude(
            Longitude::from(
                coordinates.x.mul(T::sqrt_2()).div(self.radius.into_inner()),
            ),
        )
    }
}

/// Half of any well-formed latitude lies strictly inside `(-pi/2, pi/2)`,
/// the branch the inverse tangent is valued in.
proof fn lemma_half_latitude_in_branch<T: Scalar>(lat: T)
    requires
        Latitude::<T>::in_range(lat),
    ensures
        T::spec_frac_pi_2().spec_neg().spec_lt(
            lat.spec_div(T::spec_one().spec_add(T::spec_one())),
        ),
        lat.spec_div(T::spec_one().spec_add(T::spec_one())).spec_lt(T::spec_frac_pi_2()),
{
    T::laws_ring();
    T::laws_div();
    T::laws_order();
    T::laws_consts();
    lemma_consts_positive::<T>();
    let one = T::spec_one();
    let two = one.spec_add(one);
    let h = T::spec_frac_pi_2();
    assert(T::spec_zero().spec_add(one).spec_lt(one.spec_add(one)));
    assert(T::spec_zero().spec_add(one) == one.spec_add(T::spec_zero()));
    assert(T::spec_zero().spec_lt(two));
    // half of the bound stays under the bound
    T::law_mul_distrib(h, one, one);
    assert(h.spec_mul(two) == h.spec_add(h));
    assert(h.spec_mul(two).spec_div(two) == h.spec_add(h).spec_div(two));
    assert(h.spec_add(h).spec_div(two) == h);
    lemma_div_pos(h, two);
    let hh = h.spec_div(two);
    assert(hh.spec_add(T::spec_zero()).spec_lt(hh.spec_add(hh)));
    assert(hh.spec_add(hh) == h.spec_add(h).spec_div(two)) by {
        assert(hh.spec_add(hh) == h.spec_div(two).spec_add(h.spec_div(two)));
    }
    assert(hh.spec_lt(h));
    // the upper half bound
    if lat.spec_lt(h) {
        lemma_div_lt(lat, h, two);
        assert(lat.spec_div(two).spec_lt(h));
    } else {
        assert(lat == h);
        assert(lat.spec_div(two).spec_lt(h));
    }
    // the lower half bound
    lemma_neg_div(h, two);
    assert(h.spec_neg().spec_div(two) == hh.spec_neg());
    assert(h.spec_neg().spec_lt(hh.spec_neg()));
    if h.spec_neg().spec_lt(lat) {
        lemma_div_lt(h.spec_neg(), lat, two);
        assert(h.spec_neg().spec_lt(lat.spec_div(two)));
    } else {
        assert(lat == h.spec_neg());
        assert(h.spec_neg().spec_lt(lat.spec_div(two)));
    }
}

/// Projecting a well-formed point onto the plane and unprojecting it again
/// recovers the longitude and the latitude exactly, for any positive
/// radius; the altitude is not represented on the plane and comes back as
/// zero.
pub proof fn lemma_gall_stereographic_round_trip<T: Scalar>(
    projection: GallStereographic<T>,
    point: Geographic<T>,
)
    requires
        point.wf(),
        T::spec_zero().spec_lt(projection.radius.value()),
    ensures
        projection.spec_reverse(projection.spec_forward(point)).longitude == point.longitude,
        projection.spec_reverse(projection.spec_forward(point)).latitude == point.latitude,
        projection.spec_reverse(projection.spec_forward(point)).altitude.value()
            == T::spec_zero(),
{
    T::laws_ring();
    T::laws_div();
    T::laws_order();
    T::laws_consts();
    T::laws_trig();
    T::laws_inverse_trig();
    lemma_consts_positive::<T>();
    let radius = projection.radius.value();
    let lon = point.longitude.value();
    let lat = point.latitude.value();
    let one = T::spec_one();
    let two = one.spec_add(one);
    let sqrt2 = T::spec_sqrt_2();
    assert(radius != T::spec_zero());
    assert(sqrt2 != T::spec_zero());
    assert(T::spec_zero().spec_add(one).spec_lt(one.spec_add(one)));
    assert(T::spec_zero().spec_add(one) == one.spec_add(T::spec_zero()));
    assert(T::spec_zero().spec_lt(two));
    // the longitude scales down by the root of two and back up again
    lemma_div_mul_cancel(radius.spec_mul(lon), sqrt2);
    assert(radius.spec_mul(lon) == lon.spec_mul(radius));
    assert(lon.spec_mul(radius).spec_div(radius) == lon);
    assert(Longitude::<T>::spec_from(lon) == lon);
    // the stretch factor of the latitude is positive, so it divides out
    lemma_div_pos(sqrt2, two);
    let stretch = one.spec_add(sqrt2.spec_div(two));
    assert(T::spec_zero().spec_add(one).spec_lt(sqrt2.spec_div(two).spec_add(one)));
    assert(sqrt2.spec_div(two).spec_add(one) == one.spec_add(sqrt2.spec_div(two)));
    assert(T::spec_zero().spec_lt(stretch));
    let scale = radius.spec_mul(stretch);
    assert(T::spec_zero().spec_lt(scale));
    assert(scale != T::spec_zero());
    let tangent = lat.spec_div(two).spec_tan();
    assert(scale.spec_mul(tangent) == tangent.spec_mul(scale));
    assert(tangent.spec_mul(scale).spec_div(scale) == tangent);
    // half the latitude lies inside the branch of the inverse tangent
    lemma_half_latitude_in_branch::<T>(lat);
    assert(tangent == lat.spec_div(two).spec_sin().spec_div(lat.spec_div(two).spec_cos()));
    assert(tangent.spec_atan() == lat.spec_div(two));
    // doubling the recovered half angle gives the latitude back
    lemma_div_mul_cancel(lat, two);
    assert(two.spec_mul(lat.spec_div(two)) == lat.spec_div(two).spec_mul(two));
    assert(two.spec_mul(lat.spec_div(two)) == lat);
    assert(Latitude::<T>::spec_from(lat) == lat);
}

} // verus!
