//! Equirectangular projection.

use vstd::prelude::*;

use crate::cartesian::Cartesian;
use crate::geographic::{Altitude, Geographic, Latitude, Longitude};
use crate::positive::Positive;
use crate::scalar::Scalar;

use super::Projection;

use crate::scalar::lemma_consts_positive;

verus! {

/// The equirectangular projection: each planar coordinate is the matching
/// angle scaled by the radius of the globe.
#[derive(Debug, Clone, Copy)]
pub struct Equirectangular<T> {
    /// The radius of the globe being projected.
    pub radius: Positive<T>,
}

impl<T: Scalar> Projection<T> for Equirectangular<T> {
    /// The planar point whose first coordinate is the radius times the
    /// longitude and whose second coordinate is the radius times the
    /// latitude.
    open spec fn spec_forward(self, coordinates: Geographic<T>) -> Cartesian<T> {
        Cartesian {
            x: self.radius.value().spec_mul(coordinates.longitude.value()),
            y: self.radius.value().spec_mul(coordinates.latitude.value()),
            z: T::spec_zero(),
        }
    }

    /// The geographic point whose angles are the planar coordinates divided
    /// by the radius; the altitude is not represented on the plane and
    /// comes back as zero.
    open spec fn spec_reverse(self, coordinates: Cartesian<T>) -> Geographic<T> {
        Geographic {
            longitude: Longitude(
                Longitude::spec_from(coordinates.x.spec_div(self.radius.value())),
            ),
            latitude: Latitude(Latitude::spec_from(coordinates.y.spec_div(self.radius.value()))),
            altitude: Altitude(Positive(T::spec_zero())),
        }
    }

    fn forward(&self, coordinates: &Geographic<T>) -> (r: Cartesian<T>) {
        Cartesian {
            x: self.radius.into_inner().mul(coordinates.longitude.into_inner()),
            y: self.radius.into_inner().mul(coordinates.latitude.into_inner()),
            z: T::zero(),
        }
    }

    fn reverse(&self, coordinates: &Cartesian<T>) -> (r: Geographic<T>) {
        Geographic::default().with_latitude(
            Latitude::from(coordinates.y.div(self.radius.into_inner())),
        ).with_longitude(Longitude::from(coordinates.x.div(self.radius.into_inner())))
    }
}

/// Projecting a well-formed point onto the plane and unprojecting it again
/// recovers the longitude and the latitude exactly, for any positive
/// radius; the altitude is not represented on the plane and comes back as
/// zero.
pub proof fn lemma_equirectangular_round_trip<T: Scalar>(
    projection: Equirectangular<T>,
    point: Geographic<T>,
)
    requires
        point.wf(),
        T::spec_zero().spec_lt(projection.radius.value()),
    ensures
        projection.spec_reverse(projection.spec_forward(point)).longitude == point.longitude,
        projection.spec_reverse(projection.spec_forward(point)).latitude == point.latitude,
        projection.spec_reverse(projection.spec_forward(point)).altitude.value()
            == T::spec_zero(),
{
    T::laws_ring();
    T::laws_div();
    T::laws_order();
    lemma_consts_positive::<T>();
    let radius = projection.radius.value();
    let lon = point.longitude.value();
    let lat = point.latitude.value();
    assert(radius != T::spec_zero());
    assert(radius.spec_mul(lon) == lon.spec_mul(radius));
    assert(lon.spec_mul(radius).spec_div(radius) == lon);
    assert(radius.spec_mul(lat) == lat.spec_mul(radius));
    assert(lat.spec_mul(radius).spec_div(radius) == lat);
    assert(Longitude::<T>::spec_from(lon) == lon);
    assert(Latitude::<T>::spec_from(lat) == lat);
}

} // verus!
