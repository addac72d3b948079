//! Projection definition and implementations.

use vstd::prelude::*;

pub mod equirectangular;
pub mod gall_stereographic;

pub use self::equirectangular::Equirectangular;
pub use self::gall_stereographic::GallStereographic;

use crate::cartesian::Cartesian;
use crate::geographic::Geographic;

verus! {

/// A projection is a function that maps geographic coordinates to cartesian
/// coordinates and vice versa.
pub trait Projection<T>: Sized {
    /// The planar point the projection maps a geographic point to.
    spec fn spec_forward(self, coordinates: Geographic<T>) -> Cartesian<T>;

    /// The geographic point the projection maps a planar point back to.
    spec fn spec_reverse(self, coordinates: Cartesian<T>) -> Geographic<T>;

    /// Projects the given geographic coordinates to cartesian coordinates.
    fn forward(&self, coordinates: &Geographic<T>) -> (r: Cartesian<T>)
        ensures
            r == self.spec_forward(*coordinates),
    ;

    /// Unprojects the given cartesian coordinates to geographic coordinates.
    fn reverse(&self, coordinates: &Cartesian<T>) -> (r: Geographic<T>)
        ensures
            r == self.spec_reverse(*coordinates),
    ;
}

} // verus!
