//! Conversions between cartesian and geographic coordinates on a sphere,
//! rotation of points about arbitrary axes, interpolation along great-circle
//! arcs and planar map projections, all generic over an abstract real-valued
//! scalar type.

pub mod cartesian;
pub mod float;
pub mod geographic;
pub mod positive;
pub mod projection;
pub mod radian;
pub mod scalar;
pub mod shape;
pub mod transform;

pub use cartesian::Cartesian;
pub use float::PositiveFloat;
pub use geographic::{Altitude, Geographic, Latitude, Longitude};
pub use positive::Positive;
pub use radian::Radian;
pub use scalar::Scalar;
