//! Transform definitions and implementations.

use vstd::prelude::*;

pub mod axis;
pub mod rotation;

pub use self::axis::Axis;
pub use self::rotation::Rotation;

verus! {

/// A geometric transformation.
pub trait Transform<Rhs>: Sized {
    /// The transformed point, as a mathematical value.
    spec fn spec_transform(self, point: Rhs) -> Rhs;

    /// Performs the transformation over `Rhs`.
    fn transform(&self, point: Rhs) -> (r: Rhs)
        ensures
            r == self.spec_transform(point),
    ;
}

} // verus!
