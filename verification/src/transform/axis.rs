//! Axis representation.

use vstd::prelude::*;

use crate::cartesian::Cartesian;
use crate::scalar::Scalar;

verus! {

/// Represents any of the 3 axis in a three-dimensional space.
#[derive(Debug, Clone, Copy, PartialEq)]
pub enum Axis {
    X,
    Y,
    Z,
}

impl Axis {
    /// The unit vector along the axis, as a mathematical value.
    pub open spec fn spec_as_cartesian<T: Scalar>(self) -> Cartesian<T> {
        match self {
            Axis::X => Cartesian {
                x: T::spec_one(),
                y: T::spec_zero(),
                z: T::spec_zero(),
            },
            Axis::Y => Cartesian {
                x: T::spec_zero(),
                y: T::spec_one(),
                z: T::spec_zero(),
            },
            Axis::Z => Cartesian {
                x: T::spec_zero(),
                y: T::spec_zero(),
                z: T::spec_one(),
            },
        }
    }

    /// Returns the axis as a cartesian coordinate.
    pub fn as_cartesian<T: Scalar>(&self) -> (r: Cartesian<T>)
        ensures
            r == self.spec_as_cartesian::<T>(),
    {
        match self {
            Axis::X => Cartesian::origin().with_x(T::one()),
            Axis::Y => Cartesian::origin().with_y(T::one()),
            Axis::Z => Cartesian::origin().with_z(T::one()),
        }
    }
}

} // verus!
