//! Rotation transformation.

use vstd::prelude::*;

use crate::cartesian::Cartesian;
use crate::radian::Radian;
use crate::scalar::lemma_consts_positive;
use crate::scalar::Scalar;

use super::Transform;

verus! {

/// Implements the geometric transformation through which an arbitrary
/// cartesian point can be rotated given an axis and an angle of rotation.
///
/// Being v a vector and k a unit vector describing an axis of rotation
/// about which v rotates by an angle theta, the transformation rotates v
/// according to the right hand rule, in the closed form of the Rodrigues
/// rotation formula. The axis must be of unit length for the rotation to be
/// geometrically correct, which is the caller's responsibility.
#[derive(Debug, Clone, Copy)]
pub struct Rotation<T> {
    /// The axis of rotation about which perform the transformation.
    pub axis: Cartesian<T>,
    /// The angle of rotation.
    pub theta: Radian<T>,
}

impl<T: Scalar> Rotation<T> {
    /// The point the rotation carries the given point to: each coordinate
    /// is the trilinear combination of the input coordinates given by the
    /// Rodrigues rotation formula.
    pub open spec fn spec_rotated(self, coords: Cartesian<T>) -> Cartesian<T> {
        let sin_theta = self.theta.value().spec_sin();
        let cos_theta = self.theta.value().spec_cos();
        let sub_1_cos_theta = T::spec_one().spec_sub(cos_theta);
        let x = self.axis.x;
        let y = self.axis.y;
        let z = self.axis.z;
        Cartesian {
            x: coords.x.spec_mul(cos_theta.spec_add(x.spec_mul(x).spec_mul(sub_1_cos_theta)))
                .spec_add(
                coords.y.spec_mul(
                    x.spec_mul(y).spec_mul(sub_1_cos_theta).spec_sub(z.spec_mul(sin_theta)),
                ),
            ).spec_add(
                coords.z.spec_mul(
                    x.spec_mul(z).spec_mul(sub_1_cos_theta).spec_add(y.spec_mul(sin_theta)),
                ),
            ),
            y: coords.x.spec_mul(
                y.spec_mul(x).spec_mul(sub_1_cos_theta).spec_add(z.spec_mul(sin_theta)),
            ).spec_add(
                coords.y.spec_mul(cos_theta.spec_add(y.spec_mul(y).spec_mul(sub_1_cos_theta))),
            ).spec_add(
                coords.z.spec_mul(
                    y.spec_mul(z).spec_mul(sub_1_cos_theta).spec_sub(x.spec_mul(sin_theta)),
                ),
            ),
            z: coords.x.spec_mul(
                z.spec_mul(x).spec_mul(sub_1_cos_theta).spec_sub(y.spec_mul(sin_theta)),
            ).spec_add(
                coords.y.spec_mul(
                    z.spec_mul(y).spec_mul(sub_1_cos_theta).spec_add(x.spec_mul(sin_theta)),
                ),
            ).spec_add(
                coords.z.spec_mul(cos_theta.spec_add(z.spec_mul(z).spec_mul(sub_1_cos_theta))),
            ),
        }
    }

    /// Creates a rotation instance that performs no transformation.
    pub fn noop() -> (r: Self)
        ensures
            r.axis == Cartesian::<T>::spec_origin(),
            r.theta.value() == T::spec_zero(),
            r.theta.wf(),
    {
        proof {
            lemma_consts_positive::<T>();
            T::laws_order();
        }
        Rotation { axis: Cartesian::origin(), theta: Radian::from(T::zero()) }
    }

    /// Returns self with its axis replaced.
    pub fn with_axis(self, axis: Cartesian<T>) -> (r: Self)
        ensures
            r == (Rotation { axis, ..self }),
    {
        Rotation { axis, ..self }
    }

    /// Returns self with its angle replaced.
    pub fn with_theta(self, theta: Radian<T>) -> (r: Self)
        ensures
            r == (Rotation { theta, ..self }),
    {
        Rotation { theta, ..self }
    }
}

impl<T: Scalar> Transform<Cartesian<T>> for Rotation<T> {
    /// The rotated point, by the Rodrigues rotation formula.
    open spec fn spec_transform(self, point: Cartesian<T>) -> Cartesian<T> {
        self.spec_rotated(point)
    }

    /// Rotates the given point about the axis of self by the angle of self.
    fn transform(&self, coords: Cartesian<T>) -> (r: Cartesian<T>)
        ensures
            r == self.spec_rotated(coords),
    {
        let sin_theta = self.theta.into_inner().sin();
        let cos_theta = self.theta.into_inner().cos();
        let sub_1_cos_theta = T::one().sub(cos_theta);

        let x = self.axis.x;
        let y = self.axis.y;
        let z = self.axis.z;

        Cartesian {
            x: coords.x.mul(cos_theta.add(x.mul(x).mul(sub_1_cos_theta))).add(
                coords.y.mul(x.mul(y).mul(sub_1_cos_theta).sub(z.mul(sin_theta))),
            ).add(coords.z.mul(x.mul(z).mul(sub_1_cos_theta).add(y.mul(sin_theta)))),
            y: coords.x.mul(y.mul(x).mul(sub_1_cos_theta).add(z.mul(sin_theta))).add(
                coords.y.mul(cos_theta.add(y.mul(y).mul(sub_1_cos_theta))),
            ).add(coords.z.mul(y.mul(z).mul(sub_1_cos_theta).sub(x.mul(sin_theta)))),
            z: coords.x.mul(z.mul(x).mul(sub_1_cos_theta).sub(y.mul(sin_theta))).add(
                coords.y.mul(z.mul(y).mul(sub_1_cos_theta).add(x.mul(sin_theta))),
            ).add(coords.z.mul(cos_theta.add(z.mul(z).mul(sub_1_cos_theta)))),
        }
    }
}

/// A rotation by the angle zero is the identity transform, whatever its
/// axis and whatever the point.
pub proof fn lemma_rotation_zero_identity<T: Scalar>(rotation: Rotation<T>, point: Cartesian<T>)
    requires
        rotation.theta.value() == T::spec_zero(),
    ensures
        rotation.spec_rotated(point) == point,
{
    T::laws_ring();
    T::laws_trig();
    let sin_theta = rotation.theta.value().spec_sin();
    let cos_theta = rotation.theta.value().spec_cos();
    let sub_1_cos_theta = T::spec_one().spec_sub(cos_theta);
    assert(sin_theta == T::spec_zero());
    assert(cos_theta == T::spec_one());
    assert(sub_1_cos_theta == T::spec_zero());
    let x = rotation.axis.x;
    let y = rotation.axis.y;
    let z = rotation.axis.z;
    // every term of the formula but the diagonal one vanishes
    assert(cos_theta.spec_add(x.spec_mul(x).spec_mul(sub_1_cos_theta)) == T::spec_one());
    assert(cos_theta.spec_add(y.spec_mul(y).spec_mul(sub_1_cos_theta)) == T::spec_one());
    assert(cos_theta.spec_add(z.spec_mul(z).spec_mul(sub_1_cos_theta)) == T::spec_one());
    assert(x.spec_mul(y).spec_mul(sub_1_cos_theta).spec_sub(z.spec_mul(sin_theta))
        == T::spec_zero());
    assert(x.spec_mul(z).spec_mul(sub_1_cos_theta).spec_add(y.spec_mul(sin_theta))
        == T::spec_zero());
    assert(y.spec_mul(x).spec_mul(sub_1_cos_theta).spec_add(z.spec_mul(sin_theta))
        == T::spec_zero());
    assert(y.spec_mul(z).spec_mul(sub_1_cos_theta).spec_sub(x.spec_mul(sin_theta))
        == T::spec_zero());
    assert(z.spec_mul(x).spec_mul(sub_1_cos_theta).spec_sub(y.spec_mul(sin_theta))
        == T::spec_zero());
    assert(z.spec_mul(y).spec_mul(sub_1_cos_theta).spec_add(x.spec_mul(sin_theta))
        == T::spec_zero());
    // and what is left of each coordinate is the coordinate itself
    assert(point.x.spec_mul(T::spec_one()).spec_add(point.y.spec_mul(T::spec_zero())).spec_add(
        point.z.spec_mul(T::spec_zero()),
    ) == point.x);
    assert(point.x.spec_mul(T::spec_zero()).spec_add(point.y.spec_mul(T::spec_one())).spec_add(
        point.z.spec_mul(T::spec_zero()),
    ) == point.y);
    assert(point.x.spec_mul(T::spec_zero()).spec_add(point.y.spec_mul(T::spec_zero())).spec_add(
        point.z.spec_mul(T::spec_one()),
    ) == point.z);
}

/// A rotation by a full turn is the identity transform: the full turn
/// wraps back to the radian zero.
pub proof fn lemma_rotation_full_turn_identity<T: Scalar>(
    rotation: Rotation<T>,
    point: Cartesian<T>,
)
    requires
        rotation.theta.value() == Radian::<T>::spec_from(T::spec_tau()),
    ensures
        rotation.spec_rotated(point) == point,
{
    T::laws_rem();
    T::laws_order();
    lemma_consts_positive::<T>();
    assert(!Radian::<T>::in_range(T::spec_tau()));
    assert(rotation.theta.value() == T::spec_tau().spec_rem(T::spec_tau()));
    lemma_rotation_zero_identity(rotation, point);
}

} // verus!
