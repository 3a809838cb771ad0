//! Rotation splines: the quaternion capability, sign canonicalization, and
//! the spherical De Casteljau curve with its centripetal Kochanek-Bartels
//! constructor.

use vstd::prelude::*;

pub mod centripetalkochanekbartelsspline;
pub mod cubicdecasteljau;

pub use cubicdecasteljau::CubicDeCasteljau;

use crate::{Scalar, Vector};

verus! {

/// The rotation capability: everything the rotation splines do with unit
/// quaternions, each operation tied to a spec-level model.  `W` is the
/// angular-velocity vector type.
pub trait Quaternion<S: Scalar, W: Vector<S>>: Copy + Sized {
    open spec fn spec_rotation_to(self, other: Self) -> Self {
        vstd::pervasive::arbitrary()
    }

    open spec fn spec_scaled_axis(self) -> W {
        vstd::pervasive::arbitrary()
    }

    open spec fn spec_from_scaled_axis(w: W) -> Self {
        vstd::pervasive::arbitrary()
    }

    open spec fn spec_slerp(self, other: Self, t: S) -> Self {
        vstd::pervasive::arbitrary()
    }

    open spec fn spec_dot(self, other: Self) -> S {
        vstd::pervasive::arbitrary()
    }

    open spec fn spec_inverse(self) -> Self {
        vstd::pervasive::arbitrary()
    }

    open spec fn spec_compose(self, other: Self) -> Self {
        vstd::pervasive::arbitrary()
    }

    open spec fn spec_power(self, exponent: S) -> Self {
        vstd::pervasive::arbitrary()
    }

    open spec fn spec_angle(self) -> S {
        vstd::pervasive::arbitrary()
    }

    open spec fn spec_neg(self) -> Self {
        vstd::pervasive::arbitrary()
    }

    open spec fn spec_identity() -> Self {
        vstd::pervasive::arbitrary()
    }

    /// The rotation that takes `self` to `other`.
    fn rotation_to(self, other: Self) -> (r: Self)
        ensures
            r == self.spec_rotation_to(other),
    ;

    /// The rotation axis scaled by the rotation angle.
    fn scaled_axis(self) -> (r: W)
        ensures
            r == self.spec_scaled_axis(),
    ;

    fn from_scaled_axis(w: W) -> (r: Self)
        ensures
            r == Self::spec_from_scaled_axis(w),
    ;

    /// Spherical linear interpolation from `self` to `other`.
    fn slerp(self, other: Self, t: S) -> (r: Self)
        ensures
            r == self.spec_slerp(other, t),
    ;

    fn dot(self, other: Self) -> (r: S)
        ensures
            r == self.spec_dot(other),
    ;

    fn inverse(self) -> (r: Self)
        ensures
            r == self.spec_inverse(),
    ;

    /// Quaternion multiplication: `self` applied after `other`.
    fn compose(self, other: Self) -> (r: Self)
        ensures
            r == self.spec_compose(other),
    ;

    /// The fractional rotation: `self` raised to the given exponent.
    fn power(self, exponent: S) -> (r: Self)
        ensures
            r == self.spec_power(exponent),
    ;

    /// The rotation angle.
    fn angle(self) -> (r: S)
        ensures
            r == self.spec_angle(),
    ;

    /// The same rotation with all four components negated (which
    /// interpolates the other way around).
    fn neg(self) -> (r: Self)
        ensures
            r == self.spec_neg(),
    ;

    fn identity() -> (r: Self)
        ensures
            r == Self::spec_identity(),
    ;
}

/// The canonical form of a quaternion sequence: each entry is flipped when
/// its dot product with its (already canonicalized) predecessor is
/// negative, so that interpolation always takes the shorter way around.
pub open spec fn spec_canonical<S: Scalar, W: Vector<S>, Q: Quaternion<S, W>>(
    qs: Seq<Q>,
    i: int,
) -> Q
    decreases i,
{
    let prev: Q = if i <= 0 {
        Q::spec_identity()
    } else {
        spec_canonical(qs, i - 1)
    };
    if prev.spec_dot(qs[i]).spec_lt(S::spec_zero()) {
        qs[i].spec_neg()
    } else {
        qs[i]
    }
}

/// Flips quaternion signs in place so that consecutive entries have a
/// non-negative dot product.
pub fn canonicalize<S: Scalar, W: Vector<S>, Q: Quaternion<S, W>>(quaternions: &mut Vec<Q>)
    ensures
        final(quaternions)@.len() == old(quaternions)@.len(),
        forall|i: int|
            0 <= i < old(quaternions)@.len() ==> final(quaternions)@[i] == spec_canonical::<S, W, Q>(
                old(quaternions)@,
                i,
            ),
{
    let ghost qs0 = quaternions@;
    let mut p: Q = Q::identity();
    let mut i: usize = 0;
    while i < quaternions.len()
        invariant
            quaternions@.len() == qs0.len(),
            i <= qs0.len(),
            forall|j: int| i <= j < qs0.len() ==> quaternions@[j] == qs0[j],
            forall|j: int|
                0 <= j < i ==> quaternions@[j] == spec_canonical::<S, W, Q>(qs0, j),
            p == (if i == 0 {
                Q::spec_identity()
            } else {
                spec_canonical::<S, W, Q>(qs0, i - 1)
            }),
        decreases qs0.len() - i,
    {
        let q: Q = quaternions[i];
        let flipped: Q = if p.dot(q).lt(S::zero()) {
            q.neg()
        } else {
            q
        };
        quaternions.set(i, flipped);
        p = flipped;
        i += 1;
    }
}

} // verus!
