//! Spline construction and evaluation for trajectories: centripetal
//! Kochanek-Bartels splines over positions and rotations, piecewise cubic
//! Hermite curves, shape-preserving (monotone) cubic splines, constant-speed
//! arc-length reparametrization and retiming onto a user-supplied grid.
//!
//! The pipeline is generic over a [`Scalar`] capability that supplies the
//! arithmetic and comparisons, so that every algorithm here is verified
//! relationally: each function's contract pins its result down as an exact
//! composition of the scalar operations it performs.

use vstd::prelude::*;

pub mod adapters;
pub mod asdfposspline;
pub mod asdfrotspline;
pub mod centripetalkochanekbartelsspline;
pub mod cubichermitespline;
pub mod intscalar;
pub mod monotonecubicspline;
pub mod piecewisecubiccurve;
pub mod piecewisemonotonecubicspline;
pub mod quaternion;
pub mod shapepreservingcubicspline;
pub mod utilities;

pub use crate::asdfposspline::AsdfPosSpline;
pub use crate::asdfrotspline::AsdfRotSpline;
pub use crate::monotonecubicspline::MonotoneCubicSpline;
pub use crate::piecewisecubiccurve::PiecewiseCubicCurve;

verus! {

/// The arithmetic capability required of the scalar type that grids, times,
/// speeds and coefficients are made of.
///
/// Every executable operation is tied to a spec-level model of itself, so
/// verified code can state exactly which composition of operations produced a
/// result, without committing to a particular number representation.  The
/// `law_*` obligations state the few ordering facts the algorithms rely on;
/// they hold for IEEE comparisons as well as for exact representations.
pub trait Scalar: Copy + Sized {
    open spec fn spec_add(self, other: Self) -> Self {
        vstd::pervasive::arbitrary()
    }

    open spec fn spec_sub(self, other: Self) -> Self {
        vstd::pervasive::arbitrary()
    }

    open spec fn spec_mul(self, other: Self) -> Self {
        vstd::pervasive::arbitrary()
    }

    open spec fn spec_div(self, other: Self) -> Self {
        vstd::pervasive::arbitrary()
    }

    open spec fn spec_neg(self) -> Self {
        vstd::pervasive::arbitrary()
    }

    open spec fn spec_abs(self) -> Self {
        vstd::pervasive::arbitrary()
    }

    open spec fn spec_sqrt(self) -> Self {
        vstd::pervasive::arbitrary()
    }

    open spec fn spec_min(self, other: Self) -> Self {
        vstd::pervasive::arbitrary()
    }

    open spec fn spec_max(self, other: Self) -> Self {
        vstd::pervasive::arbitrary()
    }

    open spec fn spec_lt(self, other: Self) -> bool {
        vstd::pervasive::arbitrary()
    }

    open spec fn spec_le(self, other: Self) -> bool {
        vstd::pervasive::arbitrary()
    }

    open spec fn spec_gt(self, other: Self) -> bool {
        vstd::pervasive::arbitrary()
    }

    open spec fn spec_ge(self, other: Self) -> bool {
        vstd::pervasive::arbitrary()
    }

    open spec fn spec_eq(self, other: Self) -> bool {
        vstd::pervasive::arbitrary()
    }

    open spec fn spec_is_nan(self) -> bool {
        vstd::pervasive::arbitrary()
    }

    open spec fn spec_finite(self) -> bool {
        vstd::pervasive::arbitrary()
    }

    open spec fn spec_zero() -> Self {
        vstd::pervasive::arbitrary()
    }

    open spec fn spec_one() -> Self {
        vstd::pervasive::arbitrary()
    }

    open spec fn spec_two() -> Self {
        vstd::pervasive::arbitrary()
    }

    open spec fn spec_three() -> Self {
        vstd::pervasive::arbitrary()
    }

    open spec fn spec_tolerance() -> Self {
        vstd::pervasive::arbitrary()
    }

    open spec fn spec_nodes() -> Seq<(Self, Self)> {
        vstd::pervasive::arbitrary()
    }

    fn add(self, other: Self) -> (r: Self)
        ensures
            r == self.spec_add(other),
    ;

    fn sub(self, other: Self) -> (r: Self)
        ensures
            r == self.spec_sub(other),
    ;

    fn mul(self, other: Self) -> (r: Self)
        ensures
            r == self.spec_mul(other),
    ;

    fn div(self, other: Self) -> (r: Self)
        ensures
            r == self.spec_div(other),
    ;

    fn neg(self) -> (r: Self)
        ensures
            r == self.spec_neg(),
    ;

    fn abs(self) -> (r: Self)
        ensures
            r == self.spec_abs(),
    ;

    fn sqrt(self) -> (r: Self)
        ensures
            r == self.spec_sqrt(),
    ;

    fn min(self, other: Self) -> (r: Self)
        ensures
            r == self.spec_min(other),
    ;

    fn max(self, other: Self) -> (r: Self)
        ensures
            r == self.spec_max(other),
    ;

    fn lt(self, other: Self) -> (r: bool)
        ensures
            r == self.spec_lt(other),
    ;

    fn le(self, other: Self) -> (r: bool)
        ensures
            r == self.spec_le(other),
    ;

    fn gt(self, other: Self) -> (r: bool)
        ensures
            r == self.spec_gt(other),
    ;

    fn ge(self, other: Self) -> (r: bool)
        ensures
            r == self.spec_ge(other),
    ;

    fn is_eq(self, other: Self) -> (r: bool)
        ensures
            r == self.spec_eq(other),
    ;

    fn is_nan(self) -> (r: bool)
        ensures
            r == self.spec_is_nan(),
    ;

    fn zero() -> (r: Self)
        ensures
            r == Self::spec_zero(),
    ;

    fn one() -> (r: Self)
        ensures
            r == Self::spec_one(),
    ;

    fn two() -> (r: Self)
        ensures
            r == Self::spec_two(),
    ;

    fn three() -> (r: Self)
        ensures
            r == Self::spec_three(),
    ;

    /// The absolute tolerance handed to the bisection root finder.
    fn tolerance() -> (r: Self)
        ensures
            r == Self::spec_tolerance(),
    ;

    /// The 13 Gauss-Legendre quadrature nodes over `[-1, 1]`, as
    /// `(position, weight)` pairs in ascending node order.
    fn nodes() -> (r: Vec<(Self, Self)>)
        ensures
            r@ == Self::spec_nodes(),
            r@.len() == 13,
    ;

    /// `<` is transitive.  (IEEE comparisons satisfy this: they are never
    /// true when an operand is NaN.)
    proof fn law_lt_transitive(a: Self, b: Self, c: Self)
        requires
            a.spec_lt(b),
            b.spec_lt(c),
        ensures
            a.spec_lt(c),
    ;

    /// `<` is asymmetric (hence also irreflexive).
    proof fn law_lt_asymmetric(a: Self, b: Self)
        requires
            a.spec_lt(b),
        ensures
            !b.spec_lt(a),
    ;

    /// On values that are not NaN, `<=` is the negation of the reversed `<`.
    proof fn law_le_lt(a: Self, b: Self)
        requires
            !a.spec_is_nan(),
            !b.spec_is_nan(),
        ensures
            a.spec_le(b) == !b.spec_lt(a),
    ;

    /// On values that are not NaN, `>=` is the negation of `<`.
    proof fn law_ge_lt(a: Self, b: Self)
        requires
            !a.spec_is_nan(),
            !b.spec_is_nan(),
        ensures
            a.spec_ge(b) == !a.spec_lt(b),
    ;

    /// `>` is the reversed `<`.
    proof fn law_gt_lt(a: Self, b: Self)
        ensures
            a.spec_gt(b) == b.spec_lt(a),
    ;

    /// Arithmetic on a NaN operand yields NaN.
    proof fn law_nan_propagates(a: Self, b: Self)
        requires
            a.spec_is_nan() || b.spec_is_nan(),
        ensures
            a.spec_add(b).spec_is_nan(),
            a.spec_sub(b).spec_is_nan(),
            a.spec_mul(b).spec_is_nan(),
            a.spec_div(b).spec_is_nan(),
    ;

    /// On values that are not NaN the order is total: two values compare
    /// somehow.
    proof fn law_connex(a: Self, b: Self)
        requires
            !a.spec_is_nan(),
            !b.spec_is_nan(),
        ensures
            a.spec_lt(b) || b.spec_lt(a) || a.spec_eq(b),
    ;

    /// Equal values compare the same way against everything.
    proof fn law_eq_lt_compat(a: Self, b: Self, c: Self)
        requires
            a.spec_eq(b),
        ensures
            a.spec_lt(c) == b.spec_lt(c),
            c.spec_lt(a) == c.spec_lt(b),
    ;

    /// Zero is below one.
    proof fn law_zero_lt_one()
        ensures
            Self::spec_zero().spec_lt(Self::spec_one()),
    ;

    /// `<` implies `<=`.
    proof fn law_lt_le(a: Self, b: Self)
        requires
            a.spec_lt(b),
        ensures
            a.spec_le(b),
    ;

    /// Subtracting a finite value from itself gives zero exactly.
    proof fn law_sub_self(a: Self)
        requires
            a.spec_finite(),
        ensures
            a.spec_sub(a) == Self::spec_zero(),
    ;

    /// The difference of finite values in ascending order is positive.
    proof fn law_sub_pos(a: Self, b: Self)
        requires
            a.spec_lt(b),
            a.spec_finite(),
            b.spec_finite(),
        ensures
            Self::spec_zero().spec_lt(b.spec_sub(a)),
    ;

    /// Zero divided by a positive value is zero exactly.
    proof fn law_zero_div(d: Self)
        requires
            Self::spec_zero().spec_lt(d),
        ensures
            Self::spec_zero().spec_div(d) == Self::spec_zero(),
    ;

    /// Scaling a finite value by zero and adding the result changes
    /// nothing.
    proof fn law_mul_zero_add(a: Self, b: Self)
        requires
            a.spec_finite(),
        ensures
            a.spec_mul(Self::spec_zero()).spec_add(b) == b,
    ;

    /// None of the distinguished constants is NaN, and the small integer
    /// constants are finite.
    proof fn law_constants_not_nan()
        ensures
            !Self::spec_zero().spec_is_nan(),
            !Self::spec_one().spec_is_nan(),
            !Self::spec_two().spec_is_nan(),
            !Self::spec_three().spec_is_nan(),
            !Self::spec_tolerance().spec_is_nan(),
            Self::spec_zero().spec_finite(),
            Self::spec_one().spec_finite(),
            Self::spec_two().spec_finite(),
            Self::spec_three().spec_finite(),
    ;
}

/// The capability implemented by everything that can be interpolated:
/// positions, tangent vectors and polynomial coefficients.  Mirrors the
/// vector-space operations the curve algorithms perform, each tied to its
/// spec-level model.
pub trait Vector<S: Scalar>: Copy + Sized {
    open spec fn spec_vadd(self, other: Self) -> Self {
        vstd::pervasive::arbitrary()
    }

    open spec fn spec_vsub(self, other: Self) -> Self {
        vstd::pervasive::arbitrary()
    }

    open spec fn spec_vscale(self, factor: S) -> Self {
        vstd::pervasive::arbitrary()
    }

    open spec fn spec_vdiv(self, divisor: S) -> Self {
        vstd::pervasive::arbitrary()
    }

    open spec fn spec_vneg(self) -> Self {
        vstd::pervasive::arbitrary()
    }

    open spec fn spec_vfinite(self) -> bool {
        vstd::pervasive::arbitrary()
    }

    /// Scaling a finite vector by zero and adding the result changes
    /// nothing.
    proof fn law_vscale_zero_vadd(self, other: Self)
        requires
            self.spec_vfinite(),
        ensures
            self.spec_vscale(S::spec_zero()).spec_vadd(other) == other,
    ;

    fn vadd(self, other: Self) -> (r: Self)
        ensures
            r == self.spec_vadd(other),
    ;

    fn vsub(self, other: Self) -> (r: Self)
        ensures
            r == self.spec_vsub(other),
    ;

    fn vscale(self, factor: S) -> (r: Self)
        ensures
            r == self.spec_vscale(factor),
    ;

    fn vdiv(self, divisor: S) -> (r: Self)
        ensures
            r == self.spec_vdiv(divisor),
    ;

    fn vneg(self) -> (r: Self)
        ensures
            r == self.spec_vneg(),
    ;
}

/// Every scalar is also a one-dimensional vector, which is how the
/// shape-preserving and timing splines reuse the curve machinery.
impl<S: Scalar> Vector<S> for S {
    open spec fn spec_vadd(self, other: Self) -> Self {
        self.spec_add(other)
    }

    open spec fn spec_vsub(self, other: Self) -> Self {
        self.spec_sub(other)
    }

    open spec fn spec_vscale(self, factor: S) -> Self {
        self.spec_mul(factor)
    }

    open spec fn spec_vdiv(self, divisor: S) -> Self {
        self.spec_div(divisor)
    }

    open spec fn spec_vneg(self) -> Self {
        self.spec_neg()
    }

    open spec fn spec_vfinite(self) -> bool {
        self.spec_finite()
    }

    proof fn law_vscale_zero_vadd(self, other: Self) {
        S::law_mul_zero_add(self, other);
    }

    fn vadd(self, other: Self) -> Self {
        self.add(other)
    }

    fn vsub(self, other: Self) -> Self {
        self.sub(other)
    }

    fn vscale(self, factor: S) -> Self {
        self.mul(factor)
    }

    fn vdiv(self, divisor: S) -> Self {
        self.div(divisor)
    }

    fn vneg(self) -> Self {
        self.neg()
    }
}

/// The norm capability: a strategy that measures a vector, used for
/// centripetal parametrization and for speed (norm of a velocity).
pub trait NormWrapper<S: Scalar, V: Vector<S>> {
    open spec fn spec_norm(&self, v: V) -> S {
        vstd::pervasive::arbitrary()
    }

    fn norm(&self, v: &V) -> (r: S)
        ensures
            r == self.spec_norm(*v),
    ;
}

} // verus!
