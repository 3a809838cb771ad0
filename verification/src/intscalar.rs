//! An exact integer scalar: the in-crate model of the [`Scalar`] capability.
//!
//! Arithmetic saturates at the ends of the `i64` range, comparisons are the
//! integer ones, and nothing is ever NaN.  Division and square root are
//! defined on non-negative operands and yield zero elsewhere.  This type
//! demonstrates that the scalar laws are satisfiable and gives the spline
//! pipeline an exactly-predictable instantiation.

use vstd::prelude::*;

use crate::Scalar;

verus! {

#[derive(Clone, Copy, Debug, PartialEq, Eq, Structural)]
pub struct IntScalar {
    pub units: i64,
}

/// Clamps a mathematical integer into the `i64` range.
pub open spec fn sat64(x: int) -> i64 {
    if x > i64::MAX {
        i64::MAX
    } else if x < i64::MIN {
        i64::MIN
    } else {
        x as i64
    }
}

/// The non-negative integer square root, by its defining property.
pub open spec fn spec_isqrt(n: int) -> int {
    choose|r: int| 0 <= r && (#[trigger] (r * r)) <= n && (r + 1) * (r + 1) > n
}

proof fn lemma_isqrt_is(n: int, r: int)
    requires
        0 <= r,
        r * r <= n,
        (r + 1) * (r + 1) > n,
    ensures
        spec_isqrt(n) == r,
{
    assert(0 <= r && r * r <= n && (r + 1) * (r + 1) > n);
    let c = spec_isqrt(n);
    assert(0 <= c && c * c <= n && (c + 1) * (c + 1) > n);
    assert(c == r) by (nonlinear_arith)
        requires
            0 <= r,
            r * r <= n,
            (r + 1) * (r + 1) > n,
            0 <= c,
            c * c <= n,
            (c + 1) * (c + 1) > n,
    ;
}

impl Scalar for IntScalar {
    open spec fn spec_add(self, other: Self) -> Self {
        IntScalar { units: sat64(self.units + other.units) }
    }

    open spec fn spec_sub(self, other: Self) -> Self {
        IntScalar { units: sat64(self.units - other.units) }
    }

    open spec fn spec_mul(self, other: Self) -> Self {
        IntScalar { units: sat64(self.units * other.units) }
    }

    open spec fn spec_div(self, other: Self) -> Self {
        if other.units <= 0 || self.units < 0 {
            IntScalar { units: 0 }
        } else {
            IntScalar { units: (self.units / other.units) as i64 }
        }
    }

    open spec fn spec_neg(self) -> Self {
        IntScalar { units: sat64(-self.units) }
    }

    open spec fn spec_abs(self) -> Self {
        if self.units < 0 {
            IntScalar { units: sat64(-self.units) }
        } else {
            self
        }
    }

    open spec fn spec_sqrt(self) -> Self {
        if self.units < 0 {
            IntScalar { units: 0 }
        } else {
            IntScalar { units: spec_isqrt(self.units as int) as i64 }
        }
    }

    open spec fn spec_min(self, other: Self) -> Self {
        if self.units <= other.units {
            self
        } else {
            other
        }
    }

    open spec fn spec_max(self, other: Self) -> Self {
        if self.units >= other.units {
            self
        } else {
            other
        }
    }

    open spec fn spec_lt(self, other: Self) -> bool {
        self.units < other.units
    }

    open spec fn spec_le(self, other: Self) -> bool {
        self.units <= other.units
    }

    open spec fn spec_gt(self, other: Self) -> bool {
        self.units > other.units
    }

    open spec fn spec_ge(self, other: Self) -> bool {
        self.units >= other.units
    }

    open spec fn spec_eq(self, other: Self) -> bool {
        self.units == other.units
    }

    open spec fn spec_is_nan(self) -> bool {
        false
    }

    open spec fn spec_finite(self) -> bool {
        true
    }

    open spec fn spec_zero() -> Self {
        IntScalar { units: 0 }
    }

    open spec fn spec_one() -> Self {
        IntScalar { units: 1 }
    }

    open spec fn spec_two() -> Self {
        IntScalar { units: 2 }
    }

    open spec fn spec_three() -> Self {
        IntScalar { units: 3 }
    }

    open spec fn spec_tolerance() -> Self {
        IntScalar { units: 1 }
    }

    open spec fn spec_nodes() -> Seq<(Self, Self)> {
        Seq::new(13, |i: int| (IntScalar { units: 0 }, IntScalar { units: 0 }))
    }

    fn add(self, other: Self) -> Self {
        let s: i128 = self.units as i128 + other.units as i128;
        let u: i64 = if s > i64::MAX as i128 {
            i64::MAX
        } else if s < i64::MIN as i128 {
            i64::MIN
        } else {
            s as i64
        };
        IntScalar { units: u }
    }

    fn sub(self, other: Self) -> Self {
        let s: i128 = self.units as i128 - other.units as i128;
        let u: i64 = if s > i64::MAX as i128 {
            i64::MAX
        } else if s < i64::MIN as i128 {
            i64::MIN
        } else {
            s as i64
        };
        IntScalar { units: u }
    }

    fn mul(self, other: Self) -> Self {
        proof {
            assert(-85070591730234615865843651857942052864 <= self.units as int * other.units as int
                <= 85070591730234615865843651857942052864) by (nonlinear_arith)
                requires
                    -9223372036854775808 <= self.units as int <= 9223372036854775807,
                    -9223372036854775808 <= other.units as int <= 9223372036854775807,
            ;
        }
        let s: i128 = self.units as i128 * other.units as i128;
        let u: i64 = if s > i64::MAX as i128 {
            i64::MAX
        } else if s < i64::MIN as i128 {
            i64::MIN
        } else {
            s as i64
        };
        IntScalar { units: u }
    }

    fn div(self, other: Self) -> Self {
        if other.units <= 0 || self.units < 0 {
            IntScalar { units: 0 }
        } else {
            IntScalar { units: self.units / other.units }
        }
    }

    fn neg(self) -> Self {
        if self.units == i64::MIN {
            IntScalar { units: i64::MAX }
        } else {
            IntScalar { units: -self.units }
        }
    }

    fn abs(self) -> Self {
        if self.units < 0 {
            if self.units == i64::MIN {
                IntScalar { units: i64::MAX }
            } else {
                IntScalar { units: -self.units }
            }
        } else {
            self
        }
    }

    fn sqrt(self) -> Self {
        if self.units < 0 {
            return IntScalar { units: 0 };
        }
        let n: i64 = self.units;
        let mut r: i64 = 0;
        loop
            invariant
                0 <= n,
                n == self.units,
                0 <= r,
                r * r <= n,
            ensures
                0 <= r,
                r * r <= n,
                (r + 1) * (r + 1) > n,
            decreases n - r * r,
        {
            proof {
                assert(r <= 3037000499) by (nonlinear_arith)
                    requires
                        0 <= r,
                        r * r <= n,
                        n <= 9223372036854775807,
                ;
            }
            let nx: i64 = r + 1;
            proof {
                assert(nx as int * nx as int <= 9223372037000250000) by (nonlinear_arith)
                    requires
                        0 <= nx as int <= 3037000500,
                ;
            }
            let sq: i128 = nx as i128 * nx as i128;
            if sq <= n as i128 {
                proof {
                    assert(r * r < nx * nx) by (nonlinear_arith)
                        requires
                            0 <= r,
                            nx == r + 1,
                    ;
                }
                r = nx;
            } else {
                break;
            }
        }
        proof {
            lemma_isqrt_is(n as int, r as int);
        }
        IntScalar { units: r }
    }

    fn min(self, other: Self) -> Self {
        if self.units <= other.units {
            self
        } else {
            other
        }
    }

    fn max(self, other: Self) -> Self {
        if self.units >= other.units {
            self
        } else {
            other
        }
    }

    fn lt(self, other: Self) -> bool {
        self.units < other.units
    }

    fn le(self, other: Self) -> bool {
        self.units <= other.units
    }

    fn gt(self, other: Self) -> bool {
        self.units > other.units
    }

    fn ge(self, other: Self) -> bool {
        self.units >= other.units
    }

    fn is_eq(self, other: Self) -> bool {
        self.units == other.units
    }

    fn is_nan(self) -> bool {
        false
    }

    fn zero() -> Self {
        IntScalar { units: 0 }
    }

    fn one() -> Self {
        IntScalar { units: 1 }
    }

    fn two() -> Self {
        IntScalar { units: 2 }
    }

    fn three() -> Self {
        IntScalar { units: 3 }
    }

    fn tolerance() -> Self {
        IntScalar { units: 1 }
    }

    fn nodes() -> (r: Vec<(Self, Self)>) {
        let mut v: Vec<(Self, Self)> = Vec::new();
        while v.len() < 13
            invariant
                v@.len() <= 13,
                forall|j: int|
                    0 <= j < v@.len() ==> v@[j] == (
                    IntScalar { units: 0 },
                    IntScalar { units: 0 },
                    ),
            decreases 13 - v@.len(),
        {
            v.push((IntScalar { units: 0 }, IntScalar { units: 0 }));
        }
        proof {
            assert(v@ =~= Self::spec_nodes());
        }
        v
    }

    proof fn law_lt_transitive(a: Self, b: Self, c: Self) {
    }

    proof fn law_lt_asymmetric(a: Self, b: Self) {
    }

    proof fn law_le_lt(a: Self, b: Self) {
    }

    proof fn law_ge_lt(a: Self, b: Self) {
    }

    proof fn law_gt_lt(a: Self, b: Self) {
    }

    proof fn law_nan_propagates(a: Self, b: Self) {
    }

    proof fn law_connex(a: Self, b: Self) {
    }

    proof fn law_eq_lt_compat(a: Self, b: Self, c: Self) {
    }

    proof fn law_zero_lt_one() {
    }

    proof fn law_lt_le(a: Self, b: Self) {
    }

    proof fn law_sub_self(a: Self) {
    }

    proof fn law_sub_pos(a: Self, b: Self) {
    }

    proof fn law_zero_div(d: Self) {
    }

    proof fn law_mul_zero_add(a: Self, b: Self) {
    }

    proof fn law_constants_not_nan() {
    }
}

} // verus!
