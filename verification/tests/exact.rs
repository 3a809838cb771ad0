//! The spline machinery exercised over the exact integer scalar.

use asdfspline::intscalar::IntScalar;
use asdfspline::piecewisecubiccurve::Segment;
use asdfspline::utilities::{check_grid, GridError};
use asdfspline::{PiecewiseCubicCurve, Scalar};

fn s(units: i64) -> IntScalar {
    IntScalar { units }
}

#[test]
fn exact_scalar_saturates() {
    let top = s(i64::MAX);
    assert_eq!(top.add(s(1)), top);
    assert_eq!(s(i64::MIN).sub(s(1)), s(i64::MIN));
    assert_eq!(s(3_000_000_000).mul(s(4_000_000_000)), top);
}

#[test]
fn exact_scalar_sqrt() {
    assert_eq!(s(0).sqrt(), s(0));
    assert_eq!(s(1).sqrt(), s(1));
    assert_eq!(s(99).sqrt(), s(9));
    assert_eq!(s(100).sqrt(), s(10));
    assert_eq!(s(-5).sqrt(), s(0));
}

#[test]
fn exact_grid_check() {
    assert_eq!(check_grid(&vec![s(0), s(1), s(5)]), Ok(()));
    assert_eq!(
        check_grid(&vec![s(0), s(2), s(2)]),
        Err(GridError::GridNotAscending { index: 2 })
    );
}

#[test]
fn exact_curve_evaluates() {
    // A linear segment: value 10 + 5 t over [0, 1].
    let curve = PiecewiseCubicCurve::new(
        vec![Segment { a0: s(10), a1: s(5), a2: s(0), a3: s(0) }],
        vec![s(0), s(1)],
    )
    .unwrap();
    assert_eq!(curve.evaluate(s(0)), s(10));
    assert_eq!(curve.evaluate(s(1)), s(15));
    assert_eq!(curve.evaluate(s(-7)), s(10));
    assert_eq!(curve.evaluate(s(7)), s(15));
}

#[test]
fn exact_hermite_interpolates() {
    let positions = vec![s(100), s(200), s(400)];
    let tangents = vec![s(100), s(100), s(200), s(200)];
    let grid = vec![s(0), s(1), s(2)];
    let curve = PiecewiseCubicCurve::new_hermite(&positions, &tangents, &grid).unwrap();
    assert_eq!(curve.evaluate(s(0)), s(100));
    assert_eq!(curve.evaluate(s(1)), s(200));
}
