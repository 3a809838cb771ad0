//! The spline pipeline exercised over IEEE single-precision scalars.

use asdfspline::asdfposspline::Error as PosError;
use asdfspline::centripetalkochanekbartelsspline::Error as KbError;
use asdfspline::cubichermitespline::Error as HermiteError;
use asdfspline::monotonecubicspline::{MonotoneError, MonotoneWithSlopesError};
use asdfspline::piecewisecubiccurve::{Error as CurveError, Segment};
use asdfspline::piecewisemonotonecubicspline::PiecewiseMonotoneWithSlopesError;
use asdfspline::utilities::{check_grid, GridError};
use asdfspline::adapters::ConstantSpeedAdapter;
use asdfspline::{
    AsdfPosSpline, MonotoneCubicSpline, NormWrapper, PiecewiseCubicCurve, Scalar,
};

/// A single-precision scalar (a newtype, so that the capability can be
/// implemented here).
#[derive(Clone, Copy, Debug, PartialEq)]
pub struct F32(pub f32);

fn f(x: f32) -> F32 {
    F32(x)
}

impl Scalar for F32 {
    fn add(self, other: F32) -> F32 {
        F32(self.0 + other.0)
    }
    fn sub(self, other: F32) -> F32 {
        F32(self.0 - other.0)
    }
    fn mul(self, other: F32) -> F32 {
        F32(self.0 * other.0)
    }
    fn div(self, other: F32) -> F32 {
        F32(self.0 / other.0)
    }
    fn neg(self) -> F32 {
        F32(-self.0)
    }
    fn abs(self) -> F32 {
        F32(f32::abs(self.0))
    }
    fn sqrt(self) -> F32 {
        F32(f32::sqrt(self.0))
    }
    fn min(self, other: F32) -> F32 {
        F32(f32::min(self.0, other.0))
    }
    fn max(self, other: F32) -> F32 {
        F32(f32::max(self.0, other.0))
    }
    fn lt(self, other: F32) -> bool {
        self.0 < other.0
    }
    fn le(self, other: F32) -> bool {
        self.0 <= other.0
    }
    fn gt(self, other: F32) -> bool {
        self.0 > other.0
    }
    fn ge(self, other: F32) -> bool {
        self.0 >= other.0
    }
    fn is_eq(self, other: F32) -> bool {
        self.0 == other.0
    }
    fn is_nan(self) -> bool {
        f32::is_nan(self.0)
    }
    fn zero() -> F32 {
        F32(0.0)
    }
    fn one() -> F32 {
        F32(1.0)
    }
    fn two() -> F32 {
        F32(2.0)
    }
    fn three() -> F32 {
        F32(3.0)
    }
    fn tolerance() -> F32 {
        F32(0.0001)
    }
    fn nodes() -> Vec<(F32, F32)> {
        // scipy.special.roots_legendre(13), as (position, weight) pairs.
        vec![
            (F32(-0.9841830547185881), F32(0.04048400476531615)),
            (F32(-0.9175983992229779), F32(0.0921214998377276)),
            (F32(-0.8015780907333099), F32(0.1388735102197876)),
            (F32(-0.6423493394403403), F32(0.17814598076194554)),
            (F32(-0.44849275103644687), F32(0.20781604753688862)),
            (F32(-0.23045831595513483), F32(0.2262831802628975)),
            (F32(0.0), F32(0.23255155323087406)),
            (F32(0.23045831595513483), F32(0.2262831802628975)),
            (F32(0.44849275103644687), F32(0.20781604753688862)),
            (F32(0.6423493394403403), F32(0.17814598076194554)),
            (F32(0.8015780907333099), F32(0.1388735102197876)),
            (F32(0.9175983992229779), F32(0.0921214998377276)),
            (F32(0.9841830547185881), F32(0.04048400476531615)),
        ]
    }

    // The law obligations are proof-level and never run; IEEE comparisons
    // satisfy them on values that are not NaN.
    fn law_lt_transitive(_: Self, _: Self, _: Self) {
    }
    fn law_lt_asymmetric(_: Self, _: Self) {
    }
    fn law_le_lt(_: Self, _: Self) {
    }
    fn law_ge_lt(_: Self, _: Self) {
    }
    fn law_gt_lt(_: Self, _: Self) {
    }
    fn law_nan_propagates(_: Self, _: Self) {
    }
    fn law_connex(_: Self, _: Self) {
    }
    fn law_eq_lt_compat(_: Self, _: Self, _: Self) {
    }
    fn law_zero_lt_one() {
    }
    fn law_lt_le(_: Self, _: Self) {
    }
    fn law_sub_self(_: Self) {
    }
    fn law_sub_pos(_: Self, _: Self) {
    }
    fn law_zero_div(_: Self) {
    }
    fn law_mul_zero_add(_: Self, _: Self) {
    }
    fn law_constants_not_nan() {
    }
}

struct AbsNorm;

impl NormWrapper<F32, F32> for AbsNorm {
    fn norm(&self, v: &F32) -> F32 {
        F32(f32::abs(v.0))
    }
}

fn make_simple_curve() -> PiecewiseCubicCurve<F32, F32> {
    PiecewiseCubicCurve::new(
        vec![Segment { a0: f(1.0), a1: f(2.5), a2: f(3.0), a3: f(4.0) }],
        vec![f(5.0), f(6.0)],
    )
    .unwrap()
}

#[test]
fn evaluate() {
    let curve = make_simple_curve();
    assert_eq!(curve.evaluate(f(4.5)), f(1.0));
    assert_eq!(curve.evaluate(f(5.0)), f(1.0));
    assert_eq!(curve.evaluate(f(5.5)), f(3.5));
    assert_eq!(curve.evaluate(f(6.0)), f(10.5));
    assert_eq!(curve.evaluate(f(6.5)), f(10.5));
}

#[test]
fn evaluate_velocity() {
    let curve = make_simple_curve();
    assert_eq!(curve.evaluate_velocity(f(5.0)), f(2.5));
    assert_eq!(curve.evaluate_velocity(f(5.5)), f(8.5));
    assert_eq!(curve.evaluate_velocity(f(6.0)), f(20.5));
}

#[test]
fn segment_length() {
    let curve = make_simple_curve();
    assert_eq!(curve.integrated_speed(0, f(5.0), f(6.0), &AbsNorm), f(9.5));
    assert_eq!(curve.integrated_speed(0, f(5.0), f(5.5), &AbsNorm), f(2.5));
}

#[test]
fn grid() {
    let curve = make_simple_curve();
    assert_eq!(curve.grid().as_slice(), &[f(5.0), f(6.0)]);
}

#[test]
fn cubichermitespline_test_1d() {
    let positions = vec![f(1.0), f(2.0)];
    let tangents = vec![f(3.0), f(4.0)];
    let grid = vec![f(5.0), f(6.0)];
    let curve = PiecewiseCubicCurve::new_hermite(&positions, &tangents, &grid).unwrap();
    assert_eq!(curve.grid().as_slice(), &[f(5.0), f(6.0)]);
}

#[test]
fn test_errors() {
    let result = PiecewiseCubicCurve::new_hermite(&vec![f(1.0)], &vec![f(3.0), f(4.0)], &vec![f(5.0), f(6.0)]);
    assert!(result.is_err());
    let result = PiecewiseCubicCurve::new_hermite(&vec![f(1.0), f(2.0)], &vec![f(3.0)], &vec![f(5.0), f(6.0)]);
    assert!(result.is_err());
    let result =
        PiecewiseCubicCurve::new_hermite(&vec![f(1.0), f(2.0)], &vec![f(3.0), f(3.5), f(4.0)], &vec![f(5.0), f(6.0)]);
    assert!(result.is_err());
    let result = PiecewiseCubicCurve::new_hermite(&vec![f(1.0), f(2.0)], &vec![f(3.0), f(4.0)], &vec![f(5.0)]);
    assert!(result.is_err());
}

#[test]
fn get_time_linear() {
    let values = vec![f(1.0), f(2.0)];
    let grid = vec![f(3.0), f(4.0)];
    let cyclic = false;
    let spline = MonotoneCubicSpline::new(&values, &grid, cyclic).unwrap();
    assert_eq!(spline.get_time(f(0.5)).unwrap(), f(3.0));
    assert_eq!(spline.get_time(f(1.0)).unwrap(), f(3.0));
    assert_eq!(spline.get_time(f(1.5)).unwrap(), f(3.5));
    assert_eq!(spline.get_time(f(2.0)).unwrap(), f(4.0));
    assert_eq!(spline.get_time(f(2.5)).unwrap(), f(4.0));
}

#[test]
fn get_time_plateau() {
    let values = vec![f(1.0), f(2.0), f(2.0), f(3.0)];
    let grid = vec![f(4.0), f(5.0), f(6.0), f(7.0)];
    let cyclic = false;
    let spline = MonotoneCubicSpline::new(&values, &grid, cyclic).unwrap();
    assert_eq!(spline.get_time(f(2.0)), None);
}

#[test]
fn centripetalkochanekbartelsspline_test_1d() {
    let positions = vec![f(1.0), f(2.0), f(3.0)];
    let tcb = vec![[f(4.0), f(5.0), f(6.0)]];
    let closed = false;
    let curve =
        PiecewiseCubicCurve::new_centripetal_kochanek_bartels(&positions, &tcb, closed, &AbsNorm)
            .unwrap();
    assert_eq!(curve.grid()[0], f(0.0));
    assert_eq!(curve.evaluate(f(0.0)), f(1.0));
    let last = curve.grid()[curve.grid().len() - 1];
    assert_eq!(curve.evaluate(last), f(3.0));
}

#[test]
fn asdfposspline_simple_linear() {
    let s = AsdfPosSpline::new(
        &vec![f(1.0), f(2.0)],
        &vec![Some(f(0.0)), Some(f(3.0))],
        &vec![None, None],
        &vec![],
        false,
        AbsNorm,
    )
    .unwrap();
    assert_eq!(s.evaluate(f(1.5)), f(1.5));
}

#[test]
fn asdfposspline_simple_closed() {
    let s = AsdfPosSpline::new(
        &vec![f(1.0), f(2.0)],
        &vec![Some(f(0.0)), None, Some(f(3.0))],
        &vec![None, None],
        &vec![[f(0.0), f(0.0), f(0.0)], [f(0.0), f(0.0), f(0.0)]],
        true,
        AbsNorm,
    )
    .unwrap();
    assert_eq!(s.evaluate(f(1.5)), f(2.0));
}

#[test]
fn asdfposspline_closed_with_time() {
    let s = AsdfPosSpline::new(
        &vec![f(1.0), f(2.0)],
        &vec![Some(f(3.0)), Some(f(4.0)), Some(f(5.0))],
        &vec![None, None],
        &vec![[f(0.0), f(0.0), f(0.0)], [f(0.0), f(0.0), f(0.0)]],
        true,
        AbsNorm,
    )
    .unwrap();
    assert_eq!(s.evaluate(f(4.0)), f(2.0));
}

#[test]
fn asdfspline_simple_linear() {
    let s = AsdfPosSpline::new(
        &vec![f(1.0), f(2.0)],
        &vec![Some(f(0.0)), Some(f(3.0))],
        &vec![None, None],
        &vec![],
        false,
        AbsNorm,
    )
    .unwrap();
    assert_eq!(s.evaluate(f(1.5)), f(1.5));
}

#[test]
fn asdfspline_simple_closed() {
    let s = AsdfPosSpline::new(
        &vec![f(1.0), f(2.0)],
        &vec![Some(f(0.0)), None, Some(f(3.0))],
        &vec![None, None],
        &vec![[f(0.0), f(0.0), f(0.0)], [f(0.0), f(0.0), f(0.0)]],
        true,
        AbsNorm,
    )
    .unwrap();
    assert_eq!(s.evaluate(f(1.5)), f(2.0));
}

#[test]
fn asdfspline_closed_with_time() {
    let s = AsdfPosSpline::new(
        &vec![f(1.0), f(2.0)],
        &vec![Some(f(3.0)), Some(f(4.0)), Some(f(5.0))],
        &vec![None, None],
        &vec![[f(0.0), f(0.0), f(0.0)], [f(0.0), f(0.0), f(0.0)]],
        true,
        AbsNorm,
    )
    .unwrap();
    assert_eq!(s.evaluate(f(4.0)), f(2.0));
}

#[test]
fn shape_preserving_is_monotone() {
    // A spline through non-decreasing values never overshoots.
    let values = vec![f(0.0), f(0.0), f(1.0), f(1.0), f(5.0), f(5.0), f(5.0), f(6.0)];
    let grid = vec![f(0.0), f(1.0), f(2.0), f(3.0), f(4.0), f(5.0), f(6.0), f(7.0)];
    let spline = MonotoneCubicSpline::new(&values, &grid, false).unwrap();
    let curve = spline.inner_ref();
    let mut previous = curve.evaluate(f(0.0));
    let mut k = 1;
    while k <= 700 {
        let t = f(k as f32 * 0.01);
        let value = curve.evaluate(t);
        assert!(value.0 >= previous.0);
        previous = value;
        k += 1;
    }
}

#[test]
fn interpolation_hits_breakpoints() {
    let values = vec![f(1.0), f(2.0), f(2.5), f(7.0)];
    let grid = vec![f(0.0), f(1.0), f(3.0), f(4.0)];
    let curve =
        PiecewiseCubicCurve::new_piecewise_monotone(&values, &grid, false).unwrap();
    assert_eq!(curve.evaluate(f(0.0)), f(1.0));
    assert_eq!(curve.evaluate(f(1.0)), f(2.0));
    assert_eq!(curve.evaluate(f(3.0)), f(2.5));
    assert!((curve.evaluate(f(4.0)).0 - 7.0).abs() < 1e-5);
}

#[test]
fn evaluation_clamps() {
    let curve = make_simple_curve();
    assert_eq!(curve.evaluate(f(-100.0)), curve.evaluate(f(5.0)));
    assert_eq!(curve.evaluate(f(100.0)), curve.evaluate(f(6.0)));
    assert_eq!(curve.evaluate_velocity(f(-100.0)), curve.evaluate_velocity(f(5.0)));
    assert_eq!(curve.evaluate_velocity(f(100.0)), curve.evaluate_velocity(f(6.0)));
}

#[test]
fn quadrature_matches_constant_speed() {
    // A straight segment at unit speed has analytic length.
    let positions = vec![f(0.0), f(4.0)];
    let tangents = vec![f(4.0), f(4.0)];
    let grid = vec![f(0.0), f(1.0)];
    let curve = PiecewiseCubicCurve::new_hermite(&positions, &tangents, &grid).unwrap();
    let length = curve.integrated_speed(0, f(0.0), f(1.0), &AbsNorm);
    assert!((length.0 - 4.0).abs() < 4.0 * 1e-5);
}

#[test]
fn check_grid_reports_first_nan() {
    let grid = vec![f(0.0), f(f32::NAN), f(2.0), f(f32::NAN)];
    assert_eq!(check_grid(&grid), Err(GridError::GridNan { index: 1 }));
}

#[test]
fn check_grid_reports_first_not_ascending() {
    let grid = vec![f(0.0), f(1.0), f(1.0), f(0.5)];
    assert_eq!(check_grid(&grid), Err(GridError::GridNotAscending { index: 2 }));
}

#[test]
fn check_grid_accepts_ascending() {
    let grid = vec![f(-1.0), f(0.0), f(2.5)];
    assert_eq!(check_grid(&grid), Ok(()));
}

#[test]
fn curve_construction_errors() {
    let r = PiecewiseCubicCurve::<F32, F32>::new(vec![], vec![f(5.0)]);
    assert!(matches!(r, Err(CurveError::ZeroSegments)));
    let r = PiecewiseCubicCurve::new(
        vec![Segment { a0: f(1.0), a1: f(0.0), a2: f(0.0), a3: f(0.0) }],
        vec![f(5.0)],
    );
    assert!(matches!(r, Err(CurveError::GridVsSegments { grid: 1, segments: 1 })));
    let r = PiecewiseCubicCurve::new(
        vec![Segment { a0: f(1.0), a1: f(0.0), a2: f(0.0), a3: f(0.0) }],
        vec![f(6.0), f(5.0)],
    );
    assert!(matches!(
        r,
        Err(CurveError::FromGridError(GridError::GridNotAscending { index: 1 }))
    ));
}

#[test]
fn hermite_error_fields() {
    let r = PiecewiseCubicCurve::new_hermite(&vec![f(1.0), f(2.0)], &vec![f(3.0)], &vec![f(5.0), f(6.0)]);
    assert!(matches!(
        r,
        Err(HermiteError::TangentsVsSegments { tangents: 1, segments: 1 })
    ));
    let r = PiecewiseCubicCurve::new_hermite(
        &vec![f(1.0), f(2.0)],
        &vec![f(3.0), f(4.0)],
        &vec![f(5.0), f(6.0), f(7.0)],
    );
    assert!(matches!(r, Err(HermiteError::GridVsPositions { grid: 3, positions: 2 })));
}

#[test]
fn monotone_errors() {
    let r = MonotoneCubicSpline::new(&vec![f(2.0), f(1.0)], &vec![f(0.0), f(1.0)], false);
    assert!(matches!(r, Err(MonotoneError::Decreasing)));
    let r = MonotoneCubicSpline::new(&vec![f(1.0)], &vec![f(0.0)], false);
    assert!(matches!(r, Err(MonotoneError::LessThanTwoValues)));
    let r = MonotoneCubicSpline::new(&vec![f(1.0), f(2.0)], &vec![f(0.0), f(1.0), f(2.0)], false);
    assert!(matches!(r, Err(MonotoneError::GridVsValues { grid: 3, values: 2 })));
    let r = MonotoneCubicSpline::with_slopes(
        &vec![f(1.0), f(2.0), f(3.0)],
        &vec![Some(f(1.0)), None, None],
        &vec![f(0.0), f(1.0), f(2.0)],
        true,
    );
    assert!(matches!(
        r,
        Err(MonotoneWithSlopesError::CyclicWithSlope { first: Some(_), last: None })
    ));
    let r = MonotoneCubicSpline::with_slopes(
        &vec![f(1.0), f(2.0)],
        &vec![Some(f(100.0)), None],
        &vec![f(0.0), f(1.0)],
        false,
    );
    assert!(matches!(
        r,
        Err(MonotoneWithSlopesError::SlopeTooSteep { index: 0, slope: _, maximum: _ })
    ));
    let r = MonotoneCubicSpline::with_slopes(
        &vec![f(1.0), f(2.0)],
        &vec![Some(f(-1.0)), None],
        &vec![f(0.0), f(1.0)],
        false,
    );
    assert!(matches!(r, Err(MonotoneWithSlopesError::NegativeSlope { index: 0, slope: _ })));
}

#[test]
fn slope_too_steep_reports_bound() {
    let r = PiecewiseCubicCurve::new_piecewise_monotone_with_slopes(
        &vec![f(0.0), f(1.0), f(2.0)],
        &vec![None, Some(f(100.0)), None],
        &vec![f(0.0), f(1.0), f(2.0)],
        false,
    );
    match r {
        Err(PiecewiseMonotoneWithSlopesError::SlopeTooSteep { index, slope, maximum }) => {
            assert_eq!(index, 1);
            assert_eq!(slope, f(100.0));
            assert_eq!(maximum, f(3.0));
        }
        _ => panic!("expected a too-steep slope report"),
    }
    let r = PiecewiseCubicCurve::new_piecewise_monotone_with_slopes(
        &vec![f(0.0), f(1.0), f(2.0)],
        &vec![None, Some(f(-2.0)), None],
        &vec![f(0.0), f(1.0), f(2.0)],
        false,
    );
    assert!(matches!(
        r,
        Err(PiecewiseMonotoneWithSlopesError::SlopeWrongSign { index: 1, slope: _ })
    ));
}

#[test]
fn kb_errors() {
    let r = PiecewiseCubicCurve::new_centripetal_kochanek_bartels(
        &vec![f(1.0)],
        &vec![],
        false,
        &AbsNorm,
    );
    assert!(matches!(r, Err(KbError::LessThanTwoPositions)));
    let r = PiecewiseCubicCurve::new_centripetal_kochanek_bartels(
        &vec![f(1.0), f(2.0), f(3.0)],
        &vec![],
        false,
        &AbsNorm,
    );
    assert!(matches!(
        r,
        Err(KbError::TcbVsPositions { tcb: 0, positions: 3, closed: false })
    ));
    let r = PiecewiseCubicCurve::new_centripetal_kochanek_bartels(
        &vec![f(1.0), f(1.0), f(3.0)],
        &vec![[f(0.0), f(0.0), f(0.0)]],
        false,
        &AbsNorm,
    );
    assert!(matches!(r, Err(KbError::RepeatedPosition { index: 1 })));
}

#[test]
fn facade_errors() {
    let r = AsdfPosSpline::new(
        &vec![f(1.0), f(2.0)],
        &vec![Some(f(0.0))],
        &vec![None, None],
        &vec![],
        false,
        AbsNorm,
    );
    assert!(matches!(
        r,
        Err(PosError::TimesVsPositions { times: 1, positions: 2, closed: false })
    ));
    let r = AsdfPosSpline::new(
        &vec![f(1.0), f(2.0)],
        &vec![Some(f(0.0)), Some(f(3.0))],
        &vec![None],
        &vec![],
        false,
        AbsNorm,
    );
    assert!(matches!(r, Err(PosError::SpeedsVsPositions { speeds: 1, positions: 2 })));
    let r = AsdfPosSpline::new(
        &vec![f(1.0), f(2.0)],
        &vec![None, Some(f(3.0))],
        &vec![None, None],
        &vec![],
        false,
        AbsNorm,
    );
    assert!(matches!(r, Err(PosError::FirstTimeMissing)));
    let r = AsdfPosSpline::new(
        &vec![f(1.0), f(2.0)],
        &vec![Some(f(0.0)), None],
        &vec![None, None],
        &vec![],
        false,
        AbsNorm,
    );
    assert!(matches!(r, Err(PosError::LastTimeMissing)));
    let r = AsdfPosSpline::new(
        &vec![f(1.0), f(2.0), f(3.0)],
        &vec![Some(f(0.0)), None, Some(f(3.0))],
        &vec![None, Some(f(1.0)), None],
        &vec![[f(0.0), f(0.0), f(0.0)]],
        false,
        AbsNorm,
    );
    assert!(matches!(r, Err(PosError::SpeedWithoutTime { index: 1 })));
    let r = AsdfPosSpline::new(
        &vec![f(1.0), f(2.0)],
        &vec![Some(f(0.0)), Some(f(f32::NAN))],
        &vec![None, None],
        &vec![],
        false,
        AbsNorm,
    );
    assert!(matches!(r, Err(PosError::TimeNan { index: 1 })));
    let r = AsdfPosSpline::new(
        &vec![f(1.0), f(2.0)],
        &vec![Some(f(3.0)), Some(f(1.0))],
        &vec![None, None],
        &vec![],
        false,
        AbsNorm,
    );
    assert!(matches!(r, Err(PosError::TimesNotAscending { index: 1 })));
    let r = AsdfPosSpline::new(
        &vec![f(1.0), f(2.0)],
        &vec![Some(f(0.0)), Some(f(1.0))],
        &vec![Some(f(100.0)), None],
        &vec![],
        false,
        AbsNorm,
    );
    assert!(matches!(r, Err(PosError::TooFast { index: 0, speed: _, maximum: _ })));
    let r = AsdfPosSpline::new(
        &vec![f(1.0), f(2.0)],
        &vec![Some(f(0.0)), Some(f(1.0))],
        &vec![Some(f(-1.0)), None],
        &vec![],
        false,
        AbsNorm,
    );
    assert!(matches!(r, Err(PosError::NegativeSpeed { index: 0, speed: _ })));
    let r = AsdfPosSpline::new(
        &vec![f(1.0), f(2.0), f(3.0)],
        &vec![Some(f(0.0)), None, Some(f(3.0))],
        &vec![None, None, None],
        &vec![],
        false,
        AbsNorm,
    );
    assert!(matches!(r, Err(PosError::TcbVsPositions { tcb: 0, positions: 3, closed: false })));
}

#[test]
fn get_time_round_trip() {
    let values = vec![f(0.0), f(1.0), f(4.0)];
    let grid = vec![f(0.0), f(1.0), f(2.0)];
    let spline = MonotoneCubicSpline::new(&values, &grid, false).unwrap();
    let curve = spline.inner_ref();
    let mut k = 1;
    while k < 20 {
        let t = f(k as f32 * 0.1);
        let value = curve.evaluate(t);
        let back = spline.get_time(value).unwrap();
        assert!((back.0 - t.0).abs() < 1e-3);
        k += 1;
    }
}

#[test]
fn shape_preserving_variant_interpolates() {
    let values = vec![f(1.0), f(2.0), f(2.5), f(7.0)];
    let grid = vec![f(0.0), f(1.0), f(3.0), f(4.0)];
    let curve = PiecewiseCubicCurve::new_shape_preserving(&values, &grid, false).unwrap();
    assert_eq!(curve.evaluate(f(0.0)), f(1.0));
    assert_eq!(curve.evaluate(f(1.0)), f(2.0));
    assert_eq!(curve.evaluate(f(3.0)), f(2.5));
    let r = PiecewiseCubicCurve::<F32, F32>::new_shape_preserving(&vec![f(1.0)], &vec![f(0.0)], false);
    assert!(matches!(
        r,
        Err(asdfspline::shapepreservingcubicspline::Error::LessThanTwoValues)
    ));
}

#[test]
fn error_messages_render() {
    assert_eq!(
        check_grid(&vec![f(0.0), f(f32::NAN)]).unwrap_err().message(),
        "index 1: NaN values are not allowed in grid"
    );
    assert_eq!(
        check_grid(&vec![f(1.0), f(1.0)]).unwrap_err().message(),
        "index 1: grid values must be strictly ascending"
    );
    match PiecewiseCubicCurve::<F32, F32>::new(vec![], vec![f(5.0)]) {
        Err(e) => assert_eq!(e.message(), "there must be at least one segment"),
        Ok(_) => panic!("expected an error"),
    }
    match PiecewiseCubicCurve::new(
        vec![Segment { a0: f(1.0), a1: f(0.0), a2: f(0.0), a3: f(0.0) }],
        vec![f(5.0)],
    ) {
        Err(e) => assert_eq!(
            e.message(),
            "length of grid (1) must be one more than number of segments (1)"
        ),
        Ok(_) => panic!("expected an error"),
    }
    match MonotoneCubicSpline::new(&vec![f(2.0), f(1.0)], &vec![f(0.0), f(1.0)], false) {
        Err(e) => assert_eq!(e.message(), "values must not be decreasing"),
        Ok(_) => panic!("expected an error"),
    }
    match AsdfPosSpline::new(
        &vec![f(1.0), f(2.0)],
        &vec![None, Some(f(3.0))],
        &vec![None, None],
        &vec![],
        false,
        AbsNorm,
    ) {
        Err(e) => assert_eq!(e.message(), "first time value must be specified"),
        Ok(_) => panic!("expected an error"),
    }
    match AsdfPosSpline::new(
        &vec![f(1.0), f(2.0), f(3.0)],
        &vec![Some(f(0.0)), None, Some(f(3.0))],
        &vec![None, Some(f(1.0)), None],
        &vec![[f(0.0), f(0.0), f(0.0)]],
        false,
        AbsNorm,
    ) {
        Err(e) => assert_eq!(e.message(), "index 1: speed is only allowed if time is given"),
        Ok(_) => panic!("expected an error"),
    }
    match AsdfPosSpline::new(
        &vec![f(1.0), f(2.0), f(3.0)],
        &vec![Some(f(0.0)), Some(f(1.0)), Some(f(12.0))],
        &vec![None, None, None],
        &vec![],
        false,
        AbsNorm,
    ) {
        Err(e) => assert_eq!(
            e.message(),
            "number of positions (3) must be two more than TCB values (0)"
        ),
        Ok(_) => panic!("expected an error"),
    }
}

#[test]
fn constant_speed_adapter_clamps() {
    // A straight segment at speed 4: the arc range is [0, 4] and queries
    // outside it come back clamped to the curve's endpoints.
    let positions = vec![f(0.0), f(4.0)];
    let tangents = vec![f(4.0), f(4.0)];
    let grid = vec![f(0.0), f(1.0)];
    let curve = PiecewiseCubicCurve::new_hermite(&positions, &tangents, &grid).unwrap();
    let adapter = ConstantSpeedAdapter::adapt(curve, AbsNorm);
    assert_eq!(adapter.evaluate(f(-5.0)), f(0.0));
    assert_eq!(adapter.evaluate(f(100.0)), f(4.0));
    assert_eq!(adapter.evaluate(f(2.0)), f(2.0));
}

#[test]
fn closed_monotone_wraps_back() {
    let values = vec![f(0.0), f(1.0), f(3.0)];
    let grid = vec![f(0.0), f(1.0), f(2.0), f(4.0)];
    let curve = PiecewiseCubicCurve::new_piecewise_monotone(&values, &grid, true).unwrap();
    assert_eq!(curve.evaluate(f(0.0)), f(0.0));
    assert_eq!(curve.evaluate(f(1.0)), f(1.0));
    assert_eq!(curve.evaluate(f(2.0)), f(3.0));
    assert!((curve.evaluate(f(4.0)).0 - 0.0).abs() < 1e-5);
}
