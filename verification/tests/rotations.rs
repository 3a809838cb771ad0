//! The rotation pipeline exercised over a hand-rolled single-precision
//! quaternion.

use asdfspline::quaternion::{CubicDeCasteljau, Quaternion};
use asdfspline::{AsdfRotSpline, NormWrapper, Scalar, Vector};

/// A single-precision scalar (a newtype, so that the capability can be
/// implemented here).
#[derive(Clone, Copy, Debug, PartialEq)]
pub struct F32(pub f32);

fn f(x: f32) -> F32 {
    F32(x)
}

impl Scalar for F32 {
    fn add(self, other: F32) -> F32 {
        F32(self.0 + other.0)
    }
    fn sub(self, other: F32) -> F32 {
        F32(self.0 - other.0)
    }
    fn mul(self, other: F32) -> F32 {
        F32(self.0 * other.0)
    }
    fn div(self, other: F32) -> F32 {
        F32(self.0 / other.0)
    }
    fn neg(self) -> F32 {
        F32(-self.0)
    }
    fn abs(self) -> F32 {
        F32(f32::abs(self.0))
    }
    fn sqrt(self) -> F32 {
        F32(f32::sqrt(self.0))
    }
    fn min(self, other: F32) -> F32 {
        F32(f32::min(self.0, other.0))
    }
    fn max(self, other: F32) -> F32 {
        F32(f32::max(self.0, other.0))
    }
    fn lt(self, other: F32) -> bool {
        self.0 < other.0
    }
    fn le(self, other: F32) -> bool {
        self.0 <= other.0
    }
    fn gt(self, other: F32) -> bool {
        self.0 > other.0
    }
    fn ge(self, other: F32) -> bool {
        self.0 >= other.0
    }
    fn is_eq(self, other: F32) -> bool {
        self.0 == other.0
    }
    fn is_nan(self) -> bool {
        f32::is_nan(self.0)
    }
    fn zero() -> F32 {
        F32(0.0)
    }
    fn one() -> F32 {
        F32(1.0)
    }
    fn two() -> F32 {
        F32(2.0)
    }
    fn three() -> F32 {
        F32(3.0)
    }
    fn tolerance() -> F32 {
        F32(0.0001)
    }
    fn nodes() -> Vec<(F32, F32)> {
        vec![
            (F32(-0.9841830547185881), F32(0.04048400476531615)),
            (F32(-0.9175983992229779), F32(0.0921214998377276)),
            (F32(-0.8015780907333099), F32(0.1388735102197876)),
            (F32(-0.6423493394403403), F32(0.17814598076194554)),
            (F32(-0.44849275103644687), F32(0.20781604753688862)),
            (F32(-0.23045831595513483), F32(0.2262831802628975)),
            (F32(0.0), F32(0.23255155323087406)),
            (F32(0.23045831595513483), F32(0.2262831802628975)),
            (F32(0.44849275103644687), F32(0.20781604753688862)),
            (F32(0.6423493394403403), F32(0.17814598076194554)),
            (F32(0.8015780907333099), F32(0.1388735102197876)),
            (F32(0.9175983992229779), F32(0.0921214998377276)),
            (F32(0.9841830547185881), F32(0.04048400476531615)),
        ]
    }
    fn law_lt_transitive(_: Self, _: Self, _: Self) {
    }
    fn law_lt_asymmetric(_: Self, _: Self) {
    }
    fn law_le_lt(_: Self, _: Self) {
    }
    fn law_ge_lt(_: Self, _: Self) {
    }
    fn law_gt_lt(_: Self, _: Self) {
    }
    fn law_nan_propagates(_: Self, _: Self) {
    }
    fn law_connex(_: Self, _: Self) {
    }
    fn law_eq_lt_compat(_: Self, _: Self, _: Self) {
    }
    fn law_zero_lt_one() {
    }
    fn law_lt_le(_: Self, _: Self) {
    }
    fn law_sub_self(_: Self) {
    }
    fn law_sub_pos(_: Self, _: Self) {
    }
    fn law_zero_div(_: Self) {
    }
    fn law_mul_zero_add(_: Self, _: Self) {
    }
    fn law_constants_not_nan() {
    }
}

#[derive(Clone, Copy, Debug, PartialEq)]
pub struct V3 {
    pub x: f32,
    pub y: f32,
    pub z: f32,
}

fn v3(x: f32, y: f32, z: f32) -> V3 {
    V3 { x, y, z }
}

fn v3_norm(v: V3) -> f32 {
    (v.x * v.x + v.y * v.y + v.z * v.z).sqrt()
}

impl Vector<F32> for V3 {
    fn vadd(self, other: V3) -> V3 {
        v3(self.x + other.x, self.y + other.y, self.z + other.z)
    }
    fn vsub(self, other: V3) -> V3 {
        v3(self.x - other.x, self.y - other.y, self.z - other.z)
    }
    fn vscale(self, factor: F32) -> V3 {
        v3(self.x * factor.0, self.y * factor.0, self.z * factor.0)
    }
    fn vdiv(self, divisor: F32) -> V3 {
        v3(self.x / divisor.0, self.y / divisor.0, self.z / divisor.0)
    }
    fn vneg(self) -> V3 {
        v3(-self.x, -self.y, -self.z)
    }
    fn law_vscale_zero_vadd(self, _: Self) {
    }
}

struct AngularNorm;

impl NormWrapper<F32, V3> for AngularNorm {
    fn norm(&self, v: &V3) -> F32 {
        F32(v3_norm(*v))
    }
}

#[derive(Clone, Copy, Debug, PartialEq)]
pub struct Quat {
    pub w: f32,
    pub x: f32,
    pub y: f32,
    pub z: f32,
}

fn quat_mul(a: Quat, b: Quat) -> Quat {
    Quat {
        w: a.w * b.w - a.x * b.x - a.y * b.y - a.z * b.z,
        x: a.w * b.x + a.x * b.w + a.y * b.z - a.z * b.y,
        y: a.w * b.y - a.x * b.z + a.y * b.w + a.z * b.x,
        z: a.w * b.z + a.x * b.y - a.y * b.x + a.z * b.w,
    }
}

fn quat_conj(a: Quat) -> Quat {
    Quat { w: a.w, x: -a.x, y: -a.y, z: -a.z }
}

fn quat_log(a: Quat) -> V3 {
    let v = v3(a.x, a.y, a.z);
    let n = v3_norm(v);
    if n == 0.0 {
        v3(0.0, 0.0, 0.0)
    } else {
        let angle = 2.0 * n.atan2(a.w);
        v.vscale(F32(angle / n))
    }
}

fn quat_exp(w: V3) -> Quat {
    let angle = v3_norm(w);
    if angle == 0.0 {
        Quat { w: 1.0, x: 0.0, y: 0.0, z: 0.0 }
    } else {
        let half = angle / 2.0;
        let s = half.sin() / angle;
        Quat { w: half.cos(), x: w.x * s, y: w.y * s, z: w.z * s }
    }
}

impl Quaternion<F32, V3> for Quat {
    fn rotation_to(self, other: Quat) -> Quat {
        quat_mul(other, quat_conj(self))
    }
    fn scaled_axis(self) -> V3 {
        quat_log(self)
    }
    fn from_scaled_axis(w: V3) -> Quat {
        quat_exp(w)
    }
    fn slerp(self, other: Quat, t: F32) -> Quat {
        let rel = quat_mul(other, quat_conj(self));
        quat_mul(quat_exp(quat_log(rel).vscale(t)), self)
    }
    fn dot(self, other: Quat) -> F32 {
        F32(self.w * other.w + self.x * other.x + self.y * other.y + self.z * other.z)
    }
    fn inverse(self) -> Quat {
        quat_conj(self)
    }
    fn compose(self, other: Quat) -> Quat {
        quat_mul(self, other)
    }
    fn power(self, exponent: F32) -> Quat {
        quat_exp(quat_log(self).vscale(exponent))
    }
    fn angle(self) -> F32 {
        F32(v3_norm(quat_log(self)))
    }
    fn neg(self) -> Quat {
        Quat { w: -self.w, x: -self.x, y: -self.y, z: -self.z }
    }
    fn identity() -> Quat {
        Quat { w: 1.0, x: 0.0, y: 0.0, z: 0.0 }
    }
}

fn z_rotation(angle: f32) -> Quat {
    let half = angle / 2.0;
    Quat { w: half.cos(), x: 0.0, y: 0.0, z: half.sin() }
}

fn assert_close(a: Quat, b: Quat) {
    assert!((a.w - b.w).abs() < 1e-4);
    assert!((a.x - b.x).abs() < 1e-4);
    assert!((a.y - b.y).abs() < 1e-4);
    assert!((a.z - b.z).abs() < 1e-4);
}

/// Compares rotations: a quaternion and its negation rotate alike.
fn assert_same_rotation(a: Quat, b: Quat) {
    let direct = (a.w - b.w).abs() + (a.x - b.x).abs() + (a.y - b.y).abs() + (a.z - b.z).abs();
    let flipped = (a.w + b.w).abs() + (a.x + b.x).abs() + (a.y + b.y).abs() + (a.z + b.z).abs();
    assert!(direct < 1e-3 || flipped < 1e-3);
}

#[test]
fn rot_spline_interpolates_endpoints() {
    let quarter = std::f32::consts::FRAC_PI_2;
    let quaternions = vec![z_rotation(0.0), z_rotation(quarter)];
    let times = vec![Some(f(0.0)), Some(f(1.0))];
    let tcb: Vec<[F32; 3]> = vec![];
    let s = AsdfRotSpline::new(&quaternions, &times, &tcb, false, AngularNorm).unwrap();
    assert_close(s.evaluate(f(0.0)), z_rotation(0.0));
    assert_close(s.evaluate(f(1.0)), z_rotation(quarter));
    assert_close(s.evaluate(f(0.5)), z_rotation(quarter / 2.0));
}

#[test]
fn rot_spline_reports_missing_times() {
    let quarter = std::f32::consts::FRAC_PI_2;
    let quaternions = vec![z_rotation(0.0), z_rotation(quarter)];
    let tcb: Vec<[F32; 3]> = vec![];
    let r = AsdfRotSpline::new(
        &quaternions,
        &vec![None, Some(f(1.0))],
        &tcb,
        false,
        AngularNorm,
    );
    assert!(matches!(r, Err(asdfspline::asdfrotspline::Error::FirstTimeMissing)));
    let r = AsdfRotSpline::new(
        &quaternions,
        &vec![Some(f(0.0)), None],
        &tcb,
        false,
        AngularNorm,
    );
    assert!(matches!(r, Err(asdfspline::asdfrotspline::Error::LastTimeMissing)));
    let r = AsdfRotSpline::new(&quaternions, &vec![Some(f(0.0))], &tcb, false, AngularNorm);
    assert!(matches!(
        r,
        Err(asdfspline::asdfrotspline::Error::TimesVsQuaternions {
            times: 1,
            quaternions: 2,
            closed: false,
        })
    ));
}

#[test]
fn rot_kb_rejects_repeats() {
    let quarter = std::f32::consts::FRAC_PI_2;
    let quaternions = vec![z_rotation(0.0), z_rotation(0.0), z_rotation(quarter)];
    let tcb = vec![[f(0.0), f(0.0), f(0.0)]];
    let r = CubicDeCasteljau::new_centripetal_kochanek_bartels(&quaternions, &tcb, false);
    assert!(matches!(
        r,
        Err(
            asdfspline::quaternion::centripetalkochanekbartelsspline::Error::RepeatedQuaternion {
                index: 1,
            },
        )
    ));
}

#[test]
fn rot_spline_closed_returns_home() {
    let quarter = std::f32::consts::FRAC_PI_2;
    let quaternions = vec![z_rotation(0.0), z_rotation(quarter), z_rotation(2.0 * quarter)];
    let times = vec![Some(f(0.0)), None, None, Some(f(3.0))];
    let tcb = vec![
        [f(0.0), f(0.0), f(0.0)],
        [f(0.0), f(0.0), f(0.0)],
        [f(0.0), f(0.0), f(0.0)],
    ];
    let s = AsdfRotSpline::new(&quaternions, &times, &tcb, true, AngularNorm).unwrap();
    assert_same_rotation(s.evaluate(f(0.0)), z_rotation(0.0));
    assert_same_rotation(s.evaluate(f(3.0)), z_rotation(0.0));
}

#[test]
fn decasteljau_rejects_bad_control_polygon() {
    let q = z_rotation(0.0);
    let r = CubicDeCasteljau::new(vec![q, q, q], vec![f(0.0), f(1.0)]);
    assert!(matches!(
        r,
        Err(asdfspline::quaternion::cubicdecasteljau::Error::GridVsControlPolygon {
            grid: 2,
            control_polygon: 3,
        })
    ));
    let r = CubicDeCasteljau::new(vec![q], vec![f(0.0)]);
    assert!(matches!(
        r,
        Err(asdfspline::quaternion::cubicdecasteljau::Error::GridTooShort)
    ));
}
