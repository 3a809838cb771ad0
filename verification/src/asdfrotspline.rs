//! The top-level rotation spline: a centripetal Kochanek-Bartels rotation
//! path, traversed at constant angular speed, retimed onto the user's
//! (possibly partial) time grid.

use vstd::prelude::*;

use vstd::string::StringExecFns;

use crate::utilities::{indexed_message, usize_to_string};

use vstd::pervasive::unreached;

use crate::adapters::{
    lemma_all_none_no_slope_error, lemma_kept_wf, solve_new_grid, solve_new_grid_spec,
    spec_kept_mid, spec_times, NewGridError, NewGridWithSpeedsError,
};
use crate::monotonecubicspline::spec_cyclic_slope;
use crate::piecewisecubiccurve::{lemma_clamp_index, spec_clamp, PiecewiseCubicCurve};
use crate::piecewisemonotonecubicspline::{
    spec_calculate_slope_ok, spec_chord, spec_none_slopes, PiecewiseMonotoneWithSlopesError,
};
use crate::quaternion::centripetalkochanekbartelsspline::{
    spec_rot_canon, spec_rot_control_polygon, spec_rot_final_grid, spec_rot_lens_ok,
    spec_rot_no_repeat, Error as RotKbError,
};
use crate::quaternion::cubicdecasteljau::{decasteljau_integrated_speed, CubicDeCasteljau};
use crate::quaternion::Quaternion;
use crate::utilities::{
    bisect, grid_adjacent_ascending, grid_no_nan, grid_sorted, lemma_le_refl, spec_never_zero_at,
    spec_only_zero_at, upper_bound, GridError,
};
use crate::{NormWrapper, Scalar, Vector};

verus! {

#[derive(Clone, Copy, Debug)]
pub enum Error {
    LessThanTwoQuaternions,
    TimesVsQuaternions { times: usize, quaternions: usize, closed: bool },
    FirstTimeMissing,
    LastTimeMissing,
    DuplicateQuaternionWithoutTime { index: usize },
    TimeNan { index: usize },
    TimesNotAscending { index: usize },
    TcbVsQuaternions { tcb: usize, quaternions: usize, closed: bool },
    RepeatedQuaternion { index: usize },
}

/// The arc-length grid entry at index `k` over a rotation curve.
pub open spec fn spec_rot_arc_at<S: Scalar, W: Vector<S>, Q: Quaternion<S, W>, N: NormWrapper<
    S,
    W,
>>(g: Seq<S>, cp: Seq<Q>, norm: N, k: int) -> S
    decreases k,
{
    if k <= 0 {
        S::spec_zero()
    } else {
        spec_rot_arc_at(g, cp, norm, k - 1).spec_add(
            decasteljau_integrated_speed(g, cp, norm, g[k - 1], g[k]),
        )
    }
}

pub open spec fn spec_rot_arc_grid<S: Scalar, W: Vector<S>, Q: Quaternion<S, W>, N: NormWrapper<
    S,
    W,
>>(g: Seq<S>, cp: Seq<Q>, norm: N) -> Seq<S> {
    Seq::new(g.len(), |i: int| spec_rot_arc_at(g, cp, norm, i))
}

/// Reparametrizes a rotation curve by the arc length of its angular
/// motion.
pub struct RotConstantSpeedAdapter<
    S: Scalar,
    W: Vector<S>,
    Q: Quaternion<S, W>,
    N: NormWrapper<S, W>,
> {
    inner: CubicDeCasteljau<S, W, Q>,
    grid: Vec<S>,
    norm: N,
}

impl<S: Scalar, W: Vector<S>, Q: Quaternion<S, W>, N: NormWrapper<S, W>> RotConstantSpeedAdapter<
    S,
    W,
    Q,
    N,
> {
    pub closed spec fn spec_inner(self) -> CubicDeCasteljau<S, W, Q> {
        self.inner
    }

    pub closed spec fn spec_grid(self) -> Seq<S> {
        self.grid@
    }

    pub closed spec fn spec_norm_strategy(self) -> N {
        self.norm
    }

    /// As for positions: well-formedness asks that the stored grid is the
    /// arc-length grid of the inner curve and is usable for evaluation,
    /// which holds whenever the norm behaves like a length.
    pub open spec fn wf(self) -> bool {
        &&& self.spec_inner().wf()
        &&& self.spec_grid() == spec_rot_arc_grid(
            self.spec_inner().spec_grid(),
            self.spec_inner().spec_control_polygon(),
            self.spec_norm_strategy(),
        )
        &&& self.spec_grid().len() == self.spec_inner().spec_grid().len()
        &&& grid_no_nan(self.spec_grid())
        &&& grid_sorted(self.spec_grid())
    }

    pub fn adapt(inner: CubicDeCasteljau<S, W, Q>, norm: N) -> (r: Self)
        requires
            inner.wf(),
        ensures
            r.spec_inner() == inner,
            r.spec_norm_strategy() == norm,
            r.spec_grid() == spec_rot_arc_grid(
                inner.spec_grid(),
                inner.spec_control_polygon(),
                norm,
            ),
    {
        let mut grid: Vec<S> = Vec::new();
        grid.push(S::zero());
        let n: usize = inner.grid().len();
        let mut i: usize = 0;
        while i < n - 1
            invariant
                inner.wf(),
                n == inner.spec_grid().len(),
                i <= n - 1,
                grid@.len() == i + 1,
                forall|k: int|
                    0 <= k <= i ==> #[trigger] grid@[k] == spec_rot_arc_at(
                        inner.spec_grid(),
                        inner.spec_control_polygon(),
                        norm,
                        k,
                    ),
            decreases n - 1 - i,
        {
            let t0: S = inner.grid()[i];
            let t1: S = inner.grid()[i + 1];
            proof {
                assert(inner.spec_grid()[i as int].spec_lt(inner.spec_grid()[i + 1]));
                S::law_lt_le(t0, t1);
                lemma_le_refl(t0);
                lemma_le_refl(t1);
            }
            let seg_len: S = inner.integrated_speed(i, t0, t1, &norm);
            let last: S = grid[grid.len() - 1];
            grid.push(last.add(seg_len));
            i += 1;
        }
        proof {
            assert(grid@ =~= spec_rot_arc_grid(
                inner.spec_grid(),
                inner.spec_control_polygon(),
                norm,
            ));
        }
        RotConstantSpeedAdapter { inner, grid, norm }
    }

    /// What the numeric inversion's search function samples at the very
    /// start of the curve: the zero-width angular-speed integral over the
    /// first breakpoint.
    pub open spec fn spec_start_sample(self) -> S {
        decasteljau_integrated_speed(
            self.spec_inner().spec_grid(),
            self.spec_inner().spec_control_polygon(),
            self.spec_norm_strategy(),
            self.spec_inner().spec_grid()[0],
            self.spec_inner().spec_grid()[0],
        ).spec_sub(S::spec_zero())
    }

    /// The inversion at the start of the curve is exact: the zero-width
    /// integral compares equal to zero.
    pub open spec fn spec_start_inversion_exact(self) -> bool {
        self.spec_start_sample().spec_eq(S::spec_zero())
    }

    /// The arc length the last segment is asked to cover for a query at or
    /// beyond the end of the range.
    pub open spec fn spec_end_local(self) -> S {
        self.spec_grid()[self.spec_grid().len() - 1].spec_sub(
            self.spec_grid()[self.spec_grid().len() - 2],
        )
    }

    /// The search function's samples at the two ends of the last segment
    /// for such a query.
    pub open spec fn spec_end_sample(self) -> S {
        decasteljau_integrated_speed(
            self.spec_inner().spec_grid(),
            self.spec_inner().spec_control_polygon(),
            self.spec_norm_strategy(),
            self.spec_inner().spec_grid()[self.spec_inner().spec_grid().len() - 2],
            self.spec_inner().spec_grid()[self.spec_inner().spec_grid().len() - 1],
        ).spec_sub(self.spec_end_local())
    }

    pub open spec fn spec_end_start_sample(self) -> S {
        decasteljau_integrated_speed(
            self.spec_inner().spec_grid(),
            self.spec_inner().spec_control_polygon(),
            self.spec_norm_strategy(),
            self.spec_inner().spec_grid()[self.spec_inner().spec_grid().len() - 2],
            self.spec_inner().spec_grid()[self.spec_inner().spec_grid().len() - 2],
        ).spec_sub(self.spec_end_local())
    }

    /// The inversion at the end of the curve is exact: re-integrating the
    /// last segment cancels the accumulated arc length exactly.
    pub open spec fn spec_end_inversion_exact(self) -> bool {
        self.spec_end_sample().spec_eq(S::spec_zero()) && !self.spec_end_start_sample().spec_eq(
            S::spec_zero(),
        )
    }

    /// What holds of the parameter the numeric inversion lands on.
    pub open spec fn spec_s2t_post(self, s: S, r: S) -> bool {
        let (sc, idx) = spec_clamp(self.spec_grid(), s);
        let t0 = self.spec_inner().spec_grid()[idx];
        let t1 = self.spec_inner().spec_grid()[idx + 1];
        r.spec_is_nan() || (t0.spec_le(r) && r.spec_le(t1)) || (exists|x: S, y: S|
            (x.spec_is_nan() || (t0.spec_le(x) && x.spec_le(t1))) && (y.spec_is_nan() || (
            t0.spec_le(y) && y.spec_le(t1))) && r == x.spec_add(y).spec_div(S::spec_two()))
    }

    /// Queries outside the arc range clamp: where the inversion at the
    /// nearer end is exact, the first or last breakpoint itself comes
    /// back.
    fn s2t(&self, s: S) -> (r: S)
        requires
            self.wf(),
        ensures
            self.spec_s2t_post(s, r),
            (s.spec_lt(self.spec_grid()[0]) && self.spec_start_inversion_exact()) ==> r
                == self.spec_inner().spec_grid()[0],
            (!s.spec_lt(self.spec_grid()[0]) && !s.spec_lt(
                self.spec_grid()[self.spec_grid().len() - 1],
            ) && self.spec_end_inversion_exact()) ==> r == self.spec_inner().spec_grid()[
                self.spec_inner().spec_grid().len() - 1],
    {
        proof {
            lemma_clamp_index(self.grid@, s);
        }
        let first: S = self.grid[0];
        let last: S = self.grid[self.grid.len() - 1];
        let (sc, idx): (S, usize) = if s.lt(first) {
            (first, 0)
        } else if s.lt(last) {
            (s, upper_bound(&self.grid, s) - 1)
        } else {
            (last, self.grid.len() - 2)
        };
        let s_local: S = sc.sub(self.grid[idx]);
        let t0: S = self.inner.grid()[idx];
        let t1: S = self.inner.grid()[idx + 1];
        // The root finder only samples inside the segment; the guard keeps
        // the search function total.
        let f = |t: S| -> (y: S)
            ensures
                y == (if t0.spec_le(t) && t.spec_le(t1) {
                    decasteljau_integrated_speed(
                        self.spec_inner().spec_grid(),
                        self.spec_inner().spec_control_polygon(),
                        self.spec_norm_strategy(),
                        t0,
                        t,
                    ).spec_sub(s_local)
                } else {
                    s_local.spec_neg()
                }),
            {
                if t0.le(t) && t.le(t1) {
                    proof {
                        lemma_le_refl(t0);
                    }
                    self.inner.integrated_speed(idx, t0, t, &self.norm).sub(s_local)
                } else {
                    s_local.neg()
                }
            };
        proof {
            assert(self.spec_grid()[idx as int].spec_lt(self.spec_grid()[idx + 1]));
            assert(self.spec_inner().spec_grid()[idx as int].spec_lt(
                self.spec_inner().spec_grid()[idx + 1],
            ));
            S::law_lt_le(t0, t1);
            lemma_le_refl(t0);
            lemma_le_refl(t1);
            if s.spec_lt(self.spec_grid()[0]) {
                // The first arc entry is zero by construction, so the
                // local arc length is exactly zero.
                assert(self.spec_grid()[0] == S::spec_zero());
                S::law_constants_not_nan();
                S::law_sub_self(S::spec_zero());
                assert(s_local == S::spec_zero());
                if self.spec_start_inversion_exact() {
                    assert forall|y: S| #[trigger] call_ensures(f, (t0,), y) implies y.spec_eq(
                        S::spec_zero(),
                    ) by {
                        assert(y == self.spec_start_sample());
                    }
                    assert(spec_only_zero_at(f, t0));
                }
            }
            if !s.spec_lt(self.spec_grid()[0]) && !s.spec_lt(
                self.spec_grid()[self.spec_grid().len() - 1],
            ) {
                assert(s_local == self.spec_end_local());
                if self.spec_end_inversion_exact() {
                    assert forall|y: S| #[trigger] call_ensures(f, (t0,), y) implies !y.spec_eq(
                        S::spec_zero(),
                    ) by {
                        assert(y == self.spec_end_start_sample());
                    }
                    assert forall|y: S| #[trigger] call_ensures(f, (t1,), y) implies y.spec_eq(
                        S::spec_zero(),
                    ) by {
                        assert(y == self.spec_end_sample());
                    }
                    assert(spec_never_zero_at(f, t0));
                    assert(spec_only_zero_at(f, t1));
                }
            }
        }
        bisect(f, t0, t1, S::tolerance(), 50)
    }

    /// Queries outside the arc range clamp: where the inversion at the
    /// nearer end is exact, the result is the curve's rotation at its
    /// first or last breakpoint.
    pub fn evaluate(&self, s: S) -> (r: Q)
        requires
            self.wf(),
        ensures
            exists|t: S|
                #[trigger] self.spec_s2t_post(s, t) && r
                    == crate::quaternion::cubicdecasteljau::decasteljau_value(
                    self.spec_inner().spec_grid(),
                    self.spec_inner().spec_control_polygon(),
                    t,
                ),
            (s.spec_lt(self.spec_grid()[0]) && self.spec_start_inversion_exact()) ==> r
                == crate::quaternion::cubicdecasteljau::decasteljau_value(
                self.spec_inner().spec_grid(),
                self.spec_inner().spec_control_polygon(),
                self.spec_inner().spec_grid()[0],
            ),
            (!s.spec_lt(self.spec_grid()[0]) && !s.spec_lt(
                self.spec_grid()[self.spec_grid().len() - 1],
            ) && self.spec_end_inversion_exact()) ==> r
                == crate::quaternion::cubicdecasteljau::decasteljau_value(
                self.spec_inner().spec_grid(),
                self.spec_inner().spec_control_polygon(),
                self.spec_inner().spec_grid()[self.spec_inner().spec_grid().len() - 1],
            ),
    {
        let t: S = self.s2t(s);
        let r: Q = self.inner.evaluate(t);
        proof {
            assert(self.spec_s2t_post(s, t)
                && r == crate::quaternion::cubicdecasteljau::decasteljau_value(
                self.spec_inner().spec_grid(),
                self.spec_inner().spec_control_polygon(),
                t,
            ));
        }
        r
    }

    pub fn grid(&self) -> (r: &Vec<S>)
        ensures
            r@ == self.spec_grid(),
    {
        &self.grid
    }
}

/// The full rotation pipeline.
pub struct AsdfRotSpline<S: Scalar, W: Vector<S>, Q: Quaternion<S, W>, N: NormWrapper<S, W>> {
    inner: RotConstantSpeedAdapter<S, W, Q, N>,
    grid: Vec<S>,
    t2u: PiecewiseCubicCurve<S, S>,
}

impl<S: Scalar, W: Vector<S>, Q: Quaternion<S, W>, N: NormWrapper<S, W>> AsdfRotSpline<S, W, Q, N> {
    pub closed spec fn spec_inner(self) -> RotConstantSpeedAdapter<S, W, Q, N> {
        self.inner
    }

    pub closed spec fn spec_grid(self) -> Seq<S> {
        self.grid@
    }

    pub closed spec fn spec_t2u(self) -> PiecewiseCubicCurve<S, S> {
        self.t2u
    }

    pub open spec fn wf(self) -> bool {
        &&& self.spec_inner().wf()
        &&& self.spec_t2u().wf()
    }

    /// The all-missing speed prescriptions the retiming uses.
    pub open spec fn spec_arc_nones(
        quaternions: Seq<Q>,
        tcb: Seq<[S; 3]>,
        closed: bool,
        norm: N,
    ) -> Seq<Option<S>> {
        spec_none_slopes(
            (Self::spec_arc(quaternions, tcb, closed, norm).len() - (if closed {
                1int
            } else {
                0int
            })) as nat,
        )
    }

    /// The arc grid the retiming works on.
    pub open spec fn spec_arc(quaternions: Seq<Q>, tcb: Seq<[S; 3]>, closed: bool, norm: N) -> Seq<
        S,
    > {
        spec_rot_arc_grid(
            spec_rot_final_grid::<S, W, Q>(quaternions, closed),
            spec_rot_control_polygon::<S, W, Q>(quaternions, tcb, closed),
            norm,
        )
    }

    /// Builds the whole rotation pipeline from keyframes.
    ///
    /// The preconditions state the numeric assumptions the construction
    /// rests on whenever the keyframes pass their checks: the centripetal
    /// and arc-length grids are NaN-free and strictly ascending, and for a
    /// closed curve the derived seam slope of the timing spline passes its
    /// own validation.
    pub fn new(
        quaternions: &Vec<Q>,
        times: &Vec<Option<S>>,
        tcb: &Vec<[S; 3]>,
        closed: bool,
        norm: N,
    ) -> (r: Result<Self, Error>)
        requires
            (spec_rot_lens_ok::<S, W, Q>(quaternions@, tcb@.len() as int, closed)
                && spec_rot_no_repeat::<S, W, Q>(
                spec_rot_canon::<S, W, Q>(quaternions@, closed),
            )) ==> ({
                let kbg = spec_rot_final_grid::<S, W, Q>(quaternions@, closed);
                let arc = Self::spec_arc(quaternions@, tcb@, closed, norm);
                grid_no_nan(kbg) && grid_adjacent_ascending(kbg) && grid_no_nan(arc)
                    && grid_sorted(arc) && (closed ==> ({
                    let nones = spec_none_slopes::<S>((arc.len() - 1) as nat);
                    let kept = spec_kept_mid(arc, times@, nones, arc.len() as int);
                    let tgrid = spec_times(times@, nones.len() as int, closed);
                    spec_calculate_slope_ok(
                        Some(spec_cyclic_slope(kept, tgrid)),
                        spec_chord(kept, tgrid, 0),
                    ) && spec_calculate_slope_ok(
                        Some(spec_cyclic_slope(kept, tgrid)),
                        spec_chord(kept, tgrid, kept.len() - 2),
                    )
                }))
            }),
        ensures
            match r {
                Ok(a) => quaternions@.len() + (if closed {
                    1int
                } else {
                    0int
                }) == times@.len() && spec_rot_lens_ok::<S, W, Q>(
                    quaternions@,
                    tcb@.len() as int,
                    closed,
                ) && spec_rot_no_repeat::<S, W, Q>(
                    spec_rot_canon::<S, W, Q>(quaternions@, closed),
                ) && a.wf() && a.spec_inner().spec_inner().spec_grid() == spec_rot_final_grid::<
                    S,
                    W,
                    Q,
                >(quaternions@, closed) && a.spec_inner().spec_inner().spec_control_polygon()
                    == spec_rot_control_polygon::<S, W, Q>(quaternions@, tcb@, closed)
                    && a.spec_inner().spec_grid() == Self::spec_arc(
                    quaternions@,
                    tcb@,
                    closed,
                    norm,
                ) && solve_new_grid_spec(
                    Self::spec_arc(quaternions@, tcb@, closed, norm),
                    times@,
                    Self::spec_arc_nones(quaternions@, tcb@, closed, norm),
                    closed,
                    Ok((a.spec_grid(), a.spec_t2u())),
                ),
                Err(Error::TimesVsQuaternions { times: tl, quaternions: ql, closed: cl }) => tl
                    == times@.len() && ql == quaternions@.len() && cl == closed && times@.len()
                    != quaternions@.len() + (if closed {
                    1int
                } else {
                    0int
                }),
                Err(Error::LessThanTwoQuaternions) => quaternions@.len() < 2,
                Err(Error::TcbVsQuaternions { tcb: tl, quaternions: ql, closed: cl }) =>
                    quaternions@.len() >= 2 && tl == tcb@.len() && ql == quaternions@.len() && cl
                    == closed && tcb@.len() + (if closed {
                    0int
                } else {
                    2int
                }) != quaternions@.len(),
                Err(Error::RepeatedQuaternion { index }) => spec_rot_lens_ok::<S, W, Q>(
                    quaternions@,
                    tcb@.len() as int,
                    closed,
                ) && 1 <= index < spec_rot_canon::<S, W, Q>(quaternions@, closed).len()
                    && !spec_rot_no_repeat::<S, W, Q>(
                    spec_rot_canon::<S, W, Q>(quaternions@, closed),
                ),
                Err(e) => exists|e2: NewGridError|
                    #[trigger] solve_new_grid_spec(
                        Self::spec_arc(quaternions@, tcb@, closed, norm),
                        times@,
                        Self::spec_arc_nones(quaternions@, tcb@, closed, norm),
                        closed,
                        Err(NewGridWithSpeedsError::FromNewGridError(e2)),
                    ) && (match (e, e2) {
                        (Error::FirstTimeMissing, NewGridError::FirstGridMissing) => true,
                        (Error::LastTimeMissing, NewGridError::LastGridMissing) => true,
                        (
                            Error::DuplicateQuaternionWithoutTime { index },
                            NewGridError::DuplicateValueWithoutGrid { index: i2 },
                        ) => index == i2,
                        (
                            Error::TimeNan { index },
                            NewGridError::FromGridError(GridError::GridNan { index: i2 }),
                        ) => index == i2,
                        (
                            Error::TimesNotAscending { index },
                            NewGridError::FromGridError(
                                GridError::GridNotAscending { index: i2 },
                            ),
                        ) => index == i2,
                        _ => false,
                    }),
            },
    {
        let extra: usize = if closed {
            1
        } else {
            0
        };
        if times.len() < extra || quaternions.len() != times.len() - extra {
            return Err(
                Error::TimesVsQuaternions {
                    times: times.len(),
                    quaternions: quaternions.len(),
                    closed,
                },
            );
        }
        let path: CubicDeCasteljau<S, W, Q> = match CubicDeCasteljau::<
            S,
            W,
            Q,
        >::new_centripetal_kochanek_bartels(quaternions, tcb, closed) {
            Ok(c) => c,
            Err(RotKbError::LessThanTwoQuaternions) => {
                return Err(Error::LessThanTwoQuaternions);
            },
            Err(RotKbError::TcbVsQuaternions { tcb: tl, quaternions: ql, closed: cl }) => {
                return Err(Error::TcbVsQuaternions { tcb: tl, quaternions: ql, closed: cl });
            },
            Err(RotKbError::RepeatedQuaternion { index }) => {
                return Err(Error::RepeatedQuaternion { index });
            },
        };
        let constant_speed: RotConstantSpeedAdapter<S, W, Q, N> = RotConstantSpeedAdapter::adapt(
            path,
            norm,
        );
        let target: usize = constant_speed.grid().len() - extra;
        let mut speeds: Vec<Option<S>> = Vec::new();
        while speeds.len() < target
            invariant
                speeds@.len() <= target,
                forall|j: int| 0 <= j < speeds@.len() ==> speeds@[j] == None::<S>,
            decreases target - speeds@.len(),
        {
            speeds.push(None);
        }
        proof {
            assert(speeds@ =~= spec_none_slopes::<S>(target as nat));
            assert(constant_speed.spec_grid() == Self::spec_arc(quaternions@, tcb@, closed, norm));
            assert(speeds@ == Self::spec_arc_nones(quaternions@, tcb@, closed, norm));
            assert(constant_speed.wf());
            lemma_kept_wf(constant_speed.spec_grid(), times@, speeds@);
        }
        match solve_new_grid(constant_speed.grid(), times, &speeds, closed) {
            Ok((grid, t2u)) => Ok(AsdfRotSpline { inner: constant_speed, grid, t2u }),
            Err(NewGridWithSpeedsError::FromNewGridError(NewGridError::FirstGridMissing)) => Err(
                Error::FirstTimeMissing,
            ),
            Err(NewGridWithSpeedsError::FromNewGridError(NewGridError::LastGridMissing)) => Err(
                Error::LastTimeMissing,
            ),
            Err(
                NewGridWithSpeedsError::FromNewGridError(
                    NewGridError::DuplicateValueWithoutGrid { index },
                ),
            ) => Err(Error::DuplicateQuaternionWithoutTime { index }),
            Err(
                NewGridWithSpeedsError::FromNewGridError(
                    NewGridError::FromGridError(GridError::GridNan { index }),
                ),
            ) => Err(Error::TimeNan { index }),
            Err(
                NewGridWithSpeedsError::FromNewGridError(
                    NewGridError::FromGridError(GridError::GridNotAscending { index }),
                ),
            ) => Err(Error::TimesNotAscending { index }),
            Err(
                NewGridWithSpeedsError::FromNewGridError(NewGridError::NewGridVsOldGrid { .. }),
            ) => unreached(),
            Err(NewGridWithSpeedsError::GridVsSpeeds { .. }) => unreached(),
            Err(NewGridWithSpeedsError::SpeedWithoutGrid { .. }) => unreached(),
            Err(NewGridWithSpeedsError::TooFast { index, speed, maximum }) => {
                proof {
                    lemma_all_none_no_slope_error(
                        constant_speed.spec_grid(),
                        times@,
                        speeds@,
                        closed,
                        PiecewiseMonotoneWithSlopesError::SlopeTooSteep {
                            index,
                            slope: speed,
                            maximum,
                        },
                    );
                }
                unreached()
            },
            Err(NewGridWithSpeedsError::NegativeSpeed { index, speed }) => {
                proof {
                    lemma_all_none_no_slope_error(
                        constant_speed.spec_grid(),
                        times@,
                        speeds@,
                        closed,
                        PiecewiseMonotoneWithSlopesError::SlopeWrongSign { index, slope: speed },
                    );
                }
                unreached()
            },
        }
    }

    /// Evaluates the composition at time `t`.
    pub fn evaluate(&self, t: S) -> (r: Q)
        requires
            self.wf(),
        ensures
            exists|tp: S|
                #[trigger] self.spec_inner().spec_s2t_post(self.spec_t2u().spec_evaluate(t), tp)
                    && r == crate::quaternion::cubicdecasteljau::decasteljau_value(
                    self.spec_inner().spec_inner().spec_grid(),
                    self.spec_inner().spec_inner().spec_control_polygon(),
                    tp,
                ),
    {
        let u: S = self.t2u.evaluate(t);
        self.inner.evaluate(u)
    }

    pub fn grid(&self) -> (r: &Vec<S>)
        ensures
            r@ == self.spec_grid(),
    {
        &self.grid
    }
}

impl Error {
    /// A human-readable description of the error.
    pub fn message(&self) -> (r: String)
        ensures
            r@.len() > 0,
    {
        match self {
            Error::LessThanTwoQuaternions => {
                proof {
                    reveal_strlit("there must be at least two quaternions");
                }
                String::from_str("there must be at least two quaternions")
            },
            Error::TimesVsQuaternions { times, quaternions, closed } => {
                let mut m: String = indexed_message(
                    "number of times (",
                    *times,
                    if *closed {
                        ") must be one more than number of quaternions ("
                    } else {
                        ") must be the same as number of quaternions ("
                    },
                );
                m.append(usize_to_string(*quaternions).as_str());
                m.append(")");
                m
            },
            Error::FirstTimeMissing => {
                proof {
                    reveal_strlit("first time value must be specified");
                }
                String::from_str("first time value must be specified")
            },
            Error::LastTimeMissing => {
                proof {
                    reveal_strlit("last time value must be specified");
                }
                String::from_str("last time value must be specified")
            },
            Error::DuplicateQuaternionWithoutTime { index } => indexed_message(
                "index ",
                *index,
                ": duplicate quaternion without time",
            ),
            Error::TimeNan { index } => indexed_message(
                "index ",
                *index,
                ": time values are not allowed to be NaN",
            ),
            Error::TimesNotAscending { index } => indexed_message(
                "index ",
                *index,
                ": time values must be strictly ascending",
            ),
            Error::TcbVsQuaternions { tcb, quaternions, closed } => {
                let mut m: String = indexed_message(
                    "number of quaternions (",
                    *quaternions,
                    if *closed {
                        ") must be the same as TCB values ("
                    } else {
                        ") must be two more than TCB values ("
                    },
                );
                m.append(usize_to_string(*tcb).as_str());
                m.append(")");
                m
            },
            Error::RepeatedQuaternion { index } => indexed_message(
                "repeated quaternion (at index ",
                *index,
                ") is not allowed",
            ),
        }
    }
}

} // verus!
