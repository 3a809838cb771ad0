//! The two reparametrization adapters: constant-speed (arc length) and
//! retiming onto a user-supplied, possibly partially specified grid.

use vstd::prelude::*;

use vstd::string::StringExecFns;

use crate::utilities::{indexed_message, usize_to_string};

use vstd::pervasive::unreached;

use crate::monotonecubicspline::{
    monotone_spline_spec, spec_cyclic_slope, spec_final_opts, spec_lower_bound, spec_upper_gt,
    MonotoneCubicSpline, MonotoneError, MonotoneWithSlopesError,
};
use crate::piecewisemonotonecubicspline::{
    lemma_slope_error_needs_some, spec_calculate_slope_ok, spec_chord, spec_monotone_slope_error,
    spec_none_slopes, PiecewiseMonotoneWithSlopesError,
};
use crate::piecewisecubiccurve::{
    curve_integrated_speed, lemma_clamp_index, spec_clamp, PiecewiseCubicCurve, Segment,
};
use crate::utilities::{
    bisect, grid_no_nan, grid_sorted, lemma_le_refl, nondecreasing, spec_never_zero_at,
    spec_only_zero_at, upper_bound, GridError,
};
use crate::{NormWrapper, Scalar, Vector};

verus! {

#[derive(Clone, Copy, Debug)]
pub enum NewGridError {
    NewGridVsOldGrid { new: usize, old: usize },
    FirstGridMissing,
    LastGridMissing,
    DuplicateValueWithoutGrid { index: usize },
    FromGridError(GridError),
}

#[derive(Clone, Copy, Debug)]
pub enum NewGridWithSpeedsError<S> {
    FromNewGridError(NewGridError),
    GridVsSpeeds { grid: usize, speeds: usize, closed: bool },
    SpeedWithoutGrid { index: usize },
    TooFast { index: usize, speed: S, maximum: S },
    NegativeSpeed { index: usize, speed: S },
}

/// A breakpoint with neither a new grid value nor a speed: its time must be
/// solved for.
pub open spec fn spec_is_missing<S: Scalar>(
    ng: Seq<Option<S>>,
    sp: Seq<Option<S>>,
    i: int,
) -> bool {
    1 <= i < sp.len() && ng[i] is None && sp[i] is None
}

/// The specified times among indices `1 .. k`, in order.
pub open spec fn spec_times_mid<S: Scalar>(ng: Seq<Option<S>>, k: int) -> Seq<S>
    decreases k,
{
    if k <= 1 {
        Seq::empty()
    } else {
        let p = spec_times_mid(ng, k - 1);
        match ng[k - 1] {
            Some(t) => p.push(t),
            None => p,
        }
    }
}

/// The speeds paired with the specified times among indices `1 .. k`.
pub open spec fn spec_tspeeds_mid<S: Scalar>(
    ng: Seq<Option<S>>,
    sp: Seq<Option<S>>,
    k: int,
) -> Seq<Option<S>>
    decreases k,
{
    if k <= 1 {
        Seq::empty()
    } else {
        let p = spec_tspeeds_mid(ng, sp, k - 1);
        if ng[k - 1] is Some {
            p.push(sp[k - 1])
        } else {
            p
        }
    }
}

/// The old-grid values kept for the helper spline: every breakpoint that is
/// not missing, among indices `0 .. k`.
pub open spec fn spec_kept_mid<S: Scalar>(
    u: Seq<S>,
    ng: Seq<Option<S>>,
    sp: Seq<Option<S>>,
    k: int,
) -> Seq<S>
    decreases k,
{
    if k <= 0 {
        Seq::empty()
    } else {
        let p = spec_kept_mid(u, ng, sp, k - 1);
        if spec_is_missing(ng, sp, k - 1) {
            p
        } else {
            p.push(u[k - 1])
        }
    }
}

/// The missing breakpoint indices among `0 .. k`, in order.
pub open spec fn spec_missing_mid<S: Scalar>(
    ng: Seq<Option<S>>,
    sp: Seq<Option<S>>,
    k: int,
) -> Seq<usize>
    decreases k,
{
    if k <= 0 {
        Seq::empty()
    } else {
        let p = spec_missing_mid(ng, sp, k - 1);
        if spec_is_missing(ng, sp, k - 1) {
            p.push((k - 1) as usize)
        } else {
            p
        }
    }
}

/// The time sequence of the helper spline: the first time, the specified
/// middle times, and for a closed curve the last time once more.
pub open spec fn spec_times<S: Scalar>(ng: Seq<Option<S>>, sp_len: int, closed: bool) -> Seq<S> {
    let base = seq![ng[0]->0].add(spec_times_mid(ng, sp_len));
    if closed {
        base.push(ng[ng.len() - 1]->0)
    } else {
        base
    }
}

/// The speed sequence of the helper spline.
pub open spec fn spec_tspeeds<S: Scalar>(
    ng: Seq<Option<S>>,
    sp: Seq<Option<S>>,
    closed: bool,
) -> Seq<Option<S>> {
    let base = seq![sp[0]].add(spec_tspeeds_mid(ng, sp, sp.len() as int));
    if closed {
        base.push(sp[0])
    } else {
        base
    }
}

/// Maps an index into the kept sequence back to the corresponding
/// breakpoint index, by re-inserting the missing positions (saturating at
/// the top of the index range).
pub open spec fn spec_fix_index<S: Scalar>(missing: Seq<usize>, idx: int) -> int
    decreases missing.len(),
{
    if missing.len() == 0 {
        idx
    } else if idx >= missing[0] {
        spec_fix_index::<S>(
            missing.drop_first(),
            if idx < usize::MAX {
                idx + 1
            } else {
                idx
            },
        )
    } else {
        idx
    }
}

/// Whether a scan of the middle breakpoints up to (excluding) `i` found no
/// speed without a grid value.
pub open spec fn spec_scan_ok<S: Scalar>(ng: Seq<Option<S>>, sp: Seq<Option<S>>, i: int) -> bool {
    forall|j: int| #![trigger ng[j], sp[j]] 1 <= j < i ==> !(ng[j] is None && sp[j] is Some)
}

/// Whether the helper spline is built cyclically: a closed curve whose
/// first breakpoint carries no speed prescription.
pub open spec fn spec_cyclic_flag<S: Scalar>(sp: Seq<Option<S>>, closed: bool) -> bool {
    closed && sp[0] is None
}

/// The condition under which `get_time` has no unique answer: the value
/// sits on a plateau of two or more breakpoints.
pub open spec fn spec_no_unique_time<S: Scalar>(vals: Seq<S>, v: S) -> bool {
    let lo = spec_lower_bound(vals, v);
    let hi = spec_upper_gt(vals, v);
    hi != 0 && lo != vals.len() && hi - lo > 1
}

proof fn lemma_mid_counts<S: Scalar>(
    u: Seq<S>,
    ng: Seq<Option<S>>,
    sp: Seq<Option<S>>,
    k: int,
)
    requires
        1 <= k <= sp.len(),
        sp.len() <= u.len(),
        spec_scan_ok(ng, sp, k),
    ensures
        spec_times_mid(ng, k).len() == spec_tspeeds_mid(ng, sp, k).len(),
        spec_kept_mid(u, ng, sp, k).len() == 1 + spec_times_mid(ng, k).len(),
        spec_kept_mid(u, ng, sp, k).len() + spec_missing_mid::<S>(ng, sp, k).len() == k,
    decreases k,
{
    if k == 1 {
        assert(spec_kept_mid(u, ng, sp, 0) =~= Seq::<S>::empty());
        assert(spec_missing_mid::<S>(ng, sp, 0) =~= Seq::<usize>::empty());
    } else {
        lemma_mid_counts(u, ng, sp, k - 1);
        assert(!(ng[k - 1] is None && sp[k - 1] is Some));
    }
}

proof fn lemma_missing_mid_prefix<S: Scalar>(ng: Seq<Option<S>>, sp: Seq<Option<S>>, p: int, k: int)
    requires
        0 <= p <= k,
    ensures
        spec_missing_mid::<S>(ng, sp, p).len() <= spec_missing_mid::<S>(ng, sp, k).len(),
        spec_missing_mid::<S>(ng, sp, p) == spec_missing_mid::<S>(ng, sp, k).take(
            spec_missing_mid::<S>(ng, sp, p).len() as int,
        ),
    decreases k - p,
{
    if p == k {
        assert(spec_missing_mid::<S>(ng, sp, p) =~= spec_missing_mid::<S>(ng, sp, p).take(
            spec_missing_mid::<S>(ng, sp, p).len() as int,
        ));
    } else {
        lemma_missing_mid_prefix::<S>(ng, sp, p, k - 1);
        assert(spec_missing_mid::<S>(ng, sp, p).len() <= spec_missing_mid::<S>(
            ng,
            sp,
            k - 1,
        ).len());
        assert(spec_missing_mid::<S>(ng, sp, p) =~= spec_missing_mid::<S>(ng, sp, k).take(
            spec_missing_mid::<S>(ng, sp, p).len() as int,
        ));
    }
}

/// A slope-too-steep report from the helper spline corresponds to this
/// speed error, with the breakpoint index restored.
pub open spec fn spec_toofast_witness<S: Scalar>(
    u: Seq<S>,
    ng: Seq<Option<S>>,
    sp: Seq<Option<S>>,
    closed: bool,
    index: usize,
    speed: S,
    maximum: S,
) -> bool {
    exists|i0: usize|
        #[trigger] monotone_spline_spec(
            spec_kept_mid(u, ng, sp, u.len() as int),
            spec_tspeeds(ng, sp, closed),
            spec_times(ng, sp.len() as int, closed),
            spec_cyclic_flag(sp, closed),
            Err(MonotoneWithSlopesError::SlopeTooSteep { index: i0, slope: speed, maximum }),
        ) && index == spec_fix_index::<S>(
            spec_missing_mid::<S>(ng, sp, u.len() as int),
            i0 as int,
        )
}

/// A negative-slope report from the helper spline corresponds to this
/// speed error, with the breakpoint index restored.
pub open spec fn spec_negative_witness<S: Scalar>(
    u: Seq<S>,
    ng: Seq<Option<S>>,
    sp: Seq<Option<S>>,
    closed: bool,
    index: usize,
    speed: S,
) -> bool {
    exists|i0: usize|
        #[trigger] monotone_spline_spec(
            spec_kept_mid(u, ng, sp, u.len() as int),
            spec_tspeeds(ng, sp, closed),
            spec_times(ng, sp.len() as int, closed),
            spec_cyclic_flag(sp, closed),
            Err(MonotoneWithSlopesError::NegativeSlope { index: i0, slope: speed }),
        ) && index == spec_fix_index::<S>(
            spec_missing_mid::<S>(ng, sp, u.len() as int),
            i0 as int,
        )
}

/// The outcome of the grid-solving step shared by the retiming adapters.
pub open spec fn solve_new_grid_spec<S: Scalar>(
    u: Seq<S>,
    ng: Seq<Option<S>>,
    sp: Seq<Option<S>>,
    closed: bool,
    r: Result<(Seq<S>, PiecewiseCubicCurve<S, S>), NewGridWithSpeedsError<S>>,
) -> bool {
    let extra: int = if closed {
        1int
    } else {
        0int
    };
    let lens_ok = ng.len() == u.len() && ng.len() == sp.len() + extra;
    let times = spec_times(ng, sp.len() as int, closed);
    let tspeeds = spec_tspeeds(ng, sp, closed);
    let kept = spec_kept_mid(u, ng, sp, u.len() as int);
    let missing = spec_missing_mid::<S>(ng, sp, u.len() as int);
    let cyclic = spec_cyclic_flag(sp, closed);
    match r {
        Ok((grid_out, t2u)) => lens_ok && ng[0] is Some && ng[ng.len() - 1] is Some
            && spec_scan_ok(ng, sp, sp.len() as int) && t2u.wf() && (exists|
            m: MonotoneCubicSpline<S>,
        |
            #[trigger] monotone_spline_spec(kept, tspeeds, times, cyclic, Ok(m)) && t2u
                == m.spec_inner()) && grid_out.len() == ng.len() && (forall|i: int|
            0 <= i < ng.len() && ng[i] is Some ==> grid_out[i] == ng[i]->0),
        Err(NewGridWithSpeedsError::FromNewGridError(nge)) => match nge {
            NewGridError::NewGridVsOldGrid { new, old } => new == ng.len() && old == u.len()
                && ng.len() != u.len(),
            NewGridError::FirstGridMissing => lens_ok && ng[0] is None,
            NewGridError::LastGridMissing => lens_ok && ng[0] is Some && spec_scan_ok(
                ng,
                sp,
                sp.len() as int,
            ) && ng[ng.len() - 1] is None,
            NewGridError::DuplicateValueWithoutGrid { index } => lens_ok && ng[0] is Some
                && ng[ng.len() - 1] is Some && spec_scan_ok(ng, sp, sp.len() as int) && (exists|
                m: MonotoneCubicSpline<S>,
            |
                #[trigger] monotone_spline_spec(kept, tspeeds, times, cyclic, Ok(m))) && index
                < missing.len() && spec_no_unique_time(kept, u[missing[index as int] as int]) && (
            forall|j: int|
                0 <= j < index ==> !spec_no_unique_time(
                    kept,
                    u[#[trigger] missing[j] as int],
                )),
            NewGridError::FromGridError(ge) => lens_ok && ng[0] is Some && ng[ng.len() - 1]
                is Some && spec_scan_ok(ng, sp, sp.len() as int) && (match ge {
                GridError::GridNan { index } => exists|i0: usize|
                    #[trigger] monotone_spline_spec(
                        kept,
                        tspeeds,
                        times,
                        cyclic,
                        Err(
                            MonotoneWithSlopesError::FromMonotoneError(
                                MonotoneError::FromGridError(GridError::GridNan { index: i0 }),
                            ),
                        ),
                    ) && index == spec_fix_index::<S>(missing, i0 as int),
                GridError::GridNotAscending { index } => exists|i0: usize|
                    #[trigger] monotone_spline_spec(
                        kept,
                        tspeeds,
                        times,
                        cyclic,
                        Err(
                            MonotoneWithSlopesError::FromMonotoneError(
                                MonotoneError::FromGridError(
                                    GridError::GridNotAscending { index: i0 },
                                ),
                            ),
                        ),
                    ) && index == spec_fix_index::<S>(missing, i0 as int),
            }),
        },
        Err(NewGridWithSpeedsError::GridVsSpeeds { grid, speeds, closed: cl }) => ng.len()
            == u.len() && grid == ng.len() && speeds == sp.len() && cl == closed && ng.len()
            != sp.len() + extra,
        Err(NewGridWithSpeedsError::SpeedWithoutGrid { index }) => lens_ok && ng[0] is Some && 1
            <= index < sp.len() && ng[index as int] is None && sp[index as int] is Some
            && spec_scan_ok(ng, sp, index as int),
        Err(NewGridWithSpeedsError::TooFast { index, speed, maximum }) => lens_ok && ng[0] is Some
            && ng[ng.len() - 1] is Some && spec_scan_ok(ng, sp, sp.len() as int)
            && spec_toofast_witness(u, ng, sp, closed, index, speed, maximum),
        Err(NewGridWithSpeedsError::NegativeSpeed { index, speed }) => lens_ok && ng[0] is Some
            && ng[ng.len() - 1] is Some && spec_scan_ok(ng, sp, sp.len() as int)
            && spec_negative_witness(u, ng, sp, closed, index, speed),
    }
}

/// Builds the retiming data shared by the retiming adapters: validates the
/// new grid against the old one, pairs the specified times with the old
/// grid values and any speed prescriptions, builds the monotone helper
/// spline, and solves for every missing time through its inverse.
///
/// The preconditions state the assumptions the construction rests on: the
/// old grid values are not NaN, and the ones kept for the helper spline do
/// not step down (the old grid is a cumulative arc length).
#[verifier::rlimit(100)]
pub(crate) fn solve_new_grid<S: Scalar>(
    u: &Vec<S>,
    ng: &Vec<Option<S>>,
    sp: &Vec<Option<S>>,
    closed: bool,
) -> (r: Result<(Vec<S>, PiecewiseCubicCurve<S, S>), NewGridWithSpeedsError<S>>)
    requires
        u@.len() >= 2,
        grid_no_nan(u@),
        grid_no_nan(spec_kept_mid(u@, ng@, sp@, u@.len() as int)),
        nondecreasing(spec_kept_mid(u@, ng@, sp@, u@.len() as int)),
    ensures
        solve_new_grid_spec(
            u@,
            ng@,
            sp@,
            closed,
            match r {
                Ok((g, c)) => Ok((g@, c)),
                Err(e) => Err(e),
            },
        ),
{
    if ng.len() != u.len() {
        return Err(
            NewGridWithSpeedsError::FromNewGridError(
                NewGridError::NewGridVsOldGrid { new: ng.len(), old: u.len() },
            ),
        );
    }
    let extra: usize = if closed {
        1
    } else {
        0
    };
    if sp.len() != ng.len() - extra {
        return Err(
            NewGridWithSpeedsError::GridVsSpeeds {
                grid: ng.len(),
                speeds: sp.len(),
                closed,
            },
        );
    }
    let first_time: S = match ng[0] {
        Some(t) => t,
        None => {
            return Err(NewGridWithSpeedsError::FromNewGridError(NewGridError::FirstGridMissing));
        },
    };
    let mut times: Vec<S> = Vec::new();
    times.push(first_time);
    let mut tspeeds: Vec<Option<S>> = Vec::new();
    tspeeds.push(sp[0]);
    let mut kept: Vec<S> = Vec::new();
    kept.push(u[0]);
    let mut missing: Vec<usize> = Vec::new();
    proof {
        assert(spec_kept_mid(u@, ng@, sp@, 0) =~= Seq::<S>::empty());
        assert(spec_missing_mid::<S>(ng@, sp@, 0) =~= Seq::<usize>::empty());
        assert(kept@ =~= spec_kept_mid(u@, ng@, sp@, 1));
        assert(times@ =~= seq![ng@[0]->0].add(spec_times_mid(ng@, 1)));
        assert(tspeeds@ =~= seq![sp@[0]].add(spec_tspeeds_mid(ng@, sp@, 1)));
        assert(missing@ =~= spec_missing_mid::<S>(ng@, sp@, 1));
    }
    let mut i: usize = 1;
    while i < sp.len()
        invariant
            u@.len() >= 2,
            ng@.len() == u@.len(),
            ng@.len() == sp@.len() + (if closed {
                1int
            } else {
                0int
            }),
            ng@[0] is Some,
            1 <= i <= sp@.len(),
            spec_scan_ok(ng@, sp@, i as int),
            times@ == seq![ng@[0]->0].add(spec_times_mid(ng@, i as int)),
            tspeeds@ == seq![sp@[0]].add(spec_tspeeds_mid(ng@, sp@, i as int)),
            kept@ == spec_kept_mid(u@, ng@, sp@, i as int),
            missing@ == spec_missing_mid::<S>(ng@, sp@, i as int),
        decreases sp@.len() - i,
    {
        match ng[i] {
            Some(t) => {
                times.push(t);
                tspeeds.push(sp[i]);
                kept.push(u[i]);
            },
            None => {
                match sp[i] {
                    None => {
                        missing.push(i);
                    },
                    Some(_) => {
                        return Err(NewGridWithSpeedsError::SpeedWithoutGrid { index: i });
                    },
                }
            },
        }
        i += 1;
    }
    let last_time: S = match ng[ng.len() - 1] {
        Some(t) => t,
        None => {
            return Err(NewGridWithSpeedsError::FromNewGridError(NewGridError::LastGridMissing));
        },
    };
    if closed {
        times.push(last_time);
        tspeeds.push(sp[0]);
        kept.push(u[u.len() - 1]);
    }
    proof {
        assert(times@ =~= spec_times(ng@, sp@.len() as int, closed));
        assert(tspeeds@ =~= spec_tspeeds(ng@, sp@, closed));
        assert(kept@ =~= spec_kept_mid(u@, ng@, sp@, u@.len() as int));
        assert(missing@ =~= spec_missing_mid::<S>(ng@, sp@, u@.len() as int));
        lemma_mid_counts(u@, ng@, sp@, sp@.len() as int);
    }
    let cyclic: bool = closed && matches!(tspeeds[0], None);
    proof {
        assert(tspeeds@[0] == sp@[0]);
        assert(cyclic == spec_cyclic_flag(sp@, closed));
    }
    let m: MonotoneCubicSpline<S> = match MonotoneCubicSpline::with_slopes(
        &kept,
        &tspeeds,
        &times,
        cyclic,
    ) {
        Ok(m) => m,
        Err(MonotoneWithSlopesError::FromMonotoneError(me)) => {
            match me {
                MonotoneError::Decreasing => unreached(),
                MonotoneError::LessThanTwoValues => unreached(),
                MonotoneError::GridVsValues { .. } => unreached(),
                MonotoneError::FromGridError(GridError::GridNan { index }) => {
                    let fixed: usize = fix_index::<S>(&missing, index);
                    proof {
                        assert(monotone_spline_spec(
                            spec_kept_mid(u@, ng@, sp@, u@.len() as int),
                            spec_tspeeds(ng@, sp@, closed),
                            spec_times(ng@, sp@.len() as int, closed),
                            spec_cyclic_flag(sp@, closed),
                            Err(MonotoneWithSlopesError::FromMonotoneError(
                                MonotoneError::FromGridError(GridError::GridNan { index }),
                            )),
                        ));
                    }
                    proof {
                        assert(fixed as int == spec_fix_index::<S>(
                            spec_missing_mid::<S>(ng@, sp@, u@.len() as int),
                            index as int,
                        ));
                        assert(exists|i0: usize|
                            #[trigger] monotone_spline_spec(
                                spec_kept_mid(u@, ng@, sp@, u@.len() as int),
                                spec_tspeeds(ng@, sp@, closed),
                                spec_times(ng@, sp@.len() as int, closed),
                                spec_cyclic_flag(sp@, closed),
                                Err(MonotoneWithSlopesError::FromMonotoneError(
                                    MonotoneError::FromGridError(GridError::GridNan { index: i0 }),
                                )),
                            ) && fixed == spec_fix_index::<S>(
                                spec_missing_mid::<S>(ng@, sp@, u@.len() as int),
                                i0 as int,
                            ));
                    }
                    return Err(
                        NewGridWithSpeedsError::FromNewGridError(
                            NewGridError::FromGridError(GridError::GridNan { index: fixed }),
                        ),
                    );
                },
                MonotoneError::FromGridError(GridError::GridNotAscending { index }) => {
                    let fixed: usize = fix_index::<S>(&missing, index);
                    proof {
                        assert(monotone_spline_spec(
                            spec_kept_mid(u@, ng@, sp@, u@.len() as int),
                            spec_tspeeds(ng@, sp@, closed),
                            spec_times(ng@, sp@.len() as int, closed),
                            spec_cyclic_flag(sp@, closed),
                            Err(MonotoneWithSlopesError::FromMonotoneError(
                                MonotoneError::FromGridError(GridError::GridNotAscending { index }),
                            )),
                        ));
                    }
                    proof {
                        assert(solve_new_grid_spec(
                            u@,
                            ng@,
                            sp@,
                            closed,
                            Err(NewGridWithSpeedsError::FromNewGridError(
                                NewGridError::FromGridError(
                                    GridError::GridNotAscending { index: fixed },
                                ),
                            )),
                        ));
                    }
                    return Err(
                        NewGridWithSpeedsError::FromNewGridError(
                            NewGridError::FromGridError(
                                GridError::GridNotAscending { index: fixed },
                            ),
                        ),
                    );
                },
            }
        },
        Err(MonotoneWithSlopesError::SlopesVsValues { .. }) => unreached(),
        Err(MonotoneWithSlopesError::CyclicWithSlope { .. }) => unreached(),
        Err(MonotoneWithSlopesError::SlopeTooSteep { index, slope, maximum }) => {
            let fixed: usize = fix_index::<S>(&missing, index);
            proof {
                assert(monotone_spline_spec(
                    spec_kept_mid(u@, ng@, sp@, u@.len() as int),
                    spec_tspeeds(ng@, sp@, closed),
                    spec_times(ng@, sp@.len() as int, closed),
                    spec_cyclic_flag(sp@, closed),
                    Err(MonotoneWithSlopesError::SlopeTooSteep { index, slope, maximum }),
                ));
                assert(spec_toofast_witness(u@, ng@, sp@, closed, fixed, slope, maximum));
            }
            proof {
                assert(solve_new_grid_spec(
                    u@,
                    ng@,
                    sp@,
                    closed,
                    Err(NewGridWithSpeedsError::TooFast {
                        index: fixed,
                        speed: slope,
                        maximum,
                    }),
                ));
            }
            return Err(NewGridWithSpeedsError::TooFast { index: fixed, speed: slope, maximum });
        },
        Err(MonotoneWithSlopesError::NegativeSlope { index, slope }) => {
            let fixed: usize = fix_index::<S>(&missing, index);
            proof {
                assert(monotone_spline_spec(
                    spec_kept_mid(u@, ng@, sp@, u@.len() as int),
                    spec_tspeeds(ng@, sp@, closed),
                    spec_times(ng@, sp@.len() as int, closed),
                    spec_cyclic_flag(sp@, closed),
                    Err(MonotoneWithSlopesError::NegativeSlope { index, slope }),
                ));
                assert(spec_negative_witness(u@, ng@, sp@, closed, fixed, slope));
            }
            proof {
                assert(solve_new_grid_spec(
                    u@,
                    ng@,
                    sp@,
                    closed,
                    Err(NewGridWithSpeedsError::NegativeSpeed { index: fixed, speed: slope }),
                ));
            }
            return Err(NewGridWithSpeedsError::NegativeSpeed { index: fixed, speed: slope });
        },
    };
    let missing_len: usize = missing.len();
    let mut grid_out: Vec<S> = Vec::new();
    let mut q: usize = 0;
    let mut p: usize = 0;
    while p < ng.len()
        invariant
            u@.len() >= 2,
            grid_no_nan(u@),
            ng@.len() == u@.len(),
            ng@.len() == sp@.len() + (if closed {
                1int
            } else {
                0int
            }),
            ng@[0] is Some,
            ng@[ng@.len() - 1] is Some,
            spec_scan_ok(ng@, sp@, sp@.len() as int),
            missing@ == spec_missing_mid::<S>(ng@, sp@, u@.len() as int),
            m.wf(),
            m.spec_values() == spec_kept_mid(u@, ng@, sp@, u@.len() as int),
            grid_no_nan(m.spec_values()),
            monotone_spline_spec(
                spec_kept_mid(u@, ng@, sp@, u@.len() as int),
                spec_tspeeds(ng@, sp@, closed),
                spec_times(ng@, sp@.len() as int, closed),
                spec_cyclic_flag(sp@, closed),
                Ok(m),
            ),
            p <= ng@.len(),
            missing_len == missing@.len(),
            q == spec_missing_mid::<S>(ng@, sp@, p as int).len(),
            q <= missing@.len(),
            grid_out@.len() == p,
            forall|k: int|
                0 <= k < p && ng@[k] is Some ==> #[trigger] grid_out@[k] == ng@[k]->0,
            forall|j: int|
                0 <= j < q ==> !spec_no_unique_time(
                    m.spec_values(),
                    u@[#[trigger] missing@[j] as int],
                ),
        decreases ng@.len() - p,
    {
        match ng[p] {
            Some(t) => {
                grid_out.push(t);
                proof {
                    assert(spec_missing_mid::<S>(ng@, sp@, p + 1) == spec_missing_mid::<S>(
                        ng@,
                        sp@,
                        p as int,
                    ));
                }
            },
            None => {
                proof {
                    assert(1 <= p < sp@.len());
                    assert(sp@[p as int] is None);
                    assert(spec_is_missing(ng@, sp@, p as int));
                    lemma_missing_mid_prefix::<S>(ng@, sp@, p as int, u@.len() as int);
                    lemma_missing_mid_prefix::<S>(ng@, sp@, p + 1, u@.len() as int);
                    assert(spec_missing_mid::<S>(ng@, sp@, p + 1) == spec_missing_mid::<S>(
                        ng@,
                        sp@,
                        p as int,
                    ).push(p as usize));
                    let full = spec_missing_mid::<S>(ng@, sp@, u@.len() as int);
                    assert(spec_missing_mid::<S>(ng@, sp@, p + 1).len() == q + 1);
                    assert(full.take(q + 1) == spec_missing_mid::<S>(ng@, sp@, p + 1));
                    assert(full.take(q + 1)[q as int] == full[q as int]);
                    assert(spec_missing_mid::<S>(ng@, sp@, p + 1)[q as int] == p as usize);
                    assert(missing@[q as int] == p as usize);
                }
                match m.get_time(u[p]) {
                    Some(t) => {
                        grid_out.push(t);
                    },
                    None => {
                        proof {
                            assert(monotone_spline_spec(
                                spec_kept_mid(u@, ng@, sp@, u@.len() as int),
                                spec_tspeeds(ng@, sp@, closed),
                                spec_times(ng@, sp@.len() as int, closed),
                                spec_cyclic_flag(sp@, closed),
                                Ok(m),
                            ));
                        }
                        proof {
                            assert(solve_new_grid_spec(
                                u@,
                                ng@,
                                sp@,
                                closed,
                                Err(NewGridWithSpeedsError::FromNewGridError(
                                    NewGridError::DuplicateValueWithoutGrid { index: q },
                                )),
                            ));
                        }
                        return Err(
                            NewGridWithSpeedsError::FromNewGridError(
                                NewGridError::DuplicateValueWithoutGrid { index: q },
                            ),
                        );
                    },
                }
                q += 1;
            },
        }
        p += 1;
    }
    proof {
        assert(monotone_spline_spec(
            spec_kept_mid(u@, ng@, sp@, u@.len() as int),
            spec_tspeeds(ng@, sp@, closed),
            spec_times(ng@, sp@.len() as int, closed),
            spec_cyclic_flag(sp@, closed),
            Ok(m),
        ));
    }
    Ok((grid_out, m.into_inner()))
}

/// See `spec_fix_index`.
fn fix_index<S: Scalar>(missing: &Vec<usize>, idx: usize) -> (r: usize)
    ensures
        r == spec_fix_index::<S>(missing@, idx as int),
{
    let mut cur: usize = idx;
    let mut j: usize = 0;
    proof {
        assert(missing@.skip(0) =~= missing@);
    }
    while j < missing.len()
        invariant_except_break
            j <= missing@.len(),
            spec_fix_index::<S>(missing@, idx as int) == spec_fix_index::<S>(
                missing@.skip(j as int),
                cur as int,
            ),
        ensures
            cur as int == spec_fix_index::<S>(missing@, idx as int),
        decreases missing@.len() - j,
    {
        proof {
            assert(missing@.skip(j as int)[0] == missing@[j as int]);
        }
        if cur >= missing[j] {
            proof {
                assert(missing@.skip(j as int).drop_first() =~= missing@.skip(j + 1));
            }
            if cur < usize::MAX {
                cur += 1;
            }
        } else {
            proof {
                assert(spec_fix_index::<S>(missing@.skip(j as int), cur as int) == cur);
            }
            break ;
        }
        j += 1;
        proof {
            if j == missing@.len() {
                assert(missing@.skip(j as int) =~= Seq::<usize>::empty());
            }
        }
    }
    cur
}

/// The breakpoint indices of the kept entries.
pub open spec fn spec_kept_srcs<S: Scalar>(
    ng: Seq<Option<S>>,
    sp: Seq<Option<S>>,
    k: int,
) -> Seq<int>
    decreases k,
{
    if k <= 0 {
        Seq::empty()
    } else {
        let p = spec_kept_srcs(ng, sp, k - 1);
        if spec_is_missing(ng, sp, k - 1) {
            p
        } else {
            p.push(k - 1)
        }
    }
}

proof fn lemma_kept_srcs<S: Scalar>(u: Seq<S>, ng: Seq<Option<S>>, sp: Seq<Option<S>>, k: int)
    requires
        0 <= k,
    ensures
        spec_kept_srcs(ng, sp, k).len() == spec_kept_mid(u, ng, sp, k).len(),
        forall|q: int|
            0 <= q < spec_kept_srcs(ng, sp, k).len() ==> 0 <= #[trigger] spec_kept_srcs(
                ng,
                sp,
                k,
            )[q] < k,
        forall|q: int|
            0 <= q < spec_kept_srcs(ng, sp, k).len() ==> #[trigger] spec_kept_mid(u, ng, sp, k)[q]
                == u[spec_kept_srcs(ng, sp, k)[q]],
        forall|q: int|
            0 <= q < spec_kept_srcs(ng, sp, k).len() - 1 ==> #[trigger] spec_kept_srcs(
                ng,
                sp,
                k,
            )[q] < spec_kept_srcs(ng, sp, k)[q + 1],
    decreases k,
{
    if k > 0 {
        lemma_kept_srcs(u, ng, sp, k - 1);
    }
}

/// The kept old-grid values inherit freedom from NaN and monotonicity from
/// a valid old grid.
pub proof fn lemma_kept_wf<S: Scalar>(u: Seq<S>, ng: Seq<Option<S>>, sp: Seq<Option<S>>)
    requires
        grid_no_nan(u),
        grid_sorted(u),
    ensures
        grid_no_nan(spec_kept_mid(u, ng, sp, u.len() as int)),
        nondecreasing(spec_kept_mid(u, ng, sp, u.len() as int)),
{
    let k = u.len() as int;
    let kept = spec_kept_mid(u, ng, sp, k);
    let srcs = spec_kept_srcs(ng, sp, k);
    lemma_kept_srcs(u, ng, sp, k);
    assert forall|i: int| 0 <= i < kept.len() implies !(#[trigger] kept[i]).spec_is_nan() by {
        assert(kept[i] == u[srcs[i]]);
    }
    assert forall|j: int| 0 < j < kept.len() implies !(#[trigger] kept[j - 1].spec_gt(
        kept[j],
    )) by {
        assert(kept[j - 1] == u[srcs[j - 1]]);
        assert(kept[j] == u[srcs[j]]);
        assert(srcs[j - 1] < srcs[j]);
        assert(u[srcs[j - 1]].spec_lt(u[srcs[j]]));
        S::law_lt_asymmetric(u[srcs[j - 1]], u[srcs[j]]);
        S::law_gt_lt(kept[j - 1], kept[j]);
    }
}

/// The arc-length grid entry at index `k`: the running sum of integrated
/// segment speeds.
pub open spec fn spec_arc_at<S: Scalar, V: Vector<S>, N: NormWrapper<S, V>>(
    g: Seq<S>,
    segs: Seq<Segment<V>>,
    norm: N,
    k: int,
) -> S
    decreases k,
{
    if k <= 0 {
        S::spec_zero()
    } else {
        spec_arc_at(g, segs, norm, k - 1).spec_add(
            curve_integrated_speed(g, segs, norm, g[k - 1], g[k]),
        )
    }
}

pub open spec fn spec_arc_grid<S: Scalar, V: Vector<S>, N: NormWrapper<S, V>>(
    g: Seq<S>,
    segs: Seq<Segment<V>>,
    norm: N,
) -> Seq<S> {
    Seq::new(g.len(), |i: int| spec_arc_at(g, segs, norm, i))
}

/// Reparametrizes a curve by arc length: the new grid accumulates the
/// numerically integrated speed of each segment, and evaluation inverts
/// that accumulation numerically.
pub struct ConstantSpeedAdapter<S: Scalar, V: Vector<S>, N: NormWrapper<S, V>> {
    inner: PiecewiseCubicCurve<S, V>,
    grid: Vec<S>,
    norm: N,
}

impl<S: Scalar, V: Vector<S>, N: NormWrapper<S, V>> ConstantSpeedAdapter<S, V, N> {
    pub closed spec fn spec_inner(self) -> PiecewiseCubicCurve<S, V> {
        self.inner
    }

    pub closed spec fn spec_grid(self) -> Seq<S> {
        self.grid@
    }

    pub closed spec fn spec_norm_strategy(self) -> N {
        self.norm
    }

    /// Well-formedness asks, beyond the inner curve's, that the stored
    /// grid is the arc-length grid of the inner curve and is usable for
    /// evaluation: NaN-free and strictly ascending.  The latter holds
    /// whenever the norm behaves like a length, but cannot be established
    /// for an arbitrary strategy.
    pub open spec fn wf(self) -> bool {
        &&& self.spec_inner().wf()
        &&& self.spec_grid() == spec_arc_grid(
            self.spec_inner().spec_grid(),
            self.spec_inner().spec_segments(),
            self.spec_norm_strategy(),
        )
        &&& self.spec_grid().len() == self.spec_inner().spec_grid().len()
        &&& grid_no_nan(self.spec_grid())
        &&& grid_sorted(self.spec_grid())
    }

    /// Builds the arc-length grid by integrating the speed over each
    /// segment of the inner curve.
    pub fn adapt(inner: PiecewiseCubicCurve<S, V>, norm: N) -> (r: Self)
        requires
            inner.wf(),
        ensures
            r.spec_inner() == inner,
            r.spec_norm_strategy() == norm,
            r.spec_grid() == spec_arc_grid(inner.spec_grid(), inner.spec_segments(), norm),
    {
        let mut grid: Vec<S> = Vec::new();
        grid.push(S::zero());
        let n: usize = inner.grid().len();
        let mut i: usize = 0;
        while i < n - 1
            invariant
                inner.wf(),
                n == inner.spec_grid().len(),
                i <= n - 1,
                grid@.len() == i + 1,
                forall|k: int|
                    0 <= k <= i ==> #[trigger] grid@[k] == spec_arc_at(
                        inner.spec_grid(),
                        inner.spec_segments(),
                        norm,
                        k,
                    ),
            decreases n - 1 - i,
        {
            let t0: S = inner.grid()[i];
            let t1: S = inner.grid()[i + 1];
            proof {
                assert(inner.spec_grid()[i as int].spec_lt(inner.spec_grid()[i + 1]));
                S::law_lt_le(t0, t1);
                lemma_le_refl(t0);
                lemma_le_refl(t1);
            }
            let seg_len: S = inner.integrated_speed(i, t0, t1, &norm);
            let last: S = grid[grid.len() - 1];
            grid.push(last.add(seg_len));
            i += 1;
        }
        proof {
            assert(grid@ =~= spec_arc_grid(inner.spec_grid(), inner.spec_segments(), norm));
        }
        ConstantSpeedAdapter { inner, grid, norm }
    }

    /// What the numeric inversion's search function samples at the very
    /// start of the curve: the zero-width speed integral over the first
    /// breakpoint (an arc length of zero is asked for there).
    pub open spec fn spec_start_sample(self) -> S {
        curve_integrated_speed(
            self.spec_inner().spec_grid(),
            self.spec_inner().spec_segments(),
            self.spec_norm_strategy(),
            self.spec_inner().spec_grid()[0],
            self.spec_inner().spec_grid()[0],
        ).spec_sub(S::spec_zero())
    }

    /// The inversion at the start of the curve is exact: the zero-width
    /// integral compares equal to zero.  This holds whenever the speed
    /// samples there are finite.
    pub open spec fn spec_start_inversion_exact(self) -> bool {
        self.spec_start_sample().spec_eq(S::spec_zero())
    }

    /// The arc length the last segment is asked to cover for a query at or
    /// beyond the end of the range.
    pub open spec fn spec_end_local(self) -> S {
        self.spec_grid()[self.spec_grid().len() - 1].spec_sub(
            self.spec_grid()[self.spec_grid().len() - 2],
        )
    }

    /// The search function's samples at the two ends of the last segment
    /// for such a query.
    pub open spec fn spec_end_sample(self) -> S {
        curve_integrated_speed(
            self.spec_inner().spec_grid(),
            self.spec_inner().spec_segments(),
            self.spec_norm_strategy(),
            self.spec_inner().spec_grid()[self.spec_inner().spec_grid().len() - 2],
            self.spec_inner().spec_grid()[self.spec_inner().spec_grid().len() - 1],
        ).spec_sub(self.spec_end_local())
    }

    pub open spec fn spec_end_start_sample(self) -> S {
        curve_integrated_speed(
            self.spec_inner().spec_grid(),
            self.spec_inner().spec_segments(),
            self.spec_norm_strategy(),
            self.spec_inner().spec_grid()[self.spec_inner().spec_grid().len() - 2],
            self.spec_inner().spec_grid()[self.spec_inner().spec_grid().len() - 2],
        ).spec_sub(self.spec_end_local())
    }

    /// The inversion at the end of the curve is exact: re-integrating the
    /// last segment cancels the accumulated arc length exactly.  This is
    /// how the rounding usually, but not always, works out.
    pub open spec fn spec_end_inversion_exact(self) -> bool {
        self.spec_end_sample().spec_eq(S::spec_zero()) && !self.spec_end_start_sample().spec_eq(
            S::spec_zero(),
        )
    }

    /// What holds of the parameter the numeric inversion lands on: it lies
    /// within the segment of the arc-length grid that contains `s`, or is
    /// NaN, or is the average of two such values (the root finder's
    /// degenerate-midpoint exit).
    pub open spec fn spec_s2t_post(self, s: S, r: S) -> bool {
        let (sc, idx) = spec_clamp(self.spec_grid(), s);
        let t0 = self.spec_inner().spec_grid()[idx];
        let t1 = self.spec_inner().spec_grid()[idx + 1];
        r.spec_is_nan() || (t0.spec_le(r) && r.spec_le(t1)) || (exists|x: S, y: S|
            (x.spec_is_nan() || (t0.spec_le(x) && x.spec_le(t1))) && (y.spec_is_nan() || (
            t0.spec_le(y) && y.spec_le(t1))) && r == x.spec_add(y).spec_div(S::spec_two()))
    }

    /// Inverts the arc-length accumulation numerically: finds the inner
    /// parameter at which the integrated speed reaches `s`.  Queries
    /// outside the arc range clamp: where the inversion at the nearer end
    /// is exact, the first or last breakpoint itself comes back.
    fn s2t(&self, s: S) -> (r: S)
        requires
            self.wf(),
        ensures
            self.spec_s2t_post(s, r),
            (s.spec_lt(self.spec_grid()[0]) && self.spec_start_inversion_exact()) ==> r
                == self.spec_inner().spec_grid()[0],
            (!s.spec_lt(self.spec_grid()[0]) && !s.spec_lt(
                self.spec_grid()[self.spec_grid().len() - 1],
            ) && self.spec_end_inversion_exact()) ==> r == self.spec_inner().spec_grid()[
                self.spec_inner().spec_grid().len() - 1],
    {
        proof {
            lemma_clamp_index(self.grid@, s);
        }
        let first: S = self.grid[0];
        let last: S = self.grid[self.grid.len() - 1];
        let (sc, idx): (S, usize) = if s.lt(first) {
            (first, 0)
        } else if s.lt(last) {
            (s, upper_bound(&self.grid, s) - 1)
        } else {
            (last, self.grid.len() - 2)
        };
        let s_local: S = sc.sub(self.grid[idx]);
        let t0: S = self.inner.grid()[idx];
        let t1: S = self.inner.grid()[idx + 1];
        // The root finder only samples inside the segment; the guard keeps
        // the search function total.
        let f = |t: S| -> (y: S)
            ensures
                y == (if t0.spec_le(t) && t.spec_le(t1) {
                    self.spec_inner().spec_integrated_speed(
                        self.spec_norm_strategy(),
                        t0,
                        t,
                    ).spec_sub(s_local)
                } else {
                    s_local.spec_neg()
                }),
            {
                if t0.le(t) && t.le(t1) {
                    proof {
                        lemma_le_refl(t0);
                    }
                    self.inner.integrated_speed(idx, t0, t, &self.norm).sub(s_local)
                } else {
                    s_local.neg()
                }
            };
        proof {
            assert(self.spec_grid()[idx as int].spec_lt(self.spec_grid()[idx + 1]));
            assert(self.spec_inner().spec_grid()[idx as int].spec_lt(
                self.spec_inner().spec_grid()[idx + 1],
            ));
            S::law_lt_le(t0, t1);
            lemma_le_refl(t0);
            lemma_le_refl(t1);
            if s.spec_lt(self.spec_grid()[0]) {
                // The first arc entry is zero by construction, so the
                // local arc length is exactly zero.
                assert(self.spec_grid()[0] == S::spec_zero());
                S::law_constants_not_nan();
                S::law_sub_self(S::spec_zero());
                assert(s_local == S::spec_zero());
                if self.spec_start_inversion_exact() {
                    assert forall|y: S| #[trigger] call_ensures(f, (t0,), y) implies y.spec_eq(
                        S::spec_zero(),
                    ) by {
                        assert(y == self.spec_start_sample());
                    }
                    assert(spec_only_zero_at(f, t0));
                }
            }
            if !s.spec_lt(self.spec_grid()[0]) && !s.spec_lt(
                self.spec_grid()[self.spec_grid().len() - 1],
            ) {
                assert(s_local == self.spec_end_local());
                if self.spec_end_inversion_exact() {
                    assert forall|y: S| #[trigger] call_ensures(f, (t0,), y) implies !y.spec_eq(
                        S::spec_zero(),
                    ) by {
                        assert(y == self.spec_end_start_sample());
                    }
                    assert forall|y: S| #[trigger] call_ensures(f, (t1,), y) implies y.spec_eq(
                        S::spec_zero(),
                    ) by {
                        assert(y == self.spec_end_sample());
                    }
                    assert(spec_never_zero_at(f, t0));
                    assert(spec_only_zero_at(f, t1));
                }
            }
        }
        bisect(f, t0, t1, S::tolerance(), 50)
    }

    /// Evaluates the inner curve at the parameter the inversion found for
    /// the arc length `s`.  Queries outside the arc range clamp: where the
    /// inversion at the nearer end is exact, the result is the inner
    /// curve's value at its first or last breakpoint.
    pub fn evaluate(&self, s: S) -> (r: V)
        requires
            self.wf(),
        ensures
            exists|t: S| #[trigger] self.spec_s2t_post(s, t) && r == self.spec_inner().spec_evaluate(t),
            (s.spec_lt(self.spec_grid()[0]) && self.spec_start_inversion_exact()) ==> r
                == self.spec_inner().spec_evaluate(self.spec_inner().spec_grid()[0]),
            (!s.spec_lt(self.spec_grid()[0]) && !s.spec_lt(
                self.spec_grid()[self.spec_grid().len() - 1],
            ) && self.spec_end_inversion_exact()) ==> r == self.spec_inner().spec_evaluate(
                self.spec_inner().spec_grid()[self.spec_inner().spec_grid().len() - 1],
            ),
    {
        let t: S = self.s2t(s);
        let r: V = self.inner.evaluate(t);
        proof {
            assert(self.spec_s2t_post(s, t) && r == self.spec_inner().spec_evaluate(t));
        }
        r
    }

    pub fn grid(&self) -> (r: &Vec<S>)
        ensures
            r@ == self.spec_grid(),
    {
        &self.grid
    }

    pub fn inner_ref(&self) -> (r: &PiecewiseCubicCurve<S, V>)
        ensures
            r == self.spec_inner(),
    {
        &self.inner
    }
}

/// Remaps a constant-speed curve's parameter onto a user-supplied time
/// grid, with missing times solved through the monotone helper spline.
pub struct NewGridAdapter<S: Scalar, V: Vector<S>, N: NormWrapper<S, V>> {
    inner: ConstantSpeedAdapter<S, V, N>,
    grid: Vec<S>,
    t2u: PiecewiseCubicCurve<S, S>,
}

impl<S: Scalar, V: Vector<S>, N: NormWrapper<S, V>> NewGridAdapter<S, V, N> {
    pub closed spec fn spec_inner(self) -> ConstantSpeedAdapter<S, V, N> {
        self.inner
    }

    pub closed spec fn spec_grid(self) -> Seq<S> {
        self.grid@
    }

    pub closed spec fn spec_t2u(self) -> PiecewiseCubicCurve<S, S> {
        self.t2u
    }

    pub open spec fn wf(self) -> bool {
        &&& self.spec_inner().wf()
        &&& self.spec_t2u().wf()
    }

    /// Remaps onto the new grid, with speed prescriptions validated as
    /// slopes of the timing spline.
    pub fn adapt_with_speeds(
        inner: ConstantSpeedAdapter<S, V, N>,
        new_grid: &Vec<Option<S>>,
        speeds: &Vec<Option<S>>,
        closed: bool,
    ) -> (r: Result<Self, NewGridWithSpeedsError<S>>)
        requires
            inner.wf(),
        ensures
            match r {
                Ok(a) => a.wf() && a.spec_inner() == inner && solve_new_grid_spec(
                    inner.spec_grid(),
                    new_grid@,
                    speeds@,
                    closed,
                    Ok((a.spec_grid(), a.spec_t2u())),
                ),
                Err(e) => solve_new_grid_spec(
                    inner.spec_grid(),
                    new_grid@,
                    speeds@,
                    closed,
                    Err(e),
                ),
            },
    {
        proof {
            lemma_kept_wf(inner.spec_grid(), new_grid@, speeds@);
        }
        match solve_new_grid(inner.grid(), new_grid, speeds, closed) {
            Ok((grid, t2u)) => Ok(NewGridAdapter { inner, grid, t2u }),
            Err(e) => Err(e),
        }
    }

    /// Remaps onto the new grid without speed prescriptions.
    ///
    /// The precondition states the assumption the construction rests on
    /// for closed curves: the derived seam slope of the timing spline
    /// passes its own validation (it can only fail on pathological
    /// values).
    pub fn adapt(
        inner: ConstantSpeedAdapter<S, V, N>,
        new_grid: &Vec<Option<S>>,
        closed: bool,
    ) -> (r: Result<Self, NewGridError>)
        requires
            inner.wf(),
            closed ==> ({
                let nones = spec_none_slopes::<S>(
                    (inner.spec_grid().len() - 1) as nat,
                );
                let kept = spec_kept_mid(
                    inner.spec_grid(),
                    new_grid@,
                    nones,
                    inner.spec_grid().len() as int,
                );
                let times = spec_times(new_grid@, nones.len() as int, closed);
                spec_calculate_slope_ok(
                    Some(spec_cyclic_slope(kept, times)),
                    spec_chord(kept, times, 0),
                ) && spec_calculate_slope_ok(
                    Some(spec_cyclic_slope(kept, times)),
                    spec_chord(kept, times, kept.len() - 2),
                )
            }),
        ensures
            match r {
                Ok(a) => a.wf() && a.spec_inner() == inner && solve_new_grid_spec(
                    inner.spec_grid(),
                    new_grid@,
                    spec_none_slopes(
                        (inner.spec_grid().len() - (if closed {
                            1int
                        } else {
                            0int
                        })) as nat,
                    ),
                    closed,
                    Ok((a.spec_grid(), a.spec_t2u())),
                ),
                Err(e) => solve_new_grid_spec(
                    inner.spec_grid(),
                    new_grid@,
                    spec_none_slopes(
                        (inner.spec_grid().len() - (if closed {
                            1int
                        } else {
                            0int
                        })) as nat,
                    ),
                    closed,
                    Err(NewGridWithSpeedsError::FromNewGridError(e)),
                ),
            },
    {
        let extra: usize = if closed {
            1
        } else {
            0
        };
        let target: usize = inner.grid().len() - extra;
        let mut speeds: Vec<Option<S>> = Vec::new();
        while speeds.len() < target
            invariant
                speeds@.len() <= target,
                forall|j: int| 0 <= j < speeds@.len() ==> speeds@[j] == None::<S>,
            decreases target - speeds@.len(),
        {
            speeds.push(None);
        }
        proof {
            assert(speeds@ =~= spec_none_slopes::<S>(target as nat));
        }
        match Self::adapt_with_speeds(inner, new_grid, &speeds, closed) {
            Ok(a) => Ok(a),
            Err(NewGridWithSpeedsError::FromNewGridError(e)) => Err(e),
            Err(NewGridWithSpeedsError::GridVsSpeeds { .. }) => unreached(),
            Err(NewGridWithSpeedsError::SpeedWithoutGrid { .. }) => unreached(),
            Err(NewGridWithSpeedsError::TooFast { index, speed, maximum }) => {
                proof {
                    lemma_all_none_no_slope_error(
                        inner.spec_grid(),
                        new_grid@,
                        speeds@,
                        closed,
                        PiecewiseMonotoneWithSlopesError::SlopeTooSteep {
                            index,
                            slope: speed,
                            maximum,
                        },
                    );
                }
                unreached()
            },
            Err(NewGridWithSpeedsError::NegativeSpeed { index, speed }) => {
                proof {
                    lemma_all_none_no_slope_error(
                        inner.spec_grid(),
                        new_grid@,
                        speeds@,
                        closed,
                        PiecewiseMonotoneWithSlopesError::SlopeWrongSign { index, slope: speed },
                    );
                }
                unreached()
            },
        }
    }

    /// Evaluates the composition: the timing spline maps the query time to
    /// an arc length, which the constant-speed stage inverts and the base
    /// curve evaluates.
    pub fn evaluate(&self, t: S) -> (r: V)
        requires
            self.wf(),
        ensures
            exists|tp: S|
                #[trigger] self.spec_inner().spec_s2t_post(
                    self.spec_t2u().spec_evaluate(t),
                    tp,
                ) && r == self.spec_inner().spec_inner().spec_evaluate(tp),
    {
        let u: S = self.t2u.evaluate(t);
        self.inner.evaluate(u)
    }

    pub fn grid(&self) -> (r: &Vec<S>)
        ensures
            r@ == self.spec_grid(),
    {
        &self.grid
    }
}

/// With no speed prescription anywhere, a slope error can only concern
/// the derived seam slope of a cyclic construction.
pub(crate) proof fn lemma_all_none_no_slope_error<S: Scalar>(
    u: Seq<S>,
    ng: Seq<Option<S>>,
    sp: Seq<Option<S>>,
    closed: bool,
    ce: PiecewiseMonotoneWithSlopesError<S>,
)
    requires
        u.len() >= 2,
        sp.len() >= 1,
        sp == spec_none_slopes::<S>(sp.len()),
        match ce {
            PiecewiseMonotoneWithSlopesError::SlopeTooSteep { index, slope, maximum } =>
                spec_toofast_witness(u, ng, sp, closed, index, slope, maximum),
            PiecewiseMonotoneWithSlopesError::SlopeWrongSign { index, slope } =>
                spec_negative_witness(u, ng, sp, closed, index, slope),
            _ => false,
        },
    ensures
        ({
            let kept = spec_kept_mid(u, ng, sp, u.len() as int);
            let times = spec_times(ng, sp.len() as int, closed);
            closed && (!spec_calculate_slope_ok(
                Some(spec_cyclic_slope(kept, times)),
                spec_chord(kept, times, 0),
            ) || !spec_calculate_slope_ok(
                Some(spec_cyclic_slope(kept, times)),
                spec_chord(kept, times, kept.len() - 2),
            ))
        }),
{
    let kept = spec_kept_mid(u, ng, sp, u.len() as int);
    let times = spec_times(ng, sp.len() as int, closed);
    let tspeeds = spec_tspeeds(ng, sp, closed);
    let cyclic = spec_cyclic_flag(sp, closed);
    let missing = spec_missing_mid::<S>(ng, sp, u.len() as int);
    assert(forall|i: int| 0 <= i < sp.len() ==> #[trigger] sp[i] == None::<S>);
    lemma_tspeeds_all_none(ng, sp, sp.len() as int);
    let base = seq![sp[0]].add(spec_tspeeds_mid(ng, sp, sp.len() as int));
    assert forall|q: int| 0 <= q < tspeeds.len() implies #[trigger] tspeeds[q] == None::<S> by {
        if q < base.len() {
            assert(tspeeds[q] == base[q]);
            if q == 0 {
                assert(base[0] == sp[0]);
            } else {
                assert(base[q] == spec_tspeeds_mid(ng, sp, sp.len() as int)[q - 1]);
            }
        } else {
            assert(tspeeds[q] == sp[0]);
        }
    }
    assert(tspeeds =~= spec_none_slopes::<S>(tspeeds.len()));
    let core_e = match ce {
        PiecewiseMonotoneWithSlopesError::SlopeTooSteep { index, slope, maximum } => {
            let i0 = choose|i0: usize|
                #[trigger] monotone_spline_spec(
                    kept,
                    tspeeds,
                    times,
                    cyclic,
                    Err(
                        MonotoneWithSlopesError::SlopeTooSteep {
                            index: i0,
                            slope,
                            maximum,
                        },
                    ),
                ) && index == spec_fix_index::<S>(missing, i0 as int);
            MonotoneWithSlopesError::SlopeTooSteep { index: i0, slope, maximum }
        },
        PiecewiseMonotoneWithSlopesError::SlopeWrongSign { index, slope } => {
            let i0 = choose|i0: usize|
                #[trigger] monotone_spline_spec(
                    kept,
                    tspeeds,
                    times,
                    cyclic,
                    Err(MonotoneWithSlopesError::NegativeSlope { index: i0, slope }),
                ) && index == spec_fix_index::<S>(missing, i0 as int);
            MonotoneWithSlopesError::NegativeSlope { index: i0, slope }
        },
        _ => MonotoneWithSlopesError::SlopesVsValues { slopes: 0, values: 0 },
    };
    assert(monotone_spline_spec(kept, tspeeds, times, cyclic, Err(core_e)));
    let fopts = spec_final_opts(kept, times, tspeeds, cyclic);
    let slope_core = match core_e {
        MonotoneWithSlopesError::SlopeTooSteep { index, slope, maximum } =>
            PiecewiseMonotoneWithSlopesError::SlopeTooSteep { index, slope, maximum },
        MonotoneWithSlopesError::NegativeSlope { index, slope } =>
            PiecewiseMonotoneWithSlopesError::SlopeWrongSign { index, slope },
        _ => PiecewiseMonotoneWithSlopesError::SlopesVsValues { slopes: 0, values: 0 },
    };
    assert(spec_monotone_slope_error(true, kept, times, fopts, false, slope_core));
    if cyclic {
        if spec_calculate_slope_ok(
            Some(spec_cyclic_slope(kept, times)),
            spec_chord(kept, times, 0),
        ) && spec_calculate_slope_ok(
            Some(spec_cyclic_slope(kept, times)),
            spec_chord(kept, times, kept.len() - 2),
        ) {
            crate::monotonecubicspline::lemma_cyclic_none_slope_error_impossible(
                kept,
                times,
                slope_core,
            );
            assert(fopts == spec_final_opts(
                kept,
                times,
                spec_none_slopes::<S>(kept.len()),
                true,
            ));
        }
    } else {
        lemma_slope_error_needs_some(true, kept, times, fopts, false, slope_core);
        assert(forall|i: int| 0 <= i < fopts.len() ==> !(#[trigger] (fopts[i] is Some)));
    }
}

proof fn lemma_tspeeds_all_none<S: Scalar>(ng: Seq<Option<S>>, sp: Seq<Option<S>>, k: int)
    requires
        forall|i: int| 0 <= i < sp.len() ==> #[trigger] sp[i] == None::<S>,
        k <= sp.len(),
    ensures
        forall|q: int|
            0 <= q < spec_tspeeds_mid(ng, sp, k).len() ==> #[trigger] spec_tspeeds_mid(
                ng,
                sp,
                k,
            )[q] == None::<S>,
    decreases k,
{
    if k > 1 {
        lemma_tspeeds_all_none(ng, sp, k - 1);
    }
}

impl NewGridError {
    /// A human-readable description of the error.
    pub fn message(&self) -> (r: String)
        ensures
            r@.len() > 0,
    {
        match self {
            NewGridError::NewGridVsOldGrid { new, old } => {
                let mut m: String = indexed_message("length of new grid (", *new, ") must be same as old grid (");
                m.append(usize_to_string(*old).as_str());
                m.append(")");
                m
            },
            NewGridError::FirstGridMissing => {
                proof {
                    reveal_strlit("first grid value must be specified");
                }
                String::from_str("first grid value must be specified")
            },
            NewGridError::LastGridMissing => {
                proof {
                    reveal_strlit("last grid value must be specified");
                }
                String::from_str("last grid value must be specified")
            },
            NewGridError::DuplicateValueWithoutGrid { index } => indexed_message(
                "index ",
                *index,
                ": duplicate value without corresponding grid value",
            ),
            NewGridError::FromGridError(e) => e.message(),
        }
    }
}

impl<S> NewGridWithSpeedsError<S> {
    /// A human-readable description of the error.
    pub fn message(&self) -> (r: String)
        ensures
            r@.len() > 0,
    {
        match self {
            NewGridWithSpeedsError::FromNewGridError(e) => e.message(),
            NewGridWithSpeedsError::GridVsSpeeds { grid, speeds, closed } => {
                let mut m: String = indexed_message(
                    "number of grid values (",
                    *grid,
                    if *closed {
                        ") must be one more than speeds ("
                    } else {
                        ") must be the same as speeds ("
                    },
                );
                m.append(usize_to_string(*speeds).as_str());
                m.append(")");
                m
            },
            NewGridWithSpeedsError::SpeedWithoutGrid { index } => indexed_message(
                "index ",
                *index,
                ": speed is only allowed if corresponding grid value is given",
            ),
            NewGridWithSpeedsError::TooFast { index, speed: _, maximum: _ } => indexed_message(
                "speed at index ",
                *index,
                " too fast",
            ),
            NewGridWithSpeedsError::NegativeSpeed { index, speed: _ } => indexed_message(
                "negative speed at index ",
                *index,
                "",
            ),
        }
    }
}

} // verus!
