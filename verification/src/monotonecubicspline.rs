//! Monotone (non-decreasing) cubic splines with inverse evaluation: the
//! timing layer of the pipeline.  `get_time` finds the parameter at which a
//! value is reached, refusing plateaus where the answer is ambiguous.

use vstd::prelude::*;

use vstd::string::StringExecFns;

use crate::utilities::{indexed_message, usize_to_string};

use vstd::pervasive::unreached;

use crate::cubichermitespline::hermite_segments;
use crate::piecewisecubiccurve::{PiecewiseCubicCurve, Segment};
use crate::piecewisemonotonecubicspline::{
    catmull_rom_slope, fix_slope, lemma_slope_error_needs_some, monotone_core,
    spec_calculate_slope_ok, spec_catmull_rom_slope, spec_chord, spec_fix_slope,
    spec_interior_choice, spec_interior_ok, spec_interiors_ok_upto, spec_monotone_ok,
    spec_monotone_slope_error, spec_monotone_tangents, spec_none_slopes, spec_work_grid,
    spec_work_values, verify_slope_error_spec, PiecewiseMonotoneError,
    PiecewiseMonotoneWithSlopesError,
};
use crate::utilities::{
    bisect, check_grid, copied_vec, grid_adjacent_ascending, grid_error_spec, grid_no_nan,
    lemma_le_refl, lemma_le_lt_trans, lemma_lt_le_trans, lemma_nondecreasing_le, nondecreasing,
    GridError,
};
use crate::Scalar;

verus! {

#[derive(Clone, Copy, Debug)]
pub enum MonotoneError {
    Decreasing,
    LessThanTwoValues,
    GridVsValues { grid: usize, values: usize },
    FromGridError(GridError),
}

#[derive(Clone, Copy, Debug)]
pub enum MonotoneWithSlopesError<S> {
    FromMonotoneError(MonotoneError),
    SlopesVsValues { slopes: usize, values: usize },
    SlopeTooSteep { index: usize, slope: S, maximum: S },
    NegativeSlope { index: usize, slope: S },
    CyclicWithSlope { first: Option<S>, last: Option<S> },
}

pub struct MonotoneCubicSpline<S: Scalar> {
    inner: PiecewiseCubicCurve<S, S>,
    values: Vec<S>,
}

/// The slope used at the seam of a cyclic spline: the Catmull-Rom estimate
/// over the wrapped-around window of the last segment and the (shifted)
/// first segment, clamped by the shape-preserving bound.
pub open spec fn spec_cyclic_slope<S: Scalar>(values: Seq<S>, grid: Seq<S>) -> S {
    let n = values.len() as int;
    let g = grid.len() as int;
    let x_1 = values[n - 2];
    let x0 = values[n - 1];
    let x1 = values[n - 1].spec_add(values[1].spec_sub(values[0]));
    let t_1 = grid[g - 2];
    let t0 = grid[g - 1];
    let t1 = grid[g - 1].spec_add(grid[1].spec_sub(grid[0]));
    let left = x0.spec_sub(x_1).spec_div(t0.spec_sub(t_1));
    let right = x1.spec_sub(x0).spec_div(t1.spec_sub(t0));
    spec_fix_slope(spec_catmull_rom_slope(x_1, x0, x1, t_1, t0, t1), left, right)
}

/// The slope prescriptions handed to the shape-preserving construction: for
/// a cyclic spline the two boundary slots carry the seam slope.
pub open spec fn spec_final_opts<S: Scalar>(
    values: Seq<S>,
    grid: Seq<S>,
    opts: Seq<Option<S>>,
    cyclic: bool,
) -> Seq<Option<S>> {
    if cyclic {
        opts.update(0, Some(spec_cyclic_slope(values, grid))).update(
            opts.len() - 1,
            Some(spec_cyclic_slope(values, grid)),
        )
    } else {
        opts
    }
}

/// The outcome of `MonotoneCubicSpline::with_slopes`.
pub open spec fn monotone_spline_spec<S: Scalar>(
    values: Seq<S>,
    opts: Seq<Option<S>>,
    grid: Seq<S>,
    cyclic: bool,
    r: Result<MonotoneCubicSpline<S>, MonotoneWithSlopesError<S>>,
) -> bool {
    let lens_ok = values.len() >= 2 && opts.len() == values.len() && grid.len() == values.len();
    let fopts = spec_final_opts(values, grid, opts, cyclic);
    match r {
        Ok(m) => nondecreasing(values) && lens_ok && grid_no_nan(grid) && grid_adjacent_ascending(
            grid,
        ) && (cyclic ==> opts[0] is None && opts[opts.len() - 1] is None) && spec_monotone_ok(
            true,
            values,
            grid,
            fopts,
            false,
        ) && m.wf() && m.spec_values() == values && m.spec_inner().spec_grid() == grid
            && m.spec_inner().spec_segments() == hermite_segments(
            values,
            spec_monotone_tangents(true, values, grid, fopts, false),
            grid,
        ),
        Err(MonotoneWithSlopesError::FromMonotoneError(me)) => match me {
            MonotoneError::Decreasing => exists|j: int|
                0 < j < values.len() && (#[trigger] values[j - 1].spec_gt(values[j])),
            MonotoneError::LessThanTwoValues => nondecreasing(values) && values.len() < 2,
            MonotoneError::GridVsValues { grid: gl, values: vl } => nondecreasing(values)
                && values.len() >= 2 && opts.len() == values.len() && gl == grid.len() && vl
                == values.len() && grid.len() != values.len(),
            MonotoneError::FromGridError(ge) => nondecreasing(values) && lens_ok
                && grid_error_spec(grid, ge),
        },
        Err(MonotoneWithSlopesError::SlopesVsValues { slopes: sl, values: vl }) => nondecreasing(
            values,
        ) && values.len() >= 2 && sl == opts.len() && vl == values.len() && opts.len()
            != values.len(),
        Err(MonotoneWithSlopesError::CyclicWithSlope { first, last }) => nondecreasing(values)
            && lens_ok && grid_no_nan(grid) && grid_adjacent_ascending(grid) && cyclic && first
            == opts[0] && last == opts[opts.len() - 1] && !(opts[0] is None && opts[opts.len()
            - 1] is None),
        Err(MonotoneWithSlopesError::SlopeTooSteep { index, slope, maximum }) => nondecreasing(
            values,
        ) && lens_ok && grid_no_nan(grid) && grid_adjacent_ascending(grid) && (cyclic ==> opts[0]
            is None && opts[opts.len() - 1] is None) && spec_monotone_slope_error(
            true,
            values,
            grid,
            fopts,
            false,
            PiecewiseMonotoneWithSlopesError::SlopeTooSteep { index, slope, maximum },
        ),
        Err(MonotoneWithSlopesError::NegativeSlope { index, slope }) => nondecreasing(values)
            && lens_ok && grid_no_nan(grid) && grid_adjacent_ascending(grid) && (cyclic ==> opts[0]
            is None && opts[opts.len() - 1] is None) && spec_monotone_slope_error(
            true,
            values,
            grid,
            fopts,
            false,
            PiecewiseMonotoneWithSlopesError::SlopeWrongSign { index, slope },
        ),
    }
}

/// The first index whose value is not below `v`; `vals.len()` if every
/// value is.
pub open spec fn spec_lower_bound<S: Scalar>(vals: Seq<S>, v: S) -> int
    decreases vals.len(),
{
    if vals.len() == 0 {
        0
    } else if !vals[0].spec_lt(v) {
        0
    } else {
        1 + spec_lower_bound(vals.drop_first(), v)
    }
}

/// The first index whose value is above `v`; `vals.len()` if none is.
pub open spec fn spec_upper_gt<S: Scalar>(vals: Seq<S>, v: S) -> int
    decreases vals.len(),
{
    if vals.len() == 0 {
        0
    } else if vals[0].spec_gt(v) {
        0
    } else {
        1 + spec_upper_gt(vals.drop_first(), v)
    }
}

pub proof fn lemma_lower_bound<S: Scalar>(vals: Seq<S>, v: S)
    ensures
        0 <= spec_lower_bound(vals, v) <= vals.len(),
        forall|j: int| 0 <= j < spec_lower_bound(vals, v) ==> (#[trigger] vals[j]).spec_lt(v),
        spec_lower_bound(vals, v) < vals.len() ==> !vals[spec_lower_bound(vals, v)].spec_lt(v),
    decreases vals.len(),
{
    if vals.len() > 0 && vals[0].spec_lt(v) {
        let rest = vals.drop_first();
        lemma_lower_bound(rest, v);
        assert forall|j: int| 0 <= j < spec_lower_bound(vals, v) implies (#[trigger] vals[j]).spec_lt(
            v,
        ) by {
            if j > 0 {
                assert(vals[j] == rest[j - 1]);
            }
        }
        if spec_lower_bound(vals, v) < vals.len() {
            assert(vals[spec_lower_bound(vals, v)] == rest[spec_lower_bound(rest, v)]);
        }
    }
}

pub proof fn lemma_upper_gt<S: Scalar>(vals: Seq<S>, v: S)
    ensures
        0 <= spec_upper_gt(vals, v) <= vals.len(),
        forall|j: int| 0 <= j < spec_upper_gt(vals, v) ==> !(#[trigger] vals[j]).spec_gt(v),
        spec_upper_gt(vals, v) < vals.len() ==> vals[spec_upper_gt(vals, v)].spec_gt(v),
    decreases vals.len(),
{
    if vals.len() > 0 && !vals[0].spec_gt(v) {
        let rest = vals.drop_first();
        lemma_upper_gt(rest, v);
        assert forall|j: int| 0 <= j < spec_upper_gt(vals, v) implies !(#[trigger] vals[j]).spec_gt(
            v,
        ) by {
            if j > 0 {
                assert(vals[j] == rest[j - 1]);
            }
        }
        if spec_upper_gt(vals, v) < vals.len() {
            assert(vals[spec_upper_gt(vals, v)] == rest[spec_upper_gt(rest, v)]);
        }
    }
}

/// No value above `v` comes before one below it.
pub proof fn lemma_lower_le_upper<S: Scalar>(vals: Seq<S>, v: S)
    ensures
        spec_lower_bound(vals, v) <= spec_upper_gt(vals, v),
{
    lemma_lower_bound(vals, v);
    lemma_upper_gt(vals, v);
    let lb = spec_lower_bound(vals, v);
    let ub = spec_upper_gt(vals, v);
    if ub < lb {
        assert(vals[ub].spec_lt(v));
        assert(vals[ub].spec_gt(v));
        S::law_gt_lt(vals[ub], v);
        S::law_lt_asymmetric(vals[ub], v);
    }
}

/// Binary search for `spec_lower_bound` over a NaN-free non-decreasing
/// sequence.
fn lower_bound_search<S: Scalar>(vals: &Vec<S>, v: S) -> (r: usize)
    requires
        grid_no_nan(vals@),
        nondecreasing(vals@),
        !v.spec_is_nan(),
    ensures
        r == spec_lower_bound(vals@, v),
{
    proof {
        lemma_lower_bound(vals@, v);
    }
    let mut lo: usize = 0;
    let mut hi: usize = vals.len();
    while lo < hi
        invariant
            lo <= hi <= vals@.len(),
            grid_no_nan(vals@),
            nondecreasing(vals@),
            !v.spec_is_nan(),
            forall|j: int| 0 <= j < lo ==> (#[trigger] vals@[j]).spec_lt(v),
            forall|j: int| hi <= j < vals@.len() ==> !(#[trigger] vals@[j]).spec_lt(v),
        decreases hi - lo,
    {
        let mid: usize = lo + (hi - lo) / 2;
        if vals[mid].lt(v) {
            proof {
                assert forall|j: int| 0 <= j < mid + 1 implies (#[trigger] vals@[j]).spec_lt(v) by {
                    if j < mid {
                        lemma_nondecreasing_le(vals@, j, mid as int);
                        lemma_le_lt_trans(vals@[j], vals@[mid as int], v);
                    }
                }
            }
            lo = mid + 1;
        } else {
            proof {
                assert forall|j: int| mid <= j < vals@.len() implies !(#[trigger] vals@[j]).spec_lt(
                    v,
                ) by {
                    if j > mid && vals@[j].spec_lt(v) {
                        lemma_nondecreasing_le(vals@, mid as int, j);
                        lemma_le_lt_trans(vals@[mid as int], vals@[j], v);
                    }
                }
            }
            hi = mid;
        }
    }
    proof {
        let f = spec_lower_bound(vals@, v);
        if f < lo {
            assert(vals@[f].spec_lt(v));
        }
        if lo < f {
            assert(!vals@[lo as int].spec_lt(v));
        }
    }
    lo
}

/// Binary search for `spec_upper_gt` over a NaN-free non-decreasing
/// sequence.
fn upper_gt_search<S: Scalar>(vals: &Vec<S>, v: S) -> (r: usize)
    requires
        grid_no_nan(vals@),
        nondecreasing(vals@),
        !v.spec_is_nan(),
    ensures
        r == spec_upper_gt(vals@, v),
{
    proof {
        lemma_upper_gt(vals@, v);
    }
    let mut lo: usize = 0;
    let mut hi: usize = vals.len();
    while lo < hi
        invariant
            lo <= hi <= vals@.len(),
            grid_no_nan(vals@),
            nondecreasing(vals@),
            !v.spec_is_nan(),
            forall|j: int| 0 <= j < lo ==> !(#[trigger] vals@[j]).spec_gt(v),
            forall|j: int| hi <= j < vals@.len() ==> (#[trigger] vals@[j]).spec_gt(v),
        decreases hi - lo,
    {
        let mid: usize = lo + (hi - lo) / 2;
        if vals[mid].gt(v) {
            proof {
                S::law_gt_lt(vals@[mid as int], v);
                assert forall|j: int| mid <= j < vals@.len() implies (#[trigger] vals@[j]).spec_gt(
                    v,
                ) by {
                    if j > mid {
                        lemma_nondecreasing_le(vals@, mid as int, j);
                        lemma_lt_le_trans(v, vals@[mid as int], vals@[j]);
                        S::law_gt_lt(vals@[j], v);
                    }
                }
            }
            hi = mid;
        } else {
            proof {
                assert forall|j: int| 0 <= j < mid + 1 implies !(#[trigger] vals@[j]).spec_gt(v) by {
                    if j < mid && vals@[j].spec_gt(v) {
                        S::law_gt_lt(vals@[j], v);
                        lemma_nondecreasing_le(vals@, j, mid as int);
                        lemma_lt_le_trans(v, vals@[j], vals@[mid as int]);
                        S::law_gt_lt(vals@[mid as int], v);
                    }
                }
            }
            lo = mid + 1;
        }
    }
    proof {
        let f = spec_upper_gt(vals@, v);
        if f < lo {
            assert(vals@[f].spec_gt(v));
        }
        if lo < f {
            assert(!vals@[lo as int].spec_gt(v));
        }
    }
    lo
}

/// Interpolation exactness at the timing layer: a monotone spline passes
/// through each of its values at the matching breakpoint (but the last,
/// where the evaluation runs through the far end of the final segment),
/// provided the breakpoint pair and the higher coefficients of the
/// segment are finite.
pub proof fn lemma_monotone_interpolates<S: Scalar>(
    m: MonotoneCubicSpline<S>,
    values: Seq<S>,
    opts: Seq<Option<S>>,
    grid: Seq<S>,
    cyclic: bool,
    i: int,
)
    requires
        monotone_spline_spec(values, opts, grid, cyclic, Ok(m)),
        0 <= i < values.len() - 1,
        grid[i].spec_finite(),
        grid[i + 1].spec_finite(),
        m.spec_inner().spec_segments()[i].a1.spec_finite(),
        m.spec_inner().spec_segments()[i].a2.spec_finite(),
        m.spec_inner().spec_segments()[i].a3.spec_finite(),
    ensures
        m.spec_inner().spec_evaluate(grid[i]) == values[i],
{
    let fopts = spec_final_opts(values, grid, opts, cyclic);
    let tangents = spec_monotone_tangents(true, values, grid, fopts, false);
    crate::cubichermitespline::lemma_hermite_interpolates(
        m.spec_inner(),
        values,
        tangents,
        grid,
        i,
    );
}

/// With no user-prescribed slopes, a cyclic construction whose seam slope
/// passes validation cannot report a slope error.
pub(crate) proof fn lemma_cyclic_none_slope_error_impossible<S: Scalar>(
    values: Seq<S>,
    grid: Seq<S>,
    e: PiecewiseMonotoneWithSlopesError<S>,
)
    requires
        values.len() >= 2,
        spec_calculate_slope_ok(
            Some(spec_cyclic_slope(values, grid)),
            spec_chord(values, grid, 0),
        ),
        spec_calculate_slope_ok(
            Some(spec_cyclic_slope(values, grid)),
            spec_chord(values, grid, values.len() - 2),
        ),
    ensures
        !spec_monotone_slope_error(
            true,
            values,
            grid,
            spec_final_opts(values, grid, spec_none_slopes(values.len()), true),
            false,
            e,
        ),
{
    let n = values.len() as int;
    let fopts = spec_final_opts(values, grid, spec_none_slopes(values.len()), true);
    assert(fopts.len() == n);
    assert(fopts[0] == Some(spec_cyclic_slope(values, grid)));
    assert(fopts[n - 1] == Some(spec_cyclic_slope(values, grid)));
    assert(forall|i: int| 0 < i < n - 1 ==> #[trigger] fopts[i] == None::<S>);
    let wv = spec_work_values(values, false);
    let wg = spec_work_grid(grid, false);
    let m = wv.len() - 2;
    if spec_monotone_slope_error(true, values, grid, fopts, false, e) {
        if exists|k: int|
            0 <= k < m && #[trigger] spec_interiors_ok_upto(wv, wg, fopts, k)
                && !spec_interior_ok(wv, wg, fopts, k) && (match spec_interior_choice(fopts, k) {
                Some(s) => verify_slope_error_spec(
                    s,
                    spec_chord(wv, wg, k),
                    spec_chord(wv, wg, k + 1),
                    k + 1,
                    e,
                ),
                None => false,
            }) {
            let k = choose|k: int|
                0 <= k < m && #[trigger] spec_interiors_ok_upto(wv, wg, fopts, k)
                    && !spec_interior_ok(wv, wg, fopts, k) && (match spec_interior_choice(
                    fopts,
                    k,
                ) {
                    Some(s) => verify_slope_error_spec(
                        s,
                        spec_chord(wv, wg, k),
                        spec_chord(wv, wg, k + 1),
                        k + 1,
                        e,
                    ),
                    None => false,
                });
            assert(wv == values);
            assert(0 <= k + 1 < fopts.len());
            assert((k + 1) % (fopts.len() as int) == k + 1) by (nonlinear_arith)
                requires
                    0 <= k + 1 < fopts.len(),
            ;
            assert(fopts[k + 1] == None::<S>);
        }
    }
}

impl<S: Scalar> MonotoneCubicSpline<S> {
    pub closed spec fn spec_inner(self) -> PiecewiseCubicCurve<S, S> {
        self.inner
    }

    pub closed spec fn spec_values(self) -> Seq<S> {
        self.values@
    }

    /// A monotone spline is well formed when its curve is, its value per
    /// breakpoint is recorded, and the values never step down.
    pub open spec fn wf(self) -> bool {
        &&& self.spec_inner().wf()
        &&& self.spec_values().len() == self.spec_inner().spec_grid().len()
        &&& nondecreasing(self.spec_values())
    }

    /// A monotone spline through non-decreasing `values`, with optional
    /// prescribed slopes; a cyclic spline derives its seam slope from the
    /// wrapped-around window and accepts no prescription there.
    pub fn with_slopes(
        values: &Vec<S>,
        optional_slopes: &Vec<Option<S>>,
        grid: &Vec<S>,
        cyclic: bool,
    ) -> (r: Result<MonotoneCubicSpline<S>, MonotoneWithSlopesError<S>>)
        ensures
            monotone_spline_spec(values@, optional_slopes@, grid@, cyclic, r),
    {
        let mut k: usize = 1;
        while k < values.len()
            invariant
                1 <= k,
                forall|j: int| 0 < j < k ==> !(#[trigger] values@[j - 1].spec_gt(values@[j])),
            decreases values@.len() - k,
        {
            if values[k - 1].gt(values[k]) {
                return Err(MonotoneWithSlopesError::FromMonotoneError(MonotoneError::Decreasing));
            }
            k += 1;
        }
        if values.len() < 2 {
            return Err(
                MonotoneWithSlopesError::FromMonotoneError(MonotoneError::LessThanTwoValues),
            );
        }
        if values.len() != optional_slopes.len() {
            return Err(
                MonotoneWithSlopesError::SlopesVsValues {
                    slopes: optional_slopes.len(),
                    values: values.len(),
                },
            );
        }
        if values.len() != grid.len() {
            return Err(
                MonotoneWithSlopesError::FromMonotoneError(
                    MonotoneError::GridVsValues { grid: grid.len(), values: values.len() },
                ),
            );
        }
        match check_grid(grid) {
            Err(e) => {
                return Err(
                    MonotoneWithSlopesError::FromMonotoneError(MonotoneError::FromGridError(e)),
                );
            },
            Ok(()) => {},
        }
        let mut opts: Vec<Option<S>> = Vec::new();
        let mut j: usize = 0;
        while j < optional_slopes.len()
            invariant
                j <= optional_slopes@.len(),
                opts@ == optional_slopes@.take(j as int),
            decreases optional_slopes@.len() - j,
        {
            opts.push(optional_slopes[j]);
            proof {
                assert(opts@ =~= optional_slopes@.take(j + 1));
            }
            j += 1;
        }
        proof {
            assert(opts@ =~= optional_slopes@);
        }
        if cyclic {
            let first_is_none: bool = matches!(opts[0], None);
            let last_is_none: bool = matches!(opts[opts.len() - 1], None);
            if !(first_is_none && last_is_none) {
                return Err(
                    MonotoneWithSlopesError::CyclicWithSlope {
                        first: opts[0],
                        last: opts[opts.len() - 1],
                    },
                );
            }
            let n: usize = values.len();
            let g: usize = grid.len();
            let x_1: S = values[n - 2];
            let x0: S = values[n - 1];
            let x1: S = values[n - 1].add(values[1].sub(values[0]));
            let t_1: S = grid[g - 2];
            let t0: S = grid[g - 1];
            let t1: S = grid[g - 1].add(grid[1].sub(grid[0]));
            let left: S = x0.sub(x_1).div(t0.sub(t_1));
            let right: S = x1.sub(x0).div(t1.sub(t0));
            let cyclic_slope: S = fix_slope(
                catmull_rom_slope(x_1, x0, x1, t_1, t0, t1),
                left,
                right,
            );
            proof {
                assert(cyclic_slope == spec_cyclic_slope(values@, grid@));
            }
            let last_index: usize = opts.len() - 1;
            opts.set(0, Some(cyclic_slope));
            opts.set(last_index, Some(cyclic_slope));
            proof {
                assert(opts@ =~= spec_final_opts(values@, grid@, optional_slopes@, cyclic));
            }
        }
        let inner: PiecewiseCubicCurve<S, S> = match monotone_core(values, &opts, grid, false, true) {
            Ok(c) => c,
            Err(PiecewiseMonotoneWithSlopesError::FromPiecewiseMonotoneError(pe)) => {
                match pe {
                    PiecewiseMonotoneError::LessThanTwoValues => {
                        return Err(
                            MonotoneWithSlopesError::FromMonotoneError(
                                MonotoneError::LessThanTwoValues,
                            ),
                        );
                    },
                    PiecewiseMonotoneError::GridVsValues { grid: gl, values: vl, closed: false } => {
                        return Err(
                            MonotoneWithSlopesError::FromMonotoneError(
                                MonotoneError::GridVsValues { grid: gl, values: vl },
                            ),
                        );
                    },
                    PiecewiseMonotoneError::GridVsValues { closed: true, .. } => unreached(),
                    PiecewiseMonotoneError::FromGridError(ge) => {
                        return Err(
                            MonotoneWithSlopesError::FromMonotoneError(
                                MonotoneError::FromGridError(ge),
                            ),
                        );
                    },
                }
            },
            Err(PiecewiseMonotoneWithSlopesError::SlopesVsValues { slopes, values: vl }) => {
                return Err(MonotoneWithSlopesError::SlopesVsValues { slopes, values: vl });
            },
            Err(PiecewiseMonotoneWithSlopesError::SlopeTooSteep { index, slope, maximum }) => {
                return Err(MonotoneWithSlopesError::SlopeTooSteep { index, slope, maximum });
            },
            Err(PiecewiseMonotoneWithSlopesError::SlopeWrongSign { index, slope }) => {
                return Err(MonotoneWithSlopesError::NegativeSlope { index, slope });
            },
        };
        let stored: Vec<S> = copied_vec(values);
        Ok(MonotoneCubicSpline { inner, values: stored })
    }

    /// The parameter at which the spline reaches `value`.
    ///
    /// A value below the range answers the first grid point, one above the
    /// range the last.  A value hit by exactly one breakpoint answers that
    /// breakpoint's grid point; one shared by two or more breakpoints (a
    /// plateau) has no unique answer and yields `None`.  Anywhere else the
    /// containing segment's cubic is inverted numerically, which lands at
    /// some local parameter within the segment.
    pub fn get_time(&self, value: S) -> (r: Option<S>)
        requires
            self.wf(),
            grid_no_nan(self.spec_values()),
            !value.spec_is_nan(),
        ensures
            ({
                let vals = self.spec_values();
                let g = self.spec_inner().spec_grid();
                let lo = spec_lower_bound(vals, value);
                let hi = spec_upper_gt(vals, value);
                if hi == 0 {
                    r == Some(g[0])
                } else if lo == vals.len() {
                    r == Some(g[vals.len() - 1])
                } else if hi - lo == 1 {
                    r == Some(g[lo])
                } else if hi - lo > 1 {
                    r == None::<S>
                } else {
                    r matches Some(t) && (exists|tm: S|
                        S::spec_zero().spec_le(tm) && tm.spec_le(S::spec_one()) && t
                            == tm.spec_mul(g[hi].spec_sub(g[hi - 1])).spec_add(g[hi - 1]))
                }
            }),
    {
        proof {
            lemma_lower_bound(self.values@, value);
            lemma_upper_gt(self.values@, value);
            lemma_lower_le_upper(self.values@, value);
        }
        let lo: usize = lower_bound_search(&self.values, value);
        let hi: usize = upper_gt_search(&self.values, value);
        if hi == 0 {
            Some(self.inner.grid()[0])
        } else if lo == self.values.len() {
            Some(self.inner.grid()[self.values.len() - 1])
        } else if hi - lo == 1 {
            Some(self.inner.grid()[lo])
        } else if hi - lo > 1 {
            None
        } else {
            let idx: usize = hi - 1;
            let a: Segment<S> = self.inner.segments()[idx];
            let a0m: S = a.a0.sub(value);
            let f = |t: S| -> (y: S)
                ensures
                    y == a.a3.spec_mul(t).spec_add(a.a2).spec_mul(t).spec_add(a.a1).spec_mul(
                        t,
                    ).spec_add(a.a0.spec_sub(value)),
                { a.a3.mul(t).add(a.a2).mul(t).add(a.a1).mul(t).add(a0m) };
            proof {
                S::law_constants_not_nan();
                S::law_zero_lt_one();
                S::law_lt_le(S::spec_zero(), S::spec_one());
            }
            let time: S = bisect(f, S::zero(), S::one(), S::tolerance(), 500);
            // The bisection stays inside the unit interval; fall back to
            // its start defensively.
            let tq: S = if S::zero().le(time) && time.le(S::one()) {
                time
            } else {
                S::zero()
            };
            proof {
                lemma_le_refl(S::spec_zero());
            }
            let t0: S = self.inner.grid()[idx];
            let t1: S = self.inner.grid()[idx + 1];
            let result: S = tq.mul(t1.sub(t0)).add(t0);
            proof {
                assert(S::spec_zero().spec_le(tq) && tq.spec_le(S::spec_one()) && result
                    == tq.spec_mul(t1.spec_sub(t0)).spec_add(t0));
            }
            Some(result)
        }
    }

    /// A monotone spline with every slope derived automatically.
    ///
    /// A cyclic spline validates its derived seam slope against the first
    /// and last chord; the precondition states that this validation
    /// succeeds, which is the assumption the construction rests on (it can
    /// only fail on pathological values such as NaN).
    pub fn new(values: &Vec<S>, grid: &Vec<S>, cyclic: bool) -> (r: Result<
        MonotoneCubicSpline<S>,
        MonotoneError,
    >)
        requires
            cyclic ==> spec_calculate_slope_ok(
                Some(spec_cyclic_slope(values@, grid@)),
                spec_chord(values@, grid@, 0),
            ) && spec_calculate_slope_ok(
                Some(spec_cyclic_slope(values@, grid@)),
                spec_chord(values@, grid@, values@.len() - 2),
            ),
        ensures
            match r {
                Ok(m) => monotone_spline_spec(
                    values@,
                    spec_none_slopes(values@.len()),
                    grid@,
                    cyclic,
                    Ok(m),
                ),
                Err(e) => monotone_spline_spec(
                    values@,
                    spec_none_slopes(values@.len()),
                    grid@,
                    cyclic,
                    Err(MonotoneWithSlopesError::FromMonotoneError(e)),
                ),
            },
    {
        let mut slopes: Vec<Option<S>> = Vec::new();
        while slopes.len() < values.len()
            invariant
                slopes@.len() <= values@.len(),
                forall|j: int| 0 <= j < slopes@.len() ==> slopes@[j] == None::<S>,
            decreases values@.len() - slopes@.len(),
        {
            slopes.push(None);
        }
        proof {
            assert(slopes@ =~= spec_none_slopes(values@.len()));
        }
        match Self::with_slopes(values, &slopes, grid, cyclic) {
            Ok(m) => Ok(m),
            Err(MonotoneWithSlopesError::FromMonotoneError(e)) => Err(e),
            Err(MonotoneWithSlopesError::SlopesVsValues { .. }) => unreached(),
            Err(MonotoneWithSlopesError::CyclicWithSlope { .. }) => unreached(),
            Err(e) => {
                proof {
                    let n = values@.len();
                    let fopts = spec_final_opts(values@, grid@, spec_none_slopes(n), cyclic);
                    let ce = match e {
                        MonotoneWithSlopesError::SlopeTooSteep { index, slope, maximum } =>
                            PiecewiseMonotoneWithSlopesError::SlopeTooSteep {
                            index,
                            slope,
                            maximum,
                        },
                        MonotoneWithSlopesError::NegativeSlope { index, slope } =>
                            PiecewiseMonotoneWithSlopesError::SlopeWrongSign { index, slope },
                        _ => PiecewiseMonotoneWithSlopesError::SlopesVsValues {
                            slopes: 0,
                            values: 0,
                        },
                    };
                    if cyclic {
                        lemma_cyclic_none_slope_error_impossible(values@, grid@, ce);
                    } else {
                        lemma_slope_error_needs_some(true, values@, grid@, fopts, false, ce);
                        assert(forall|i: int|
                            0 <= i < n ==> !(#[trigger] (spec_none_slopes::<S>(n)[i] is Some)));
                    }
                }
                unreached()
            },
        }
    }

    pub fn inner_ref(&self) -> (r: &PiecewiseCubicCurve<S, S>)
        ensures
            r == self.spec_inner(),
    {
        &self.inner
    }

    pub fn into_inner(self) -> (r: PiecewiseCubicCurve<S, S>)
        ensures
            r == self.spec_inner(),
    {
        self.inner
    }
}

impl MonotoneError {
    /// A human-readable description of the error.
    pub fn message(&self) -> (r: String)
        ensures
            r@.len() > 0,
    {
        match self {
            MonotoneError::Decreasing => {
                proof {
                    reveal_strlit("values must not be decreasing");
                }
                String::from_str("values must not be decreasing")
            },
            MonotoneError::LessThanTwoValues => {
                proof {
                    reveal_strlit("there must be at least two values");
                }
                String::from_str("there must be at least two values")
            },
            MonotoneError::GridVsValues { grid, values } => {
                let mut m: String = indexed_message("length of grid (", *grid, ") must be the same as number of values (");
                m.append(usize_to_string(*values).as_str());
                m.append(")");
                m
            },
            MonotoneError::FromGridError(e) => e.message(),
        }
    }
}

impl<S> MonotoneWithSlopesError<S> {
    /// A human-readable description of the error.
    pub fn message(&self) -> (r: String)
        ensures
            r@.len() > 0,
    {
        match self {
            MonotoneWithSlopesError::FromMonotoneError(e) => e.message(),
            MonotoneWithSlopesError::SlopesVsValues { slopes, values } => {
                let mut m: String = indexed_message("number of slopes (", *slopes, ") must be same as values (");
                m.append(usize_to_string(*values).as_str());
                m.append(")");
                m
            },
            MonotoneWithSlopesError::SlopeTooSteep { index, slope: _, maximum: _ } => indexed_message(
                "slope at index ",
                *index,
                " too steep",
            ),
            MonotoneWithSlopesError::NegativeSlope { index, slope: _ } => indexed_message(
                "negative slope at index ",
                *index,
                "",
            ),
            MonotoneWithSlopesError::CyclicWithSlope { first: _, last: _ } => {
                proof {
                    reveal_strlit("if cyclic, the first and last slope must be unset");
                }
                String::from_str("if cyclic, the first and last slope must be unset")
            },
        }
    }
}

} // verus!
