//! Piecewise monotone (shape-preserving) cubic splines: slopes are chosen,
//! or validated, so that each segment stays within the range of its end
//! values (Dougherty et al.'s bound), then fed to the Hermite constructor.

use vstd::prelude::*;

use vstd::string::StringExecFns;

use crate::utilities::{indexed_message, usize_to_string};

use vstd::pervasive::unreached;

use crate::cubichermitespline::{hermite_segments, Error as HermiteError};
use crate::piecewisecubiccurve::PiecewiseCubicCurve;
use crate::utilities::{
    check_grid, copied_vec, grid_adjacent_ascending, grid_error_spec, grid_no_nan, GridError,
};
use crate::Scalar;

verus! {

#[derive(Clone, Copy, Debug)]
pub enum PiecewiseMonotoneError {
    LessThanTwoValues,
    GridVsValues { grid: usize, values: usize, closed: bool },
    FromGridError(GridError),
}

#[derive(Clone, Copy, Debug)]
pub enum PiecewiseMonotoneWithSlopesError<S> {
    FromPiecewiseMonotoneError(PiecewiseMonotoneError),
    SlopesVsValues { slopes: usize, values: usize },
    SlopeTooSteep { index: usize, slope: S, maximum: S },
    SlopeWrongSign { index: usize, slope: S },
}

/// The shape-preserving slope bound: zero at a local extremum, otherwise the
/// given slope clamped to at most three times the flatter adjacent chord,
/// on the chords' side of zero.
pub open spec fn spec_fix_slope<S: Scalar>(slope: S, left: S, right: S) -> S {
    if left.spec_mul(right).spec_le(S::spec_zero()) {
        S::spec_zero()
    } else if right.spec_gt(S::spec_zero()) {
        slope.spec_max(S::spec_zero()).spec_min(
            S::spec_three().spec_mul(left.spec_abs().spec_min(right.spec_abs())),
        )
    } else {
        slope.spec_min(S::spec_zero()).spec_max(
            S::spec_three().spec_neg().spec_mul(left.spec_abs().spec_min(right.spec_abs())),
        )
    }
}

/// See `spec_fix_slope`.
pub fn fix_slope<S: Scalar>(slope: S, left: S, right: S) -> (r: S)
    ensures
        r == spec_fix_slope(slope, left, right),
{
    if left.mul(right).le(S::zero()) {
        S::zero()
    } else if right.gt(S::zero()) {
        slope.max(S::zero()).min(S::three().mul(left.abs().min(right.abs())))
    } else {
        slope.min(S::zero()).max(S::three().neg().mul(left.abs().min(right.abs())))
    }
}

/// The Catmull-Rom-style weighted average of the two adjacent chords.
pub open spec fn spec_catmull_rom_slope<S: Scalar>(
    x_1: S,
    x0: S,
    x1: S,
    t_1: S,
    t0: S,
    t1: S,
) -> S {
    let v0 = x1.spec_sub(x0).spec_div(t1.spec_sub(t0));
    let v_1 = x0.spec_sub(x_1).spec_div(t0.spec_sub(t_1));
    t1.spec_sub(t0).spec_mul(v_1).spec_add(t0.spec_sub(t_1).spec_mul(v0)).spec_div(
        t1.spec_sub(t_1),
    )
}

/// See `spec_catmull_rom_slope`.
pub fn catmull_rom_slope<S: Scalar>(x_1: S, x0: S, x1: S, t_1: S, t0: S, t1: S) -> (r: S)
    ensures
        r == spec_catmull_rom_slope(x_1, x0, x1, t_1, t0, t1),
{
    let v0: S = x1.sub(x0).div(t1.sub(t0));
    let v_1: S = x0.sub(x_1).div(t0.sub(t_1));
    t1.sub(t0).mul(v_1).add(t0.sub(t_1).mul(v0)).div(t1.sub(t_1))
}

/// Whether a prescribed slope passes `verify_slope` against the two
/// adjacent chords.
pub open spec fn spec_slope_ok<S: Scalar>(slope: S, left: S, right: S) -> bool {
    spec_fix_slope(slope, left, right).spec_eq(slope)
}

/// Validates a prescribed slope against the shape-preserving bound.
pub fn verify_slope<S: Scalar>(slope: S, left: S, right: S, index: usize) -> (r: Result<
    S,
    PiecewiseMonotoneWithSlopesError<S>,
>)
    ensures
        match r {
            Ok(s) => s == slope && spec_slope_ok(slope, left, right),
            Err(e) => verify_slope_error_spec(slope, left, right, index as int, e),
        },
{
    let fixed_slope: S = fix_slope(slope, left, right);
    if fixed_slope.is_eq(slope) {
        Ok(slope)
    } else if left.mul(right).lt(S::zero()) {
        proof {
            S::law_lt_le(left.spec_mul(right), S::spec_zero());
        }
        assert(fixed_slope == S::spec_zero());
        Err(
            PiecewiseMonotoneWithSlopesError::SlopeTooSteep {
                index,
                slope,
                maximum: S::zero(),
            },
        )
    } else if left.mul(slope).lt(S::zero()) {
        Err(PiecewiseMonotoneWithSlopesError::SlopeWrongSign { index, slope })
    } else {
        Err(
            PiecewiseMonotoneWithSlopesError::SlopeTooSteep { index, slope, maximum: fixed_slope },
        )
    }
}

/// The heuristic natural end slope: given the adjacent interior slope and
/// the boundary chord, picks the end slope that minimizes the change of
/// acceleration over the boundary segment.  The interior slope is expected
/// to satisfy the shape-preserving bound for the boundary chord; the chord
/// itself is the defensive answer where it does not.
pub open spec fn spec_end_slope_unsigned<S: Scalar>(inner: S, chord: S) -> S {
    if !(S::spec_zero().spec_le(inner) && inner.spec_le(S::spec_three().spec_mul(chord))) {
        chord
    } else if inner.spec_le(chord) {
        S::spec_three().spec_mul(chord).spec_sub(S::spec_two().spec_mul(inner))
    } else {
        S::spec_three().spec_mul(chord).spec_sub(inner).spec_div(S::spec_two())
    }
}

pub open spec fn spec_end_slope<S: Scalar>(inner: S, chord: S) -> S {
    if chord.spec_lt(S::spec_zero()) {
        spec_end_slope_unsigned(inner.spec_neg(), chord.spec_neg()).spec_neg()
    } else {
        spec_end_slope_unsigned(inner, chord)
    }
}

fn end_slope_unsigned<S: Scalar>(inner: S, chord: S) -> (r: S)
    ensures
        r == spec_end_slope_unsigned(inner, chord),
{
    if !(S::zero().le(inner) && inner.le(S::three().mul(chord))) {
        chord
    } else if inner.le(chord) {
        S::three().mul(chord).sub(S::two().mul(inner))
    } else {
        S::three().mul(chord).sub(inner).div(S::two())
    }
}

/// See `spec_end_slope`.
pub fn end_slope<S: Scalar>(inner: S, chord: S) -> (r: S)
    ensures
        r == spec_end_slope(inner, chord),
{
    if chord.lt(S::zero()) {
        end_slope_unsigned(inner.neg(), chord.neg()).neg()
    } else {
        end_slope_unsigned(inner, chord)
    }
}

/// A boundary slope: the prescribed one (validated against the boundary
/// chord), or the natural end slope from the adjacent interior slope, or
/// the chord itself.
pub open spec fn spec_calculate_slope_ok<S: Scalar>(main: Option<S>, chord: S) -> bool {
    match main {
        Some(s) => spec_slope_ok(s, chord, chord),
        None => true,
    }
}

pub open spec fn spec_calculate_slope<S: Scalar>(main: Option<S>, other: Option<S>, chord: S) -> S {
    match main {
        Some(s) => s,
        None => match other {
            Some(o) => spec_end_slope(o, chord),
            None => chord,
        },
    }
}

/// See `spec_calculate_slope`.
pub fn calculate_slope<S: Scalar>(main: Option<S>, other: Option<S>, chord: S, index: usize) -> (r:
    Result<S, PiecewiseMonotoneWithSlopesError<S>>)
    ensures
        match r {
            Ok(s) => spec_calculate_slope_ok(main, chord) && s == spec_calculate_slope(
                main,
                other,
                chord,
            ),
            Err(e) => match main {
                Some(m) => verify_slope_error_spec(m, chord, chord, index as int, e),
                None => false,
            },
        },
{
    match main {
        Some(m) => verify_slope(m, chord, chord, index),
        None => match other {
            Some(o) => Ok(end_slope(o, chord)),
            None => Ok(chord),
        },
    }
}

/// Exactly the error `verify_slope` reports for a failing slope.
pub open spec fn verify_slope_error_spec<S: Scalar>(
    slope: S,
    left: S,
    right: S,
    index: int,
    e: PiecewiseMonotoneWithSlopesError<S>,
) -> bool {
    match e {
        PiecewiseMonotoneWithSlopesError::SlopeTooSteep { index: i, slope: s, maximum } =>
            !spec_slope_ok(slope, left, right) && i == index && s == slope && ((left.spec_mul(
                right,
            ).spec_lt(S::spec_zero()) && maximum == S::spec_zero()) || (!left.spec_mul(
                right,
            ).spec_lt(S::spec_zero()) && !left.spec_mul(slope).spec_lt(S::spec_zero()) && maximum
                == spec_fix_slope(slope, left, right))),
        PiecewiseMonotoneWithSlopesError::SlopeWrongSign { index: i, slope: s } => !spec_slope_ok(
            slope,
            left,
            right,
        ) && i == index && s == slope && !left.spec_mul(right).spec_lt(S::spec_zero())
            && left.spec_mul(slope).spec_lt(S::spec_zero()),
        _ => false,
    }
}

/// The chord slope into breakpoint `i + 1` from breakpoint `i`.
pub open spec fn spec_chord<S: Scalar>(vals: Seq<S>, grid: Seq<S>, i: int) -> S {
    vals[i + 1].spec_sub(vals[i]).spec_div(grid[i + 1].spec_sub(grid[i]))
}

/// The slope value prescribed or derived for interior joint `i + 1` of the
/// working sequences: a prescribed slope is used as given, a missing one is
/// the default estimate clamped by the shape-preserving bound.
pub open spec fn spec_default_slope<S: Scalar>(
    catmull: bool,
    vals: Seq<S>,
    grid: Seq<S>,
    i: int,
) -> S {
    if catmull {
        spec_catmull_rom_slope(vals[i], vals[i + 1], vals[i + 2], grid[i], grid[i + 1], grid[i + 2])
    } else {
        spec_chord(vals, grid, i).spec_add(spec_chord(vals, grid, i + 1)).spec_div(S::spec_two())
    }
}

pub open spec fn spec_interior_choice<S: Scalar>(opts: Seq<Option<S>>, i: int) -> Option<S> {
    opts[(i + 1) % (opts.len() as int)]
}

pub open spec fn spec_interior_ok<S: Scalar>(
    vals: Seq<S>,
    grid: Seq<S>,
    opts: Seq<Option<S>>,
    i: int,
) -> bool {
    match spec_interior_choice(opts, i) {
        Some(s) => spec_slope_ok(s, spec_chord(vals, grid, i), spec_chord(vals, grid, i + 1)),
        None => true,
    }
}

pub open spec fn spec_interior_slope<S: Scalar>(
    catmull: bool,
    vals: Seq<S>,
    grid: Seq<S>,
    opts: Seq<Option<S>>,
    i: int,
) -> S {
    match spec_interior_choice(opts, i) {
        Some(s) => s,
        None => spec_fix_slope(
            spec_default_slope(catmull, vals, grid, i),
            spec_chord(vals, grid, i),
            spec_chord(vals, grid, i + 1),
        ),
    }
}

pub open spec fn spec_interiors_ok_upto<S: Scalar>(
    vals: Seq<S>,
    grid: Seq<S>,
    opts: Seq<Option<S>>,
    k: int,
) -> bool {
    forall|j: int| 0 <= j < k ==> spec_interior_ok(vals, grid, opts, j)
}

/// The value sequence the interior-slope loop works on: a closed curve is
/// closed with its first value and one more temporary value.
pub open spec fn spec_work_values<S: Scalar>(values: Seq<S>, closed: bool) -> Seq<S> {
    if closed {
        values.push(values[0]).push(values[1])
    } else {
        values
    }
}

/// The grid the interior-slope loop works on: a closed curve gets one
/// temporary breakpoint at the wrapped-around distance of its first
/// segment.
pub open spec fn spec_work_grid<S: Scalar>(grid: Seq<S>, closed: bool) -> Seq<S> {
    if closed {
        grid.push(grid[grid.len() - 1].spec_add(grid[1].spec_sub(grid[0])))
    } else {
        grid
    }
}

/// The value sequence handed to the Hermite constructor.
pub open spec fn spec_final_values<S: Scalar>(values: Seq<S>, closed: bool) -> Seq<S> {
    if closed {
        values.push(values[0])
    } else {
        values
    }
}

/// Whether every slope decision of the construction passes validation.
pub open spec fn spec_monotone_ok<S: Scalar>(
    catmull: bool,
    values: Seq<S>,
    grid: Seq<S>,
    opts: Seq<Option<S>>,
    closed: bool,
) -> bool {
    let wv = spec_work_values(values, closed);
    let wg = spec_work_grid(grid, closed);
    let m = wv.len() - 2;
    &&& spec_interiors_ok_upto(wv, wg, opts, m)
    &&& (!closed ==> spec_calculate_slope_ok(opts[0], spec_chord(values, grid, 0)))
    &&& (!closed ==> spec_calculate_slope_ok(
        opts[opts.len() - 1],
        spec_chord(values, grid, values.len() - 2),
    ))
}

/// The tangent sequence of the construction, when every decision passes:
/// one incoming and one outgoing tangent per segment.
pub open spec fn spec_monotone_tangents<S: Scalar>(
    catmull: bool,
    values: Seq<S>,
    grid: Seq<S>,
    opts: Seq<Option<S>>,
    closed: bool,
) -> Seq<S> {
    let wv = spec_work_values(values, closed);
    let wg = spec_work_grid(grid, closed);
    let m = wv.len() - 2;
    if closed {
        Seq::new(
            (2 * m) as nat,
            |k: int|
                if k == 0 {
                    spec_interior_slope(catmull, wv, wg, opts, m - 1)
                } else {
                    spec_interior_slope(catmull, wv, wg, opts, (k - 1) / 2)
                },
        )
    } else if values.len() == 2 {
        let chord = spec_chord(values, grid, 0);
        seq![
            spec_calculate_slope(opts[0], opts[1], chord),
            spec_calculate_slope(opts[1], opts[0], chord),
        ]
    } else {
        let chord0 = spec_chord(values, grid, 0);
        let chord_n = spec_chord(values, grid, values.len() - 2);
        Seq::new(
            (2 * (values.len() - 1)) as nat,
            |k: int|
                if k == 0 {
                    spec_calculate_slope(
                        opts[0],
                        Some(spec_interior_slope(catmull, wv, wg, opts, 0)),
                        chord0,
                    )
                } else if k == 2 * (values.len() - 1) - 1 {
                    spec_calculate_slope(
                        opts[opts.len() - 1],
                        Some(spec_interior_slope(catmull, wv, wg, opts, m - 1)),
                        chord_n,
                    )
                } else {
                    spec_interior_slope(catmull, wv, wg, opts, (k - 1) / 2)
                },
        )
    }
}

/// Exactly the slope-validation error the construction reports: the first
/// failing decision, in the order the joints are visited.
pub open spec fn spec_monotone_slope_error<S: Scalar>(
    catmull: bool,
    values: Seq<S>,
    grid: Seq<S>,
    opts: Seq<Option<S>>,
    closed: bool,
    e: PiecewiseMonotoneWithSlopesError<S>,
) -> bool {
    let wv = spec_work_values(values, closed);
    let wg = spec_work_grid(grid, closed);
    let m = wv.len() - 2;
    ||| (exists|k: int|
        0 <= k < m && #[trigger] spec_interiors_ok_upto(wv, wg, opts, k) && !spec_interior_ok(
            wv,
            wg,
            opts,
            k,
        ) && (match spec_interior_choice(opts, k) {
            Some(s) => verify_slope_error_spec(
                s,
                spec_chord(wv, wg, k),
                spec_chord(wv, wg, k + 1),
                k + 1,
                e,
            ),
            None => false,
        }))
    ||| (!closed && spec_interiors_ok_upto(wv, wg, opts, m) && (
    {
        let chord0 = spec_chord(values, grid, 0);
        let chord_n = spec_chord(values, grid, values.len() - 2);
        let last_index: int = if values.len() == 2 {
            1
        } else {
            2 * (values.len() - 1) - 1
        };
        ||| (!spec_calculate_slope_ok(opts[0], chord0) && (match opts[0] {
            Some(s0) => verify_slope_error_spec(s0, chord0, chord0, 0, e),
            None => false,
        }))
        ||| (spec_calculate_slope_ok(opts[0], chord0) && !spec_calculate_slope_ok(
            opts[opts.len() - 1],
            chord_n,
        ) && (match opts[opts.len() - 1] {
            Some(s1) => verify_slope_error_spec(s1, chord_n, chord_n, last_index, e),
            None => false,
        }))
    }))
}

/// The length-check, grid-check and slope-validation outcome shared by both
/// shape-preserving constructors, with the exact slope machinery selected
/// by `catmull`.
pub open spec fn monotone_core_spec<S: Scalar>(
    catmull: bool,
    values: Seq<S>,
    opts: Seq<Option<S>>,
    grid: Seq<S>,
    closed: bool,
    r: Result<PiecewiseCubicCurve<S, S>, PiecewiseMonotoneWithSlopesError<S>>,
) -> bool {
    let lens_ok = values.len() >= 2 && opts.len() == values.len() && grid.len() == values.len() + (
    if closed {
        1int
    } else {
        0int
    });
    let grid_ok = grid_no_nan(grid) && grid_adjacent_ascending(grid);
    match r {
        Ok(c) => lens_ok && grid_ok && spec_monotone_ok(catmull, values, grid, opts, closed)
            && c.wf() && c.spec_grid() == grid && c.spec_segments() == hermite_segments(
            spec_final_values(values, closed),
            spec_monotone_tangents(catmull, values, grid, opts, closed),
            grid,
        ),
        Err(PiecewiseMonotoneWithSlopesError::FromPiecewiseMonotoneError(pe)) => match pe {
            PiecewiseMonotoneError::LessThanTwoValues => values.len() < 2,
            PiecewiseMonotoneError::GridVsValues { grid: gl, values: vl, closed: cl } =>
                values.len() >= 2 && opts.len() == values.len() && gl == grid.len() && vl
                    == values.len() && cl == closed && grid.len() != values.len() + (if closed {
                    1int
                } else {
                    0int
                }),
            PiecewiseMonotoneError::FromGridError(ge) => lens_ok && grid_error_spec(grid, ge),
        },
        Err(PiecewiseMonotoneWithSlopesError::SlopesVsValues { slopes: sl, values: vl }) =>
            values.len() >= 2 && sl == opts.len() && vl == values.len() && opts.len()
                != values.len(),
        Err(e) => lens_ok && grid_ok && spec_monotone_slope_error(
            catmull,
            values,
            grid,
            opts,
            closed,
            e,
        ),
    }
}

pub(crate) fn monotone_core<S: Scalar>(
    values: &Vec<S>,
    optional_slopes: &Vec<Option<S>>,
    grid: &Vec<S>,
    closed: bool,
    catmull: bool,
) -> (r: Result<PiecewiseCubicCurve<S, S>, PiecewiseMonotoneWithSlopesError<S>>)
    ensures
        monotone_core_spec(catmull, values@, optional_slopes@, grid@, closed, r),
{
    let ghost values0 = values@;
    let ghost grid0 = grid@;
    let ghost opts = optional_slopes@;
    if values.len() < 2 {
        return Err(
            PiecewiseMonotoneWithSlopesError::FromPiecewiseMonotoneError(
                PiecewiseMonotoneError::LessThanTwoValues,
            ),
        );
    }
    if values.len() != optional_slopes.len() {
        return Err(
            PiecewiseMonotoneWithSlopesError::SlopesVsValues {
                slopes: optional_slopes.len(),
                values: values.len(),
            },
        );
    }
    let closed_extra: usize = if closed {
        1
    } else {
        0
    };
    if grid.len() < closed_extra || values.len() != grid.len() - closed_extra {
        return Err(
            PiecewiseMonotoneWithSlopesError::FromPiecewiseMonotoneError(
                PiecewiseMonotoneError::GridVsValues {
                    grid: grid.len(),
                    values: values.len(),
                    closed,
                },
            ),
        );
    }
    match check_grid(&grid) {
        Err(e) => {
            return Err(
                PiecewiseMonotoneWithSlopesError::FromPiecewiseMonotoneError(
                    PiecewiseMonotoneError::FromGridError(e),
                ),
            );
        },
        Ok(()) => {},
    }
    let mut vals: Vec<S> = copied_vec(values);
    let mut wgrid: Vec<S> = copied_vec(grid);
    if closed {
        let v0: S = vals[0];
        let v1: S = vals[1];
        vals.push(v0);
        vals.push(v1);
        let glast: S = wgrid[wgrid.len() - 1];
        let gdelta: S = wgrid[1].sub(wgrid[0]);
        wgrid.push(glast.add(gdelta));
    }
    proof {
        assert(vals@ =~= spec_work_values(values0, closed));
        assert(wgrid@ =~= spec_work_grid(grid0, closed));
    }
    let ghost wv = spec_work_values(values0, closed);
    let ghost wg = spec_work_grid(grid0, closed);
    let work_len: usize = vals.len();
    let mut slopes: Vec<S> = Vec::new();
    let mut i: usize = 0;
    while i < work_len - 2
        invariant
            values0.len() >= 2,
            opts.len() == values0.len(),
            grid0.len() == values0.len() + (if closed {
                1int
            } else {
                0int
            }),
            grid_no_nan(grid0),
            grid_adjacent_ascending(grid0),
            optional_slopes@ == opts,
            values0 == values@,
            grid0 == grid@,
            vals@ == wv,
            wgrid@ == wg,
            wv == spec_work_values(values0, closed),
            wg == spec_work_grid(grid0, closed),
            work_len == wv.len(),
            wg.len() == wv.len(),
            i <= work_len - 2,
            slopes@.len() == 2 * i,
            spec_interiors_ok_upto(wv, wg, opts, i as int),
            forall|j: int|
                0 <= j < 2 * i ==> #[trigger] slopes@[j] == spec_interior_slope(
                    catmull,
                    wv,
                    wg,
                    opts,
                    j / 2,
                ),
        decreases work_len - 2 - i,
    {
        let x_1: S = vals[i];
        let x0: S = vals[i + 1];
        let x1: S = vals[i + 2];
        let t_1: S = wgrid[i];
        let t0: S = wgrid[i + 1];
        let t1: S = wgrid[i + 2];
        let left: S = x0.sub(x_1).div(t0.sub(t_1));
        let right: S = x1.sub(x0).div(t1.sub(t0));
        proof {
            assert(left == spec_chord(wv, wg, i as int));
            assert(right == spec_chord(wv, wg, i + 1));
        }
        let choice: Option<S> = optional_slopes[(i + 1) % optional_slopes.len()];
        let slope: S = match choice {
            Some(s) => match verify_slope(s, left, right, i + 1) {
                Ok(s) => s,
                Err(e) => {
                    proof {
                        assert(spec_interiors_ok_upto(wv, wg, opts, i as int)
                            && !spec_interior_ok(wv, wg, opts, i as int) && (match
                        spec_interior_choice(opts, i as int) {
                            Some(s2) => verify_slope_error_spec(
                                s2,
                                spec_chord(wv, wg, i as int),
                                spec_chord(wv, wg, i + 1),
                                i + 1,
                                e,
                            ),
                            None => false,
                        }));
                        assert(spec_monotone_slope_error(catmull, values0, grid0, opts, closed, e));
                    }
                    return Err(e);
                },
            },
            None => {
                let estimate: S = if catmull {
                    catmull_rom_slope(x_1, x0, x1, t_1, t0, t1)
                } else {
                    left.add(right).div(S::two())
                };
                fix_slope(estimate, left, right)
            },
        };
        slopes.push(slope);
        slopes.push(slope);
        i += 1;
    }
    if closed {
        // Move the last (outgoing) tangent to the beginning and drop the
        // temporary value and breakpoint again.
        let last: S = slopes[slopes.len() - 1];
        slopes.pop();
        slopes.insert(0, last);
        vals.pop();
        wgrid.pop();
        proof {
            assert(vals@ =~= spec_final_values(values0, closed));
            assert(wgrid@ =~= grid0);
            assert(slopes@ =~= spec_monotone_tangents(catmull, values0, grid0, opts, closed));
        }
    } else if optional_slopes.len() == 2 {
        let chord: S = vals[1].sub(vals[0]).div(wgrid[1].sub(wgrid[0]));
        proof {
            assert(chord == spec_chord(values0, grid0, 0));
        }
        let one: Option<S> = optional_slopes[0];
        let two: Option<S> = optional_slopes[1];
        let c0: S = match calculate_slope(one, two, chord, 0) {
            Ok(s) => s,
            Err(e) => {
                return Err(e);
            },
        };
        let c1: S = match calculate_slope(two, one, chord, 1) {
            Ok(s) => s,
            Err(e) => {
                return Err(e);
            },
        };
        slopes.push(c0);
        slopes.push(c1);
        proof {
            assert(slopes@ =~= spec_monotone_tangents(catmull, values0, grid0, opts, closed));
        }
    } else {
        let chord0: S = vals[1].sub(vals[0]).div(wgrid[1].sub(wgrid[0]));
        let first_inner: S = slopes[0];
        let b0: S = match calculate_slope(optional_slopes[0], Some(first_inner), chord0, 0) {
            Ok(s) => s,
            Err(e) => {
                return Err(e);
            },
        };
        slopes.insert(0, b0);
        let nv: usize = vals.len();
        let chord_n: S = vals[nv - 1].sub(vals[nv - 2]).div(wgrid[nv - 1].sub(wgrid[nv - 2]));
        proof {
            assert(chord0 == spec_chord(values0, grid0, 0));
            assert(chord_n == spec_chord(values0, grid0, values0.len() - 2));
        }
        let last_inner: S = slopes[slopes.len() - 1];
        let last_index: usize = slopes.len();
        let b1: S = match calculate_slope(
            optional_slopes[optional_slopes.len() - 1],
            Some(last_inner),
            chord_n,
            last_index,
        ) {
            Ok(s) => s,
            Err(e) => {
                return Err(e);
            },
        };
        slopes.push(b1);
        proof {
            assert(slopes@ =~= spec_monotone_tangents(catmull, values0, grid0, opts, closed));
        }
    }
    match PiecewiseCubicCurve::new_hermite(&vals, &slopes, &wgrid) {
        Ok(c) => Ok(c),
        Err(HermiteError::LessThanTwoPositions) => unreached(),
        Err(HermiteError::TangentsVsSegments { .. }) => unreached(),
        Err(HermiteError::GridVsPositions { .. }) => unreached(),
        Err(HermiteError::FromGridError(..)) => unreached(),
    }
}

/// A sequence of `n` unspecified slopes.
pub open spec fn spec_none_slopes<S: Scalar>(n: nat) -> Seq<Option<S>> {
    Seq::new(n, |i: int| None::<S>)
}

impl<S: Scalar> PiecewiseCubicCurve<S, S> {
    /// A shape-preserving piecewise cubic through `values`, with optional
    /// prescribed slopes validated against the shape-preserving bound and
    /// missing slopes derived from the Catmull-Rom estimate.
    pub fn new_piecewise_monotone_with_slopes(
        values: &Vec<S>,
        optional_slopes: &Vec<Option<S>>,
        grid: &Vec<S>,
        closed: bool,
    ) -> (r: Result<Self, PiecewiseMonotoneWithSlopesError<S>>)
        ensures
            monotone_core_spec(true, values@, optional_slopes@, grid@, closed, r),
    {
        monotone_core(values, optional_slopes, grid, closed, true)
    }

    /// A shape-preserving piecewise cubic through `values` with every slope
    /// derived from the Catmull-Rom estimate.
    pub fn new_piecewise_monotone(values: &Vec<S>, grid: &Vec<S>, closed: bool) -> (r: Result<
        Self,
        PiecewiseMonotoneError,
    >)
        ensures
            match r {
                Ok(c) => monotone_core_spec(
                    true,
                    values@,
                    spec_none_slopes(values@.len()),
                    grid@,
                    closed,
                    Ok(c),
                ),
                Err(e) => monotone_core_spec(
                    true,
                    values@,
                    spec_none_slopes(values@.len()),
                    grid@,
                    closed,
                    Err(PiecewiseMonotoneWithSlopesError::FromPiecewiseMonotoneError(e)),
                ),
            },
    {
        let mut slopes: Vec<Option<S>> = Vec::new();
        while slopes.len() < values.len()
            invariant
                slopes@.len() <= values@.len(),
                forall|j: int| 0 <= j < slopes@.len() ==> slopes@[j] == None::<S>,
            decreases values@.len() - slopes@.len(),
        {
            slopes.push(None);
        }
        proof {
            assert(slopes@ =~= spec_none_slopes(values@.len()));
        }
        match monotone_core(values, &slopes, grid, closed, true) {
            Ok(c) => Ok(c),
            Err(PiecewiseMonotoneWithSlopesError::FromPiecewiseMonotoneError(e)) => Err(e),
            Err(PiecewiseMonotoneWithSlopesError::SlopesVsValues { .. }) => unreached(),
            Err(e) => {
                proof {
                    lemma_slope_error_needs_some(
                        true,
                        values@,
                        grid@,
                        spec_none_slopes(values@.len()),
                        closed,
                        e,
                    );
                    assert(forall|i: int|
                        0 <= i < values@.len() ==> !(#[trigger] (spec_none_slopes::<S>(
                            values@.len(),
                        )[i] is Some)));
                }
                unreached()
            },
        }
    }
}

/// A slope-validation error always points at a prescribed slope.
pub(crate) proof fn lemma_slope_error_needs_some<S: Scalar>(
    catmull: bool,
    values: Seq<S>,
    grid: Seq<S>,
    opts: Seq<Option<S>>,
    closed: bool,
    e: PiecewiseMonotoneWithSlopesError<S>,
)
    requires
        opts.len() > 0,
        spec_monotone_slope_error(catmull, values, grid, opts, closed, e),
    ensures
        exists|i: int| 0 <= i < opts.len() && #[trigger] (opts[i] is Some),
{
    let wv = spec_work_values(values, closed);
    let wg = spec_work_grid(grid, closed);
    let m = wv.len() - 2;
    if exists|k: int|
        0 <= k < m && #[trigger] spec_interiors_ok_upto(wv, wg, opts, k) && !spec_interior_ok(
            wv,
            wg,
            opts,
            k,
        ) && (match spec_interior_choice(opts, k) {
            Some(s) => verify_slope_error_spec(
                s,
                spec_chord(wv, wg, k),
                spec_chord(wv, wg, k + 1),
                k + 1,
                e,
            ),
            None => false,
        }) {
        let k = choose|k: int|
            0 <= k < m && #[trigger] spec_interiors_ok_upto(wv, wg, opts, k) && !spec_interior_ok(
                wv,
                wg,
                opts,
                k,
            ) && (match spec_interior_choice(opts, k) {
                Some(s) => verify_slope_error_spec(
                    s,
                    spec_chord(wv, wg, k),
                    spec_chord(wv, wg, k + 1),
                    k + 1,
                    e,
                ),
                None => false,
            });
        let idx = (k + 1) % (opts.len() as int);
        assert(0 <= idx < opts.len());
        assert(opts[idx] is Some);
    } else {
        assert((opts[0] is Some) || (opts[opts.len() - 1] is Some));
    }
}

impl PiecewiseMonotoneError {
    /// A human-readable description of the error.
    pub fn message(&self) -> (r: String)
        ensures
            r@.len() > 0,
    {
        match self {
            PiecewiseMonotoneError::LessThanTwoValues => {
                proof {
                    reveal_strlit("there must be at least two values");
                }
                String::from_str("there must be at least two values")
            },
            PiecewiseMonotoneError::GridVsValues { grid, values, closed } => {
                let mut m: String = indexed_message(
                    "length of grid (",
                    *grid,
                    if *closed {
                        ") must be one more than number of values ("
                    } else {
                        ") must be the same as number of values ("
                    },
                );
                m.append(usize_to_string(*values).as_str());
                m.append(")");
                m
            },
            PiecewiseMonotoneError::FromGridError(e) => e.message(),
        }
    }
}

impl<S> PiecewiseMonotoneWithSlopesError<S> {
    /// A human-readable description of the error.
    pub fn message(&self) -> (r: String)
        ensures
            r@.len() > 0,
    {
        match self {
            PiecewiseMonotoneWithSlopesError::FromPiecewiseMonotoneError(e) => e.message(),
            PiecewiseMonotoneWithSlopesError::SlopesVsValues { slopes, values } => {
                let mut m: String = indexed_message("number of slopes (", *slopes, ") must be same as number of values (");
                m.append(usize_to_string(*values).as_str());
                m.append(")");
                m
            },
            PiecewiseMonotoneWithSlopesError::SlopeTooSteep { index, slope: _, maximum: _ } => indexed_message(
                "slope at index ",
                *index,
                " too steep",
            ),
            PiecewiseMonotoneWithSlopesError::SlopeWrongSign { index, slope: _ } => indexed_message(
                "slope at index ",
                *index,
                " has wrong sign",
            ),
        }
    }
}

/// A closed shape-preserving construction is continuous in slope across
/// the seam: the tangent leaving the first breakpoint and the tangent
/// arriving back at it are the same interior slope.
pub proof fn lemma_closed_seam_tangent<S: Scalar>(
    catmull: bool,
    values: Seq<S>,
    grid: Seq<S>,
    opts: Seq<Option<S>>,
)
    requires
        values.len() >= 2,
    ensures
        ({
            let tangents = spec_monotone_tangents(catmull, values, grid, opts, true);
            tangents.len() >= 2 && tangents[0] == tangents[tangents.len() - 1] && tangents[0]
                == spec_interior_slope(
                catmull,
                spec_work_values(values, true),
                spec_work_grid(grid, true),
                opts,
                spec_work_values(values, true).len() - 3,
            )
        }),
{
}

/// Interpolation exactness for both shape-preserving constructors: a
/// successfully built curve passes through its value at each breakpoint
/// but the last, provided the breakpoint pair and the higher coefficients
/// of the segment are finite.  For a closed curve the breakpoints beyond
/// the original values wrap back to the first value, and the excluded last
/// breakpoint is the wrap point itself.
pub proof fn lemma_monotone_core_interpolates<S: Scalar>(
    catmull: bool,
    values: Seq<S>,
    opts: Seq<Option<S>>,
    grid: Seq<S>,
    closed: bool,
    c: PiecewiseCubicCurve<S, S>,
    i: int,
)
    requires
        monotone_core_spec(catmull, values, opts, grid, closed, Ok(c)),
        0 <= i < grid.len() - 1,
        grid[i].spec_finite(),
        grid[i + 1].spec_finite(),
        c.spec_segments()[i].a1.spec_finite(),
        c.spec_segments()[i].a2.spec_finite(),
        c.spec_segments()[i].a3.spec_finite(),
    ensures
        c.spec_evaluate(grid[i]) == spec_final_values(values, closed)[i],
{
    let positions = spec_final_values(values, closed);
    let tangents = spec_monotone_tangents(catmull, values, grid, opts, closed);
    crate::cubichermitespline::lemma_hermite_interpolates(c, positions, tangents, grid, i);
}

} // verus!
