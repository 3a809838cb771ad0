//! The cubic Hermite constructor: turns positions, tangents and a grid into
//! the Hermite-basis coefficients of a piecewise cubic curve.

use vstd::prelude::*;

use vstd::string::StringExecFns;

use crate::utilities::{indexed_message, usize_to_string};

use vstd::pervasive::unreached;

use crate::piecewisecubiccurve::{
    lemma_evaluate_at_breakpoint, Error as CurveError, PiecewiseCubicCurve, Segment,
};
use crate::utilities::{
    copied_vec, grid_adjacent_ascending, grid_error_spec, grid_no_nan, GridError,
};
use crate::{Scalar, Vector};

verus! {

#[derive(Clone, Copy, Debug, PartialEq, Eq, Structural)]
pub enum Error {
    LessThanTwoPositions,
    TangentsVsSegments { tangents: usize, segments: usize },
    GridVsPositions { grid: usize, positions: usize },
    FromGridError(GridError),
}

/// The Hermite-basis coefficients of one segment from its end positions,
/// end tangents and parameter interval width.
pub open spec fn hermite_segment<S: Scalar, V: Vector<S>>(
    x0: V,
    x1: V,
    v0: V,
    v1: V,
    delta: S,
) -> Segment<V> {
    Segment {
        a0: x0,
        a1: v0.spec_vscale(delta),
        a2: x0.spec_vscale(S::spec_three().spec_neg()).spec_vadd(
            x1.spec_vscale(S::spec_three()),
        ).spec_vsub(v0.spec_vscale(S::spec_two()).spec_vscale(delta)).spec_vsub(
            v1.spec_vscale(delta),
        ),
        a3: x0.spec_vscale(S::spec_two()).spec_vsub(x1.spec_vscale(S::spec_two())).spec_vadd(
            v0.spec_vscale(delta),
        ).spec_vadd(v1.spec_vscale(delta)),
    }
}

/// The coefficients of every segment of a Hermite spline: segment `i` spans
/// `positions[i]` to `positions[i + 1]` with outgoing tangent
/// `tangents[2 i]` and incoming tangent `tangents[2 i + 1]`.
pub open spec fn hermite_segments<S: Scalar, V: Vector<S>>(
    positions: Seq<V>,
    tangents: Seq<V>,
    grid: Seq<S>,
) -> Seq<Segment<V>> {
    Seq::new(
        (positions.len() - 1) as nat,
        |i: int|
            hermite_segment(
                positions[i],
                positions[i + 1],
                tangents[2 * i],
                tangents[2 * i + 1],
                grid[i + 1].spec_sub(grid[i]),
            ),
    )
}

impl<S: Scalar, V: Vector<S>> PiecewiseCubicCurve<S, V> {
    /// Builds a piecewise cubic curve interpolating `positions` with two
    /// prescribed tangents per segment over the given grid.
    pub fn new_hermite(positions: &Vec<V>, tangents: &Vec<V>, grid: &Vec<S>) -> (r: Result<
        Self,
        Error,
    >)
        ensures
            match r {
                Ok(c) => positions@.len() >= 2 && tangents@.len() == 2 * (positions@.len() - 1)
                    && grid@.len() == positions@.len() && grid_no_nan(grid@)
                    && grid_adjacent_ascending(grid@) && c.wf() && c.spec_grid() == grid@
                    && c.spec_segments() == hermite_segments(positions@, tangents@, grid@),
                Err(Error::LessThanTwoPositions) => positions@.len() < 2,
                Err(Error::TangentsVsSegments { tangents: tl, segments: sl }) => positions@.len()
                    >= 2 && tl == tangents@.len() && sl == positions@.len() - 1 && tangents@.len()
                    != 2 * (positions@.len() - 1),
                Err(Error::GridVsPositions { grid: gl, positions: pl }) => positions@.len() >= 2
                    && tangents@.len() == 2 * (positions@.len() - 1) && gl == grid@.len() && pl
                    == positions@.len() && grid@.len() != positions@.len(),
                Err(Error::FromGridError(e)) => positions@.len() >= 2 && tangents@.len() == 2 * (
                positions@.len() - 1) && grid@.len() == positions@.len() && grid_error_spec(
                    grid@,
                    e,
                ),
            },
    {
        if positions.len() < 2 {
            return Err(Error::LessThanTwoPositions);
        }
        let segments_len: usize = positions.len() - 1;
        if tangents.len() / 2 != segments_len || tangents.len() % 2 != 0 {
            return Err(
                Error::TangentsVsSegments { tangents: tangents.len(), segments: segments_len },
            );
        }
        if positions.len() != grid.len() {
            return Err(
                Error::GridVsPositions { grid: grid.len(), positions: positions.len() },
            );
        }
        let mut segments: Vec<Segment<V>> = Vec::new();
        let tangents_len: usize = tangents.len();
        let mut i: usize = 0;
        while i < segments_len
            invariant
                segments_len == positions@.len() - 1,
                tangents_len == tangents@.len(),
                tangents@.len() == 2 * segments_len,
                grid@.len() == positions@.len(),
                i <= segments_len,
                segments@.len() == i,
                forall|j: int|
                    0 <= j < i ==> #[trigger] segments@[j] == hermite_segments(
                        positions@,
                        tangents@,
                        grid@,
                    )[j],
            decreases segments_len - i,
        {
            let x0: V = positions[i];
            let x1: V = positions[i + 1];
            let v0: V = tangents[2 * i];
            let v1: V = tangents[2 * i + 1];
            let t0: S = grid[i];
            let t1: S = grid[i + 1];
            let delta: S = t1.sub(t0);
            segments.push(
                Segment {
                    a0: x0,
                    a1: v0.vscale(delta),
                    a2: x0.vscale(S::three().neg()).vadd(x1.vscale(S::three())).vsub(
                        v0.vscale(S::two()).vscale(delta),
                    ).vsub(v1.vscale(delta)),
                    a3: x0.vscale(S::two()).vsub(x1.vscale(S::two())).vadd(v0.vscale(delta)).vadd(
                        v1.vscale(delta),
                    ),
                },
            );
            i += 1;
        }
        proof {
            assert(segments@ =~= hermite_segments(positions@, tangents@, grid@));
        }
        let grid_owned: Vec<S> = copied_vec(grid);
        match PiecewiseCubicCurve::new(segments, grid_owned) {
            Ok(c) => Ok(c),
            Err(CurveError::FromGridError(e)) => Err(Error::FromGridError(e)),
            Err(CurveError::ZeroSegments) => unreached(),
            Err(CurveError::GridVsSegments { .. }) => unreached(),
        }
    }
}

/// Interpolation exactness: a curve with Hermite coefficients passes through
/// its construction positions at every breakpoint but the last, provided the
/// breakpoint pair and the higher coefficients of its segment are finite.
/// (At the last breakpoint the evaluation runs through the far end of the
/// final segment, where the value is the sum of that segment's
/// coefficients.)
pub proof fn lemma_hermite_interpolates<S: Scalar, V: Vector<S>>(
    c: PiecewiseCubicCurve<S, V>,
    positions: Seq<V>,
    tangents: Seq<V>,
    grid: Seq<S>,
    i: int,
)
    requires
        c.wf(),
        c.spec_grid() == grid,
        c.spec_segments() == hermite_segments(positions, tangents, grid),
        positions.len() >= 2,
        grid.len() == positions.len(),
        0 <= i < grid.len() - 1,
        grid[i].spec_finite(),
        grid[i + 1].spec_finite(),
        hermite_segments(positions, tangents, grid)[i].a1.spec_vfinite(),
        hermite_segments(positions, tangents, grid)[i].a2.spec_vfinite(),
        hermite_segments(positions, tangents, grid)[i].a3.spec_vfinite(),
    ensures
        c.spec_evaluate(grid[i]) == positions[i],
{
    lemma_evaluate_at_breakpoint(c, i);
}

impl Error {
    /// A human-readable description of the error.
    pub fn message(&self) -> (r: String)
        ensures
            r@.len() > 0,
    {
        match self {
            Error::LessThanTwoPositions => {
                proof {
                    reveal_strlit("there must be at least two positions");
                }
                String::from_str("there must be at least two positions")
            },
            Error::TangentsVsSegments { tangents, segments } => {
                let mut m: String = indexed_message("exactly 2 tangents per segment are required (got ", *segments, " segments and ");
                m.append(usize_to_string(*tangents).as_str());
                m.append(")");
                m
            },
            Error::GridVsPositions { grid, positions } => {
                let mut m: String = indexed_message("length of grid (", *grid, ") must be the same as number of positions (");
                m.append(usize_to_string(*positions).as_str());
                m.append(")");
                m
            },
            Error::FromGridError(e) => e.message(),
        }
    }
}

} // verus!
