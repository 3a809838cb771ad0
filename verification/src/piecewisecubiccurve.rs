//! The fundamental queryable primitive: a piecewise cubic curve given by
//! per-segment Hermite-basis coefficients over a strictly ascending grid.

use vstd::prelude::*;

use vstd::string::StringExecFns;

use crate::utilities::{indexed_message, usize_to_string};

use crate::utilities::{
    check_grid, first_upper, gauss_legendre13, gauss_node_arg, grid_adjacent_ascending,
    grid_error_spec, grid_no_nan, grid_sorted, lemma_first_upper, lemma_grid_sorted,
    lemma_weighted_sum_fn, upper_bound, weighted_sum, weighted_sum_fn, GridError,
};
use crate::{NormWrapper, Scalar, Vector};

verus! {

/// The coefficients of one cubic segment: the value of the segment at local
/// parameter `t` in `[0, 1]` is `((a3 t + a2) t + a1) t + a0`.
#[derive(Clone, Copy, Debug)]
pub struct Segment<V> {
    pub a0: V,
    pub a1: V,
    pub a2: V,
    pub a3: V,
}

#[derive(Clone, Copy, Debug, PartialEq, Eq, Structural)]
pub enum Error {
    ZeroSegments,
    GridVsSegments { grid: usize, segments: usize },
    FromGridError(GridError),
}

pub struct PiecewiseCubicCurve<S: Scalar, V: Vector<S>> {
    segments: Vec<Segment<V>>,
    grid: Vec<S>,
}

/// Horner evaluation of a segment at local parameter `t`.
pub open spec fn spec_horner<S: Scalar, V: Vector<S>>(seg: Segment<V>, t: S) -> V {
    seg.a3.spec_vscale(t).spec_vadd(seg.a2).spec_vscale(t).spec_vadd(seg.a1).spec_vscale(
        t,
    ).spec_vadd(seg.a0)
}

/// The derivative of a segment with respect to the global parameter, at
/// local parameter `t`, where `dt` is the width of the segment's interval.
pub open spec fn spec_horner_velocity<S: Scalar, V: Vector<S>>(seg: Segment<V>, t: S, dt: S) -> V {
    seg.a3.spec_vscale(S::spec_three()).spec_vscale(t).spec_vadd(
        seg.a2.spec_vscale(S::spec_two()),
    ).spec_vscale(t).spec_vadd(seg.a1).spec_vdiv(dt)
}

/// Clamps the query parameter into the grid's range and picks the segment
/// index: the one whose half-open interval contains the clamped parameter,
/// with queries at or beyond the last breakpoint going to the last segment.
pub open spec fn spec_clamp<S: Scalar>(g: Seq<S>, t: S) -> (S, int) {
    if t.spec_lt(g[0]) {
        (g[0], 0)
    } else if t.spec_lt(g[g.len() - 1]) {
        (t, first_upper(g, t) - 1)
    } else {
        (g[g.len() - 1], g.len() - 2)
    }
}

/// On a sorted grid of at least two entries, the clamped segment index is in
/// range.
pub proof fn lemma_clamp_index<S: Scalar>(g: Seq<S>, t: S)
    requires
        grid_sorted(g),
        g.len() >= 2,
    ensures
        0 <= spec_clamp(g, t).1 <= g.len() - 2,
{
    lemma_first_upper(g, t);
    if !t.spec_lt(g[0]) && t.spec_lt(g[g.len() - 1]) {
        let fu = first_upper(g, t);
        if fu == 0 {
            assert(!t.spec_lt(g[0]));
        }
        if fu == g.len() {
            assert(!t.spec_lt(g[g.len() - 1]));
        }
    }
}

/// The value of a piecewise cubic with the given grid and coefficients at
/// `t`, with `t` clamped into the grid's range.
pub open spec fn curve_value<S: Scalar, V: Vector<S>>(g: Seq<S>, segs: Seq<Segment<V>>, t: S) -> V {
    let (tc, idx) = spec_clamp(g, t);
    let t0 = g[idx];
    let t1 = g[idx + 1];
    spec_horner(segs[idx], tc.spec_sub(t0).spec_div(t1.spec_sub(t0)))
}

/// The first derivative of a piecewise cubic with the given grid and
/// coefficients at `t`, with the same clamping policy.
pub open spec fn curve_velocity<S: Scalar, V: Vector<S>>(
    g: Seq<S>,
    segs: Seq<Segment<V>>,
    t: S,
) -> V {
    let (tc, idx) = spec_clamp(g, t);
    let t0 = g[idx];
    let t1 = g[idx + 1];
    spec_horner_velocity(segs[idx], tc.spec_sub(t0).spec_div(t1.spec_sub(t0)), t1.spec_sub(t0))
}

/// The quadrature integral of the speed over `[a, b]` for a piecewise
/// cubic with the given grid and coefficients.
pub open spec fn curve_integrated_speed<S: Scalar, V: Vector<S>, N: NormWrapper<S, V>>(
    g: Seq<S>,
    segs: Seq<Segment<V>>,
    norm: N,
    a: S,
    b: S,
) -> S {
    b.spec_sub(a).spec_mul(
        weighted_sum_fn(
            S::spec_nodes(),
            |x: S| norm.spec_norm(curve_velocity(g, segs, gauss_node_arg(a, b, x))),
            S::spec_nodes().len() as int,
        ),
    ).spec_div(S::spec_two())
}

impl<S: Scalar, V: Vector<S>> PiecewiseCubicCurve<S, V> {
    /// A curve is well formed when it has at least one segment, one more
    /// grid entry than segments, and a NaN-free, strictly ascending grid.
    pub closed spec fn spec_segments(self) -> Seq<Segment<V>> {
        self.segments@
    }

    pub closed spec fn spec_grid(self) -> Seq<S> {
        self.grid@
    }

    pub open spec fn wf(self) -> bool {
        &&& self.spec_segments().len() >= 1
        &&& self.spec_grid().len() == self.spec_segments().len() + 1
        &&& grid_no_nan(self.spec_grid())
        &&& grid_adjacent_ascending(self.spec_grid())
        &&& grid_sorted(self.spec_grid())
    }

    pub fn new(segments: Vec<Segment<V>>, grid: Vec<S>) -> (r: Result<Self, Error>)
        ensures
            match r {
                Ok(c) => segments@.len() >= 1 && grid@.len() == segments@.len() + 1 && grid_no_nan(
                    grid@,
                ) && grid_adjacent_ascending(grid@) && c.wf() && c.spec_segments() == segments@
                    && c.spec_grid() == grid@,
                Err(Error::ZeroSegments) => segments@.len() == 0,
                Err(Error::GridVsSegments { grid: gl, segments: sl }) => segments@.len() >= 1 && gl
                    == grid@.len() && sl == segments@.len() && grid@.len() != segments@.len() + 1,
                Err(Error::FromGridError(e)) => segments@.len() >= 1 && grid@.len()
                    == segments@.len() + 1 && grid_error_spec(grid@, e),
            },
    {
        if segments.len() < 1 {
            return Err(Error::ZeroSegments);
        }
        if grid.len() < 1 || segments.len() != grid.len() - 1 {
            return Err(
                Error::GridVsSegments { grid: grid.len(), segments: segments.len() },
            );
        }
        match check_grid(&grid) {
            Err(e) => {
                return Err(Error::FromGridError(e));
            },
            Ok(()) => {},
        }
        proof {
            lemma_grid_sorted(grid@);
        }
        Ok(PiecewiseCubicCurve { segments, grid })
    }

    pub fn segments(&self) -> (r: &Vec<Segment<V>>)
        ensures
            r@ == self.spec_segments(),
    {
        &self.segments
    }

    pub fn grid(&self) -> (r: &Vec<S>)
        ensures
            r@ == self.spec_grid(),
    {
        &self.grid
    }

    /// The clamped parameter, the containing segment's two breakpoints and
    /// its coefficients.
    fn get_segment(&self, t: S) -> (r: (S, S, S, Segment<V>))
        requires
            self.wf(),
        ensures
            ({
                let (tc, idx) = spec_clamp(self.spec_grid(), t);
                r.0 == tc && r.1 == self.spec_grid()[idx] && r.2 == self.spec_grid()[idx + 1] && r.3
                    == self.spec_segments()[idx]
            }),
    {
        proof {
            lemma_clamp_index(self.grid@, t);
        }
        let first: S = self.grid[0];
        let last: S = self.grid[self.grid.len() - 1];
        if t.lt(first) {
            (first, self.grid[0], self.grid[1], self.segments[0])
        } else if t.lt(last) {
            let idx: usize = upper_bound(&self.grid, t) - 1;
            (t, self.grid[idx], self.grid[idx + 1], self.segments[idx])
        } else {
            let idx: usize = self.grid.len() - 2;
            (last, self.grid[idx], self.grid[idx + 1], self.segments[idx])
        }
    }

    /// The curve's value at `t`, with `t` clamped into the grid's range.
    pub open spec fn spec_evaluate(self, t: S) -> V {
        curve_value(self.spec_grid(), self.spec_segments(), t)
    }

    pub fn evaluate(&self, t: S) -> (r: V)
        requires
            self.wf(),
        ensures
            r == self.spec_evaluate(t),
    {
        let (tc, t0, t1, a) = self.get_segment(t);
        let tl: S = tc.sub(t0).div(t1.sub(t0));
        a.a3.vscale(tl).vadd(a.a2).vscale(tl).vadd(a.a1).vscale(tl).vadd(a.a0)
    }

    /// The curve's first derivative at `t`, with the same clamping policy
    /// as `evaluate`.
    pub open spec fn spec_evaluate_velocity(self, t: S) -> V {
        curve_velocity(self.spec_grid(), self.spec_segments(), t)
    }

    pub fn evaluate_velocity(&self, t: S) -> (r: V)
        requires
            self.wf(),
        ensures
            r == self.spec_evaluate_velocity(t),
    {
        let (tc, t0, t1, a) = self.get_segment(t);
        let dt: S = t1.sub(t0);
        let tl: S = tc.sub(t0).div(dt);
        a.a3.vscale(S::three()).vscale(tl).vadd(a.a2.vscale(S::two())).vscale(tl).vadd(
            a.a1,
        ).vdiv(dt)
    }

    /// The integral the quadrature rule assigns to the speed (the norm of
    /// the velocity) over `[a, b]`.
    pub open spec fn spec_integrated_speed<N: NormWrapper<S, V>>(self, norm: N, a: S, b: S) -> S {
        curve_integrated_speed(self.spec_grid(), self.spec_segments(), norm, a, b)
    }

    /// Numerically integrates the speed over `[a, b]`, a sub-interval of
    /// segment `index`, by 13-point Gauss-Legendre quadrature.
    pub fn integrated_speed<N: NormWrapper<S, V>>(&self, index: usize, a: S, b: S, norm: &N) -> (r:
        S)
        requires
            self.wf(),
            index + 1 < self.spec_grid().len(),
            a.spec_le(b),
            self.spec_grid()[index as int].spec_le(a),
            b.spec_le(self.spec_grid()[index + 1]),
        ensures
            r == self.spec_integrated_speed(*norm, a, b),
    {
        let f = |t: S| -> (y: S)
            ensures
                y == norm.spec_norm(self.spec_evaluate_velocity(t)),
            { norm.norm(&self.evaluate_velocity(t)) };
        let r: S = gauss_legendre13(&f, a, b);
        proof {
            let ys = choose|ys: Seq<S>|
                ys.len() == S::spec_nodes().len() && (forall|i: int|
                    0 <= i < ys.len() ==> call_ensures(
                        f,
                        (gauss_node_arg(a, b, S::spec_nodes()[i].0),),
                        #[trigger] ys[i],
                    )) && r == b.spec_sub(a).spec_mul(
                    weighted_sum(S::spec_nodes(), ys, S::spec_nodes().len() as int),
                ).spec_div(S::spec_two());
            let g = |x: S|
                norm.spec_norm(
                    curve_velocity(
                        self.spec_grid(),
                        self.spec_segments(),
                        gauss_node_arg(a, b, x),
                    ),
                );
            assert forall|i: int| 0 <= i < ys.len() implies #[trigger] ys[i] == g(
                S::spec_nodes()[i].0,
            ) by {
                assert(call_ensures(f, (gauss_node_arg(a, b, S::spec_nodes()[i].0),), ys[i]));
            }
            lemma_weighted_sum_fn(S::spec_nodes(), ys, g, S::spec_nodes().len() as int);
        }
        r
    }
}


/// Evaluating at a breakpoint (but the last) selects that breakpoint's
/// own segment, with the breakpoint as the clamped parameter.
pub proof fn lemma_breakpoint_clamp<S: Scalar>(g: Seq<S>, i: int)
    requires
        grid_sorted(g),
        g.len() >= 2,
        0 <= i < g.len() - 1,
    ensures
        spec_clamp(g, g[i]) == (g[i], i),
{
    let n = g.len() as int;
    let t = g[i];
    if t.spec_lt(g[0]) {
        if i == 0 {
            S::law_lt_asymmetric(t, t);
        } else {
            assert(g[0].spec_lt(g[i]));
            S::law_lt_asymmetric(g[0], t);
        }
    }
    assert(g[i].spec_lt(g[n - 1]));
    lemma_first_upper(g, t);
    let fu = first_upper(g, t);
    if fu <= i {
        assert(t.spec_lt(g[fu]));
        if fu < i {
            S::law_lt_asymmetric(g[fu], g[i]);
        } else {
            S::law_lt_asymmetric(t, t);
        }
    }
    if fu >= i + 2 {
        assert(!t.spec_lt(g[i + 1]));
    }
    assert(fu == i + 1);
}

/// At such a breakpoint the local parameter collapses to zero exactly,
/// provided the breakpoint pair is finite.
pub proof fn lemma_breakpoint_local_zero<S: Scalar>(g: Seq<S>, i: int)
    requires
        grid_sorted(g),
        g.len() >= 2,
        0 <= i < g.len() - 1,
        g[i].spec_finite(),
        g[i + 1].spec_finite(),
    ensures
        g[i].spec_sub(g[i]).spec_div(g[i + 1].spec_sub(g[i])) == S::spec_zero(),
{
    assert(g[i].spec_lt(g[i + 1]));
    S::law_sub_self(g[i]);
    S::law_sub_pos(g[i], g[i + 1]);
    S::law_zero_div(g[i + 1].spec_sub(g[i]));
}

/// Evaluation at a breakpoint (but the last) lands exactly on the constant
/// coefficient of its segment, provided the breakpoint pair and the higher
/// coefficients are finite: the local parameter collapses to zero and the
/// Horner chain to `a0`.
pub proof fn lemma_evaluate_at_breakpoint<S: Scalar, V: Vector<S>>(
    c: PiecewiseCubicCurve<S, V>,
    i: int,
)
    requires
        c.wf(),
        0 <= i < c.spec_grid().len() - 1,
        c.spec_grid()[i].spec_finite(),
        c.spec_grid()[i + 1].spec_finite(),
        c.spec_segments()[i].a1.spec_vfinite(),
        c.spec_segments()[i].a2.spec_vfinite(),
        c.spec_segments()[i].a3.spec_vfinite(),
    ensures
        c.spec_evaluate(c.spec_grid()[i]) == c.spec_segments()[i].a0,
{
    let g = c.spec_grid();
    lemma_breakpoint_clamp(g, i);
    lemma_breakpoint_local_zero(g, i);
    let seg = c.spec_segments()[i];
    seg.a3.law_vscale_zero_vadd(seg.a2);
    seg.a2.law_vscale_zero_vadd(seg.a1);
    seg.a1.law_vscale_zero_vadd(seg.a0);
}

/// The velocity at a breakpoint (but the last) is exactly the segment's
/// linear coefficient over the interval width, provided the breakpoint
/// pair and the scaled higher coefficients are finite.  For a
/// Hermite-built curve that coefficient is the prescribed outgoing tangent
/// scaled by the interval width, so the tangent is recovered up to the
/// division's round trip.
pub proof fn lemma_velocity_at_breakpoint<S: Scalar, V: Vector<S>>(
    c: PiecewiseCubicCurve<S, V>,
    i: int,
)
    requires
        c.wf(),
        0 <= i < c.spec_grid().len() - 1,
        c.spec_grid()[i].spec_finite(),
        c.spec_grid()[i + 1].spec_finite(),
        c.spec_segments()[i].a2.spec_vscale(S::spec_two()).spec_vfinite(),
        c.spec_segments()[i].a3.spec_vscale(S::spec_three()).spec_vfinite(),
    ensures
        c.spec_evaluate_velocity(c.spec_grid()[i]) == c.spec_segments()[i].a1.spec_vdiv(
            c.spec_grid()[i + 1].spec_sub(c.spec_grid()[i]),
        ),
{
    let g = c.spec_grid();
    lemma_breakpoint_clamp(g, i);
    lemma_breakpoint_local_zero(g, i);
    let seg = c.spec_segments()[i];
    seg.a3.spec_vscale(S::spec_three()).law_vscale_zero_vadd(seg.a2.spec_vscale(S::spec_two()));
    seg.a2.spec_vscale(S::spec_two()).law_vscale_zero_vadd(seg.a1);
}

/// Clamping: a query below the first breakpoint evaluates like the first
/// breakpoint itself, and symmetrically above the last breakpoint.
pub proof fn lemma_evaluate_clamps<S: Scalar, V: Vector<S>>(c: PiecewiseCubicCurve<S, V>, t: S)
    requires
        c.wf(),
    ensures
        t.spec_lt(c.spec_grid()[0]) ==> c.spec_evaluate(t) == c.spec_evaluate(c.spec_grid()[0]),
        c.spec_grid()[c.spec_grid().len() - 1].spec_lt(t) ==> c.spec_evaluate(t)
            == c.spec_evaluate(c.spec_grid()[c.spec_grid().len() - 1]),
{
    let g = c.spec_grid();
    let n = g.len() as int;
    let first = g[0];
    let last = g[n - 1];
    if first.spec_lt(first) {
        S::law_lt_asymmetric(first, first);
    }
    if last.spec_lt(last) {
        S::law_lt_asymmetric(last, last);
    }
    if last.spec_lt(first) {
        S::law_lt_asymmetric(first, last);
    }
    if t.spec_lt(first) {
        // Evaluating at the first breakpoint selects segment 0 as well.
        assert(first_upper(g, first) == 1) by {
            assert(!first.spec_lt(g[0]));
            let rest = g.drop_first();
            assert(rest[0] == g[1]);
            assert(first.spec_lt(rest[0]));
            assert(first_upper(rest, first) == 0);
        }
        assert(spec_clamp(g, first) == (first, 0int));
        assert(spec_clamp(g, t) == (first, 0int));
    }
    if last.spec_lt(t) {
        if t.spec_lt(first) {
            S::law_lt_transitive(last, t, first);
            S::law_lt_asymmetric(first, last);
        }
        if t.spec_lt(last) {
            S::law_lt_asymmetric(last, t);
        }
        assert(spec_clamp(g, t) == (last, n - 2));
        assert(spec_clamp(g, last) == (last, n - 2));
    }
}

impl Error {
    /// A human-readable description of the error.
    pub fn message(&self) -> (r: String)
        ensures
            r@.len() > 0,
    {
        match self {
            Error::ZeroSegments => {
                proof {
                    reveal_strlit("there must be at least one segment");
                }
                String::from_str("there must be at least one segment")
            },
            Error::GridVsSegments { grid, segments } => {
                let mut m: String = indexed_message("length of grid (", *grid, ") must be one more than number of segments (");
                m.append(usize_to_string(*segments).as_str());
                m.append(")");
                m
            },
            Error::FromGridError(e) => e.message(),
        }
    }
}

} // verus!
