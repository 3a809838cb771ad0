//! The spherical cubic Bezier curve: four control quaternions per segment,
//! evaluated by three levels of spherical linear interpolation.

use vstd::prelude::*;

use vstd::string::StringExecFns;

use crate::utilities::{indexed_message, usize_to_string};

use crate::quaternion::Quaternion;
use crate::utilities::{
    check_grid, gauss_legendre13, gauss_node_arg, grid_adjacent_ascending, grid_error_spec,
    grid_no_nan, grid_sorted, lemma_grid_sorted, lemma_weighted_sum_fn, upper_bound, weighted_sum,
    weighted_sum_fn, GridError,
};
use crate::piecewisecubiccurve::{lemma_clamp_index, spec_clamp};
use crate::{NormWrapper, Scalar, Vector};

verus! {

#[derive(Clone, Copy, Debug, PartialEq, Eq, Structural)]
pub enum Error {
    GridTooShort,
    GridVsControlPolygon { grid: usize, control_polygon: usize },
    GridNan { index: usize },
    GridNotAscending { index: usize },
}

pub struct CubicDeCasteljau<S: Scalar, W: Vector<S>, Q: Quaternion<S, W>> {
    control_polygon: Vec<Q>,
    grid: Vec<S>,
    angular_velocity: core::marker::PhantomData<W>,
}

/// The two quaternions left after two levels of spherical interpolation of
/// segment `idx`, together with the local parameter and the interval width.
pub open spec fn spec_partial_de_casteljau<S: Scalar, W: Vector<S>, Q: Quaternion<S, W>>(
    g: Seq<S>,
    cp: Seq<Q>,
    t: S,
) -> (Q, Q, S, S) {
    let (tc, idx) = spec_clamp(g, t);
    let t0 = g[idx];
    let t1 = g[idx + 1];
    let delta_t = t1.spec_sub(t0);
    let tl = tc.spec_sub(t0).spec_div(delta_t);
    let a = cp[idx * 3];
    let b = cp[idx * 3 + 1];
    let c = cp[idx * 3 + 2];
    let d = cp[idx * 3 + 3];
    let ab = a.spec_slerp(b, tl);
    let bc = b.spec_slerp(c, tl);
    let cd = c.spec_slerp(d, tl);
    (ab.spec_slerp(bc, tl), bc.spec_slerp(cd, tl), tl, delta_t)
}

/// The curve's rotation at `t`.
pub open spec fn decasteljau_value<S: Scalar, W: Vector<S>, Q: Quaternion<S, W>>(
    g: Seq<S>,
    cp: Seq<Q>,
    t: S,
) -> Q {
    let (one, two, tl, delta_t) = spec_partial_de_casteljau(g, cp, t);
    one.spec_slerp(two, tl)
}

/// The curve's angular velocity at `t`: the relative rotation of the two
/// second-level results, scaled by the degree over the interval width.
pub open spec fn decasteljau_velocity<S: Scalar, W: Vector<S>, Q: Quaternion<S, W>>(
    g: Seq<S>,
    cp: Seq<Q>,
    t: S,
) -> W {
    let (one, two, tl, delta_t) = spec_partial_de_casteljau(g, cp, t);
    one.spec_rotation_to(two).spec_scaled_axis().spec_vscale(S::spec_three()).spec_vdiv(delta_t)
}

/// The quadrature integral of the angular speed over `[a, b]`.
pub open spec fn decasteljau_integrated_speed<
    S: Scalar,
    W: Vector<S>,
    Q: Quaternion<S, W>,
    N: NormWrapper<S, W>,
>(g: Seq<S>, cp: Seq<Q>, norm: N, a: S, b: S) -> S {
    b.spec_sub(a).spec_mul(
        weighted_sum_fn(
            S::spec_nodes(),
            |x: S| norm.spec_norm(decasteljau_velocity(g, cp, gauss_node_arg(a, b, x))),
            S::spec_nodes().len() as int,
        ),
    ).spec_div(S::spec_two())
}

impl<S: Scalar, W: Vector<S>, Q: Quaternion<S, W>> CubicDeCasteljau<S, W, Q> {
    pub closed spec fn spec_control_polygon(self) -> Seq<Q> {
        self.control_polygon@
    }

    pub closed spec fn spec_grid(self) -> Seq<S> {
        self.grid@
    }

    /// Four control quaternions per segment, with adjacent segments
    /// sharing their joint quaternion; a NaN-free, strictly ascending
    /// grid.
    pub open spec fn wf(self) -> bool {
        &&& self.spec_grid().len() >= 2
        &&& self.spec_control_polygon().len() == 3 * self.spec_grid().len() - 2
        &&& grid_no_nan(self.spec_grid())
        &&& grid_adjacent_ascending(self.spec_grid())
        &&& grid_sorted(self.spec_grid())
    }

    pub fn new(control_polygon: Vec<Q>, grid: Vec<S>) -> (r: Result<Self, Error>)
        ensures
            match r {
                Ok(c) => grid@.len() >= 2 && control_polygon@.len() == 3 * grid@.len() - 2
                    && grid_no_nan(grid@) && grid_adjacent_ascending(grid@) && c.wf()
                    && c.spec_control_polygon() == control_polygon@ && c.spec_grid() == grid@,
                Err(Error::GridTooShort) => grid@.len() < 2,
                Err(Error::GridVsControlPolygon { grid: gl, control_polygon: cl }) => grid@.len()
                    >= 2 && gl == grid@.len() && cl == control_polygon@.len()
                    && control_polygon@.len() != 3 * grid@.len() - 2,
                Err(Error::GridNan { index }) => grid@.len() >= 2 && control_polygon@.len() == 3
                    * grid@.len() - 2 && grid_error_spec(grid@, GridError::GridNan { index }),
                Err(Error::GridNotAscending { index }) => grid@.len() >= 2
                    && control_polygon@.len() == 3 * grid@.len() - 2 && grid_error_spec(
                    grid@,
                    GridError::GridNotAscending { index },
                ),
            },
    {
        if grid.len() < 2 {
            return Err(Error::GridTooShort);
        }
        if control_polygon.len() % 3 != 1 || control_polygon.len() / 3 != grid.len() - 1 {
            return Err(
                Error::GridVsControlPolygon {
                    grid: grid.len(),
                    control_polygon: control_polygon.len(),
                },
            );
        }
        match check_grid(&grid) {
            Err(GridError::GridNan { index }) => {
                return Err(Error::GridNan { index });
            },
            Err(GridError::GridNotAscending { index }) => {
                return Err(Error::GridNotAscending { index });
            },
            Ok(()) => {},
        }
        proof {
            lemma_grid_sorted(grid@);
        }
        Ok(
            CubicDeCasteljau {
                control_polygon,
                grid,
                angular_velocity: core::marker::PhantomData,
            },
        )
    }

    /// Applies two levels of spherical interpolation, leaving two
    /// quaternions.
    fn partial_de_casteljau(&self, t: S) -> (r: (Q, Q, S, S))
        requires
            self.wf(),
        ensures
            r == spec_partial_de_casteljau(self.spec_grid(), self.spec_control_polygon(), t),
    {
        proof {
            lemma_clamp_index(self.grid@, t);
        }
        let first: S = self.grid[0];
        let last: S = self.grid[self.grid.len() - 1];
        let (tc, idx): (S, usize) = if t.lt(first) {
            (first, 0)
        } else if t.lt(last) {
            (t, upper_bound(&self.grid, t) - 1)
        } else {
            (last, self.grid.len() - 2)
        };
        let t0: S = self.grid[idx];
        let t1: S = self.grid[idx + 1];
        let delta_t: S = t1.sub(t0);
        let tl: S = tc.sub(t0).div(delta_t);
        let cp_len: usize = self.control_polygon.len();
        proof {
            assert(3 * (idx as int) + 3 < cp_len as int);
        }
        let a: Q = self.control_polygon[idx * 3];
        let b: Q = self.control_polygon[idx * 3 + 1];
        let c: Q = self.control_polygon[idx * 3 + 2];
        let d: Q = self.control_polygon[idx * 3 + 3];
        let ab: Q = a.slerp(b, tl);
        let bc: Q = b.slerp(c, tl);
        let cd: Q = c.slerp(d, tl);
        (ab.slerp(bc, tl), bc.slerp(cd, tl), tl, delta_t)
    }

    /// The curve's rotation at `t`, with `t` clamped into the grid's
    /// range.
    pub fn evaluate(&self, t: S) -> (r: Q)
        requires
            self.wf(),
        ensures
            r == decasteljau_value(self.spec_grid(), self.spec_control_polygon(), t),
    {
        let (one, two, tl, _delta_t) = self.partial_de_casteljau(t);
        one.slerp(two, tl)
    }

    /// The curve's angular velocity at `t`.
    pub fn evaluate_velocity(&self, t: S) -> (r: W)
        requires
            self.wf(),
        ensures
            r == decasteljau_velocity(self.spec_grid(), self.spec_control_polygon(), t),
    {
        let (one, two, _tl, delta_t) = self.partial_de_casteljau(t);
        one.rotation_to(two).scaled_axis().vscale(S::three()).vdiv(delta_t)
    }

    pub fn grid(&self) -> (r: &Vec<S>)
        ensures
            r@ == self.spec_grid(),
    {
        &self.grid
    }

    pub fn control_polygon(&self) -> (r: &Vec<Q>)
        ensures
            r@ == self.spec_control_polygon(),
    {
        &self.control_polygon
    }

    /// Numerically integrates the angular speed over `[a, b]`, a
    /// sub-interval of segment `index`.
    pub fn integrated_speed<N: NormWrapper<S, W>>(&self, index: usize, a: S, b: S, norm: &N) -> (r:
        S)
        requires
            self.wf(),
            index + 1 < self.spec_grid().len(),
            a.spec_le(b),
            self.spec_grid()[index as int].spec_le(a),
            b.spec_le(self.spec_grid()[index + 1]),
        ensures
            r == decasteljau_integrated_speed(
                self.spec_grid(),
                self.spec_control_polygon(),
                *norm,
                a,
                b,
            ),
    {
        let f = |t: S| -> (y: S)
            ensures
                y == norm.spec_norm(
                    decasteljau_velocity(self.spec_grid(), self.spec_control_polygon(), t),
                ),
            { norm.norm(&self.evaluate_velocity(t)) };
        let r: S = gauss_legendre13(&f, a, b);
        proof {
            let ys = choose|ys: Seq<S>|
                ys.len() == S::spec_nodes().len() && (forall|i: int|
                    0 <= i < ys.len() ==> call_ensures(
                        f,
                        (gauss_node_arg(a, b, S::spec_nodes()[i].0),),
                        #[trigger] ys[i],
                    )) && r == b.spec_sub(a).spec_mul(
                    weighted_sum(S::spec_nodes(), ys, S::spec_nodes().len() as int),
                ).spec_div(S::spec_two());
            let g = |x: S|
                norm.spec_norm(
                    decasteljau_velocity(
                        self.spec_grid(),
                        self.spec_control_polygon(),
                        gauss_node_arg(a, b, x),
                    ),
                );
            assert forall|i: int| 0 <= i < ys.len() implies #[trigger] ys[i] == g(
                S::spec_nodes()[i].0,
            ) by {
                assert(call_ensures(f, (gauss_node_arg(a, b, S::spec_nodes()[i].0),), ys[i]));
            }
            lemma_weighted_sum_fn(S::spec_nodes(), ys, g, S::spec_nodes().len() as int);
        }
        r
    }
}

impl Error {
    /// A human-readable description of the error.
    pub fn message(&self) -> (r: String)
        ensures
            r@.len() > 0,
    {
        match self {
            Error::GridTooShort => {
                proof {
                    reveal_strlit("there must be at least two grid elements");
                }
                String::from_str("there must be at least two grid elements")
            },
            Error::GridVsControlPolygon { grid, control_polygon } => {
                let mut m: String = indexed_message(
                    "there must be three control quaternions per segment plus one (got ",
                    *grid,
                    " grid points and ",
                );
                m.append(usize_to_string(*control_polygon).as_str());
                m.append(" control quaternions)");
                m
            },
            Error::GridNan { index } => indexed_message(
                "index ",
                *index,
                ": NaN values are not allowed in grid",
            ),
            Error::GridNotAscending { index } => indexed_message(
                "index ",
                *index,
                ": grid values must be strictly ascending",
            ),
        }
    }
}

} // verus!
