//! The centripetal Kochanek-Bartels constructor over rotations: builds a
//! centripetal grid from square roots of rotation angles and TCB-weighted
//! control quaternions from local angular-velocity blending.

use vstd::prelude::*;

use vstd::string::StringExecFns;

use crate::utilities::{indexed_message, usize_to_string};

use vstd::pervasive::unreached;

use crate::quaternion::cubicdecasteljau::{CubicDeCasteljau, Error as DcError};
use crate::quaternion::{canonicalize, spec_canonical, Quaternion};
use crate::utilities::{copied_vec, grid_adjacent_ascending, grid_no_nan};
use crate::{Scalar, Vector};

verus! {

#[derive(Clone, Copy, Debug, PartialEq, Eq, Structural)]
pub enum Error {
    LessThanTwoQuaternions,
    TcbVsQuaternions { tcb: usize, quaternions: usize, closed: bool },
    RepeatedQuaternion { index: usize },
}

/// The quaternion sequence the construction canonicalizes: a closed curve
/// is closed with its first rotation.
pub open spec fn spec_rot_positions<S: Scalar, W: Vector<S>, Q: Quaternion<S, W>>(
    qs: Seq<Q>,
    closed: bool,
) -> Seq<Q> {
    if closed {
        qs.push(qs[0])
    } else {
        qs
    }
}

/// The canonicalized working sequence.
pub open spec fn spec_rot_canon<S: Scalar, W: Vector<S>, Q: Quaternion<S, W>>(
    qs: Seq<Q>,
    closed: bool,
) -> Seq<Q> {
    let w = spec_rot_positions::<S, W, Q>(qs, closed);
    Seq::new(w.len(), |i: int| spec_canonical::<S, W, Q>(w, i))
}

/// The centripetal spacing of segment `i`: the square root of the rotation
/// angle between its canonicalized end rotations.
pub open spec fn spec_rot_delta<S: Scalar, W: Vector<S>, Q: Quaternion<S, W>>(
    cqs: Seq<Q>,
    i: int,
) -> S {
    cqs[i].spec_rotation_to(cqs[i + 1]).spec_angle().spec_sqrt()
}

pub open spec fn spec_rot_grid_at<S: Scalar, W: Vector<S>, Q: Quaternion<S, W>>(
    cqs: Seq<Q>,
    k: int,
) -> S
    decreases k,
{
    if k <= 0 {
        S::spec_zero()
    } else {
        spec_rot_grid_at::<S, W, Q>(cqs, k - 1).spec_add(spec_rot_delta::<S, W, Q>(cqs, k - 1))
    }
}

pub open spec fn spec_rot_base_grid<S: Scalar, W: Vector<S>, Q: Quaternion<S, W>>(
    cqs: Seq<Q>,
) -> Seq<S> {
    Seq::new(cqs.len(), |i: int| spec_rot_grid_at::<S, W, Q>(cqs, i))
}

pub open spec fn spec_rot_no_repeat<S: Scalar, W: Vector<S>, Q: Quaternion<S, W>>(
    cqs: Seq<Q>,
) -> bool {
    forall|i: int|
        0 <= i < cqs.len() - 1 ==> !(#[trigger] spec_rot_delta::<S, W, Q>(cqs, i)).spec_eq(
            S::spec_zero(),
        )
}

/// One TCB value per joint of a closed curve, one per interior joint of an
/// open one (checked against the sequence before closing).
pub open spec fn spec_rot_lens_ok<S: Scalar, W: Vector<S>, Q: Quaternion<S, W>>(
    qs: Seq<Q>,
    tcb_len: int,
    closed: bool,
) -> bool {
    qs.len() >= 2 && tcb_len + (if closed {
        0int
    } else {
        2int
    }) == qs.len()
}

/// The quaternion sequence the control-quaternion loop works on: a closed
/// curve wraps one canonicalized rotation around each end.
pub open spec fn spec_rot_work_qs<S: Scalar, W: Vector<S>, Q: Quaternion<S, W>>(
    qs: Seq<Q>,
    closed: bool,
) -> Seq<Q> {
    let cqs = spec_rot_canon::<S, W, Q>(qs, closed);
    if closed {
        let n = cqs.len() as int;
        let pen = if cqs[n - 2].spec_dot(cqs[0]).spec_lt(S::spec_zero()) {
            cqs[n - 2].spec_neg()
        } else {
            cqs[n - 2]
        };
        let second = if cqs[n - 1].spec_dot(cqs[1]).spec_lt(S::spec_zero()) {
            cqs[1].spec_neg()
        } else {
            cqs[1]
        };
        seq![pen].add(cqs).push(second)
    } else {
        cqs
    }
}

/// The grid the control-quaternion loop works on: a closed curve wraps the
/// spacing of its outer segments around each end.
pub open spec fn spec_rot_work_grid<S: Scalar, W: Vector<S>, Q: Quaternion<S, W>>(
    qs: Seq<Q>,
    closed: bool,
) -> Seq<S> {
    let cqs = spec_rot_canon::<S, W, Q>(qs, closed);
    let g = spec_rot_base_grid::<S, W, Q>(cqs);
    if closed {
        let l = g.len() as int;
        seq![g[0].spec_sub(g[l - 1].spec_sub(g[l - 2]))].add(g).push(
            g[l - 1].spec_add(g[1].spec_sub(g[0])),
        )
    } else {
        g
    }
}

/// The TCB-weighted control quaternion pair at interior joint `i + 1` of
/// the working sequences: the blended angular velocity, stepped a third of
/// the way in and out.
pub open spec fn spec_rot_blend<S: Scalar, W: Vector<S>, Q: Quaternion<S, W>>(
    wq: Seq<Q>,
    wg: Seq<S>,
    weight_in: S,
    weight_out: S,
    i: int,
) -> W {
    let t_1 = wg[i];
    let t0 = wg[i + 1];
    let t1 = wg[i + 2];
    let q_in = wq[i].spec_rotation_to(wq[i + 1]);
    let q_out = wq[i + 1].spec_rotation_to(wq[i + 2]);
    let w_in = q_in.spec_scaled_axis().spec_vdiv(t0.spec_sub(t_1));
    let w_out = q_out.spec_scaled_axis().spec_vdiv(t1.spec_sub(t0));
    w_in.spec_vscale(weight_in.spec_mul(t1.spec_sub(t0))).spec_vadd(
        w_out.spec_vscale(weight_out.spec_mul(t0.spec_sub(t_1))),
    ).spec_vdiv(t1.spec_sub(t_1))
}

pub open spec fn spec_rot_incoming<S: Scalar, W: Vector<S>, Q: Quaternion<S, W>>(
    wq: Seq<Q>,
    wg: Seq<S>,
    tcb: Seq<[S; 3]>,
    i: int,
) -> Q {
    let trip = tcb[i % (tcb.len() as int)];
    let tt = trip[0];
    let cc = trip[1];
    let bb = trip[2];
    let c = S::spec_one().spec_sub(tt).spec_mul(S::spec_one().spec_sub(cc)).spec_mul(
        S::spec_one().spec_add(bb),
    );
    let d = S::spec_one().spec_sub(tt).spec_mul(S::spec_one().spec_add(cc)).spec_mul(
        S::spec_one().spec_sub(bb),
    );
    let w0 = spec_rot_blend(wq, wg, c, d, i);
    Q::spec_from_scaled_axis(
        w0.spec_vneg().spec_vscale(wg[i + 1].spec_sub(wg[i])).spec_vdiv(S::spec_three()),
    ).spec_compose(wq[i + 1])
}

pub open spec fn spec_rot_outgoing<S: Scalar, W: Vector<S>, Q: Quaternion<S, W>>(
    wq: Seq<Q>,
    wg: Seq<S>,
    tcb: Seq<[S; 3]>,
    i: int,
) -> Q {
    let trip = tcb[i % (tcb.len() as int)];
    let tt = trip[0];
    let cc = trip[1];
    let bb = trip[2];
    let a = S::spec_one().spec_sub(tt).spec_mul(S::spec_one().spec_add(cc)).spec_mul(
        S::spec_one().spec_add(bb),
    );
    let b = S::spec_one().spec_sub(tt).spec_mul(S::spec_one().spec_sub(cc)).spec_mul(
        S::spec_one().spec_sub(bb),
    );
    let w0 = spec_rot_blend(wq, wg, a, b, i);
    Q::spec_from_scaled_axis(
        w0.spec_vscale(wg[i + 2].spec_sub(wg[i + 1])).spec_vdiv(S::spec_three()),
    ).spec_compose(wq[i + 1])
}

/// The control quaternion that gives an open curve a natural end: half the
/// rotation towards the adjacent control quaternion.
pub open spec fn spec_rot_natural<S: Scalar, W: Vector<S>, Q: Quaternion<S, W>>(
    first: Q,
    third: Q,
) -> Q {
    first.spec_rotation_to(third).spec_power(
        S::spec_one().spec_div(S::spec_two()),
    ).spec_compose(first)
}

/// The full control polygon: for each segment its outgoing control, the
/// interior rotations with their incoming and outgoing controls, and the
/// end treatment of the curve kind.
pub open spec fn spec_rot_control_polygon<S: Scalar, W: Vector<S>, Q: Quaternion<S, W>>(
    qs: Seq<Q>,
    tcb: Seq<[S; 3]>,
    closed: bool,
) -> Seq<Q> {
    let cqs = spec_rot_canon::<S, W, Q>(qs, closed);
    let wq = spec_rot_work_qs::<S, W, Q>(qs, closed);
    let wg = spec_rot_work_grid::<S, W, Q>(qs, closed);
    let m = wq.len() - 2;
    let raw = Seq::new(
        (3 * m) as nat,
        |k: int|
            if k % 3 == 0 {
                spec_rot_incoming(wq, wg, tcb, k / 3)
            } else if k % 3 == 1 {
                wq[k / 3 + 1]
            } else {
                spec_rot_outgoing(wq, wg, tcb, k / 3)
            },
    );
    if closed {
        raw.drop_first().drop_last()
    } else if qs.len() == 2 {
        let offset = cqs[1].spec_compose(cqs[0].spec_inverse()).spec_power(
            S::spec_one().spec_div(S::spec_three()),
        );
        seq![
            cqs[0],
            offset.spec_compose(cqs[0]),
            offset.spec_inverse().spec_compose(cqs[1]),
            cqs[1],
        ]
    } else {
        let start = spec_rot_natural::<S, W, Q>(cqs[0], raw[0]);
        let finish = spec_rot_natural::<S, W, Q>(cqs[cqs.len() - 1], raw[raw.len() - 1]);
        seq![cqs[0], start].add(raw).push(finish).push(cqs[cqs.len() - 1])
    }
}

/// The grid of the finished curve: the centripetal grid of the
/// canonicalized sequence.
pub open spec fn spec_rot_final_grid<S: Scalar, W: Vector<S>, Q: Quaternion<S, W>>(
    qs: Seq<Q>,
    closed: bool,
) -> Seq<S> {
    spec_rot_base_grid::<S, W, Q>(spec_rot_canon::<S, W, Q>(qs, closed))
}

impl<S: Scalar, W: Vector<S>, Q: Quaternion<S, W>> CubicDeCasteljau<S, W, Q> {
    /// A centripetal Kochanek-Bartels rotation spline through
    /// `quaternions` with the given per-joint tension/continuity/bias
    /// triples.
    ///
    /// The precondition states the assumption the construction rests on:
    /// whenever no segment collapses (which is reported as
    /// `RepeatedQuaternion`), the centripetal grid is NaN-free and
    /// strictly ascending.
    #[verifier::rlimit(100)]
    pub fn new_centripetal_kochanek_bartels(
        quaternions: &Vec<Q>,
        tcb: &Vec<[S; 3]>,
        closed: bool,
    ) -> (r: Result<Self, Error>)
        requires
            (spec_rot_lens_ok::<S, W, Q>(quaternions@, tcb@.len() as int, closed)
                && spec_rot_no_repeat::<S, W, Q>(
                spec_rot_canon::<S, W, Q>(quaternions@, closed),
            )) ==> grid_no_nan(spec_rot_final_grid::<S, W, Q>(quaternions@, closed))
                && grid_adjacent_ascending(spec_rot_final_grid::<S, W, Q>(quaternions@, closed)),
        ensures
            match r {
                Ok(c) => spec_rot_lens_ok::<S, W, Q>(quaternions@, tcb@.len() as int, closed)
                    && spec_rot_no_repeat::<S, W, Q>(
                    spec_rot_canon::<S, W, Q>(quaternions@, closed),
                ) && c.wf() && c.spec_grid() == spec_rot_final_grid::<S, W, Q>(
                    quaternions@,
                    closed,
                ) && c.spec_control_polygon() == spec_rot_control_polygon::<S, W, Q>(
                    quaternions@,
                    tcb@,
                    closed,
                ),
                Err(Error::LessThanTwoQuaternions) => quaternions@.len() < 2,
                Err(Error::TcbVsQuaternions { tcb: tl, quaternions: ql, closed: cl }) =>
                    quaternions@.len() >= 2 && tl == tcb@.len() && ql == quaternions@.len() && cl
                    == closed && tcb@.len() + (if closed {
                    0int
                } else {
                    2int
                }) != quaternions@.len(),
                Err(Error::RepeatedQuaternion { index }) => spec_rot_lens_ok::<S, W, Q>(
                    quaternions@,
                    tcb@.len() as int,
                    closed,
                ) && 1 <= index < spec_rot_canon::<S, W, Q>(quaternions@, closed).len() && (
                #[trigger] spec_rot_delta::<S, W, Q>(
                    spec_rot_canon::<S, W, Q>(quaternions@, closed),
                    index - 1,
                )).spec_eq(S::spec_zero()) && (forall|j: int|
                    0 <= j < index - 1 ==> !(#[trigger] spec_rot_delta::<S, W, Q>(
                        spec_rot_canon::<S, W, Q>(quaternions@, closed),
                        j,
                    )).spec_eq(S::spec_zero())),
            },
    {
        if quaternions.len() < 2 {
            return Err(Error::LessThanTwoQuaternions);
        }
        let open_extra: usize = if closed {
            0
        } else {
            2
        };
        if quaternions.len() < open_extra || tcb.len() != quaternions.len() - open_extra {
            return Err(
                Error::TcbVsQuaternions {
                    tcb: tcb.len(),
                    quaternions: quaternions.len(),
                    closed,
                },
            );
        }
        let mut qs: Vec<Q> = copied_vec(quaternions);
        if closed {
            let q0: Q = qs[0];
            qs.push(q0);
        }
        proof {
            assert(qs@ =~= spec_rot_positions::<S, W, Q>(quaternions@, closed));
        }
        canonicalize(&mut qs);
        proof {
            assert(qs@ =~= spec_rot_canon::<S, W, Q>(quaternions@, closed));
        }
        let ghost cqs = spec_rot_canon::<S, W, Q>(quaternions@, closed);
        let canon_len: usize = qs.len();
        let mut grid: Vec<S> = Vec::new();
        grid.push(S::zero());
        let mut i: usize = 0;
        while i < canon_len - 1
            invariant
                quaternions@.len() >= 2,
                tcb@.len() + (if closed {
                    0int
                } else {
                    2int
                }) == quaternions@.len(),
                cqs == spec_rot_canon::<S, W, Q>(quaternions@, closed),
                qs@ == cqs,
                canon_len == cqs.len(),
                i <= canon_len - 1,
                grid@.len() == i + 1,
                forall|k: int|
                    0 <= k <= i ==> #[trigger] grid@[k] == spec_rot_grid_at::<S, W, Q>(cqs, k),
                forall|j: int|
                    0 <= j < i ==> !(#[trigger] spec_rot_delta::<S, W, Q>(cqs, j)).spec_eq(
                        S::spec_zero(),
                    ),
            decreases canon_len - 1 - i,
        {
            let q0: Q = qs[i];
            let q1: Q = qs[i + 1];
            let delta: S = q0.rotation_to(q1).angle().sqrt();
            if delta.is_eq(S::zero()) {
                return Err(Error::RepeatedQuaternion { index: i + 1 });
            }
            let last: S = grid[grid.len() - 1];
            grid.push(last.add(delta));
            i += 1;
        }
        proof {
            assert(spec_rot_no_repeat::<S, W, Q>(cqs));
            assert(grid@ =~= spec_rot_base_grid::<S, W, Q>(cqs));
        }
        let mut wq: Vec<Q> = qs;
        let mut wgrid: Vec<S> = grid;
        if closed {
            let first: Q = wq[0];
            let second0: Q = wq[1];
            let mut penultimate: Q = wq[wq.len() - 2];
            if penultimate.dot(first).lt(S::zero()) {
                penultimate = penultimate.neg();
            }
            let mut second: Q = second0;
            let last_q: Q = wq[wq.len() - 1];
            if last_q.dot(second0).lt(S::zero()) {
                second = second0.neg();
            }
            wq.insert(0, penultimate);
            wq.push(second);
            let g0: S = wgrid[0];
            let g1: S = wgrid[1];
            let gl: S = wgrid[wgrid.len() - 1];
            let gp: S = wgrid[wgrid.len() - 2];
            wgrid.insert(0, g0.sub(gl.sub(gp)));
            wgrid.push(gl.add(g1.sub(g0)));
            proof {
                assert(wq@ =~= spec_rot_work_qs::<S, W, Q>(quaternions@, closed));
                assert(wgrid@ =~= spec_rot_work_grid::<S, W, Q>(quaternions@, closed));
            }
        }
        proof {
            assert(wq@ == spec_rot_work_qs::<S, W, Q>(quaternions@, closed));
            assert(wgrid@ == spec_rot_work_grid::<S, W, Q>(quaternions@, closed));
        }
        let ghost swq = spec_rot_work_qs::<S, W, Q>(quaternions@, closed);
        let ghost swg = spec_rot_work_grid::<S, W, Q>(quaternions@, closed);
        let work_len: usize = wq.len();
        let mut control_polygon: Vec<Q> = Vec::new();
        let mut j: usize = 0;
        while j < work_len - 2
            invariant
                quaternions@.len() >= 2,
                tcb@.len() >= 1 || work_len <= 2,
                wq@ == swq,
                wgrid@ == swg,
                work_len == swq.len(),
                swg.len() == swq.len(),
                j <= work_len - 2,
                control_polygon@.len() == 3 * j,
                forall|k: int|
                    0 <= k < 3 * j ==> #[trigger] control_polygon@[k] == (if k % 3 == 0 {
                        spec_rot_incoming(swq, swg, tcb@, k / 3)
                    } else if k % 3 == 1 {
                        swq[k / 3 + 1]
                    } else {
                        spec_rot_outgoing(swq, swg, tcb@, k / 3)
                    }),
            decreases work_len - 2 - j,
        {
            let q_1: Q = wq[j];
            let q0: Q = wq[j + 1];
            let q1: Q = wq[j + 2];
            let t_1: S = wgrid[j];
            let t0: S = wgrid[j + 1];
            let t1: S = wgrid[j + 2];
            let trip: [S; 3] = tcb[j % tcb.len()];
            let tt: S = trip[0];
            let cc: S = trip[1];
            let bb: S = trip[2];
            let a: S = S::one().sub(tt).mul(S::one().add(cc)).mul(S::one().add(bb));
            let b: S = S::one().sub(tt).mul(S::one().sub(cc)).mul(S::one().sub(bb));
            let c: S = S::one().sub(tt).mul(S::one().sub(cc)).mul(S::one().add(bb));
            let d: S = S::one().sub(tt).mul(S::one().add(cc)).mul(S::one().sub(bb));
            let q_in: Q = q_1.rotation_to(q0);
            let q_out: Q = q0.rotation_to(q1);
            let w_in: W = q_in.scaled_axis().vdiv(t0.sub(t_1));
            let w_out: W = q_out.scaled_axis().vdiv(t1.sub(t0));
            let w0_in: W = w_in.vscale(c.mul(t1.sub(t0))).vadd(
                w_out.vscale(d.mul(t0.sub(t_1))),
            ).vdiv(t1.sub(t_1));
            let w0_out: W = w_in.vscale(a.mul(t1.sub(t0))).vadd(
                w_out.vscale(b.mul(t0.sub(t_1))),
            ).vdiv(t1.sub(t_1));
            let incoming: Q = Q::from_scaled_axis(
                w0_in.vneg().vscale(t0.sub(t_1)).vdiv(S::three()),
            ).compose(q0);
            let outgoing: Q = Q::from_scaled_axis(
                w0_out.vscale(t1.sub(t0)).vdiv(S::three()),
            ).compose(q0);
            control_polygon.push(incoming);
            control_polygon.push(q0);
            control_polygon.push(outgoing);
            j += 1;
        }
        let final_polygon: Vec<Q>;
        let final_grid: Vec<S>;
        if closed {
            let mut cp = control_polygon;
            cp.remove(0);
            cp.pop();
            let mut g = wgrid;
            g.remove(0);
            g.pop();
            proof {
                assert(cp@ =~= spec_rot_control_polygon::<S, W, Q>(quaternions@, tcb@, closed));
                assert(g@ =~= spec_rot_final_grid::<S, W, Q>(quaternions@, closed));
            }
            final_polygon = cp;
            final_grid = g;
        } else if quaternions.len() == 2 {
            let q0: Q = wq[0];
            let q1: Q = wq[1];
            let offset: Q = q1.compose(q0.inverse()).power(S::one().div(S::three()));
            let mut cp = control_polygon;
            cp.push(q0);
            cp.push(offset.compose(q0));
            cp.push(offset.inverse().compose(q1));
            cp.push(q1);
            proof {
                assert(cp@ =~= spec_rot_control_polygon::<S, W, Q>(quaternions@, tcb@, closed));
            }
            final_polygon = cp;
            final_grid = wgrid;
        } else {
            let mut cp = control_polygon;
            let first: Q = wq[0];
            let third_start: Q = cp[0];
            let start: Q = first.rotation_to(third_start).power(
                S::one().div(S::two()),
            ).compose(first);
            cp.insert(0, start);
            cp.insert(0, first);
            let last_q: Q = wq[wq.len() - 1];
            let third_end: Q = cp[cp.len() - 1];
            let finish: Q = last_q.rotation_to(third_end).power(
                S::one().div(S::two()),
            ).compose(last_q);
            cp.push(finish);
            cp.push(last_q);
            proof {
                assert(cp@ =~= spec_rot_control_polygon::<S, W, Q>(quaternions@, tcb@, closed));
            }
            final_polygon = cp;
            final_grid = wgrid;
        }
        match CubicDeCasteljau::new(final_polygon, final_grid) {
            Ok(c) => Ok(c),
            Err(DcError::GridTooShort) => unreached(),
            Err(DcError::GridVsControlPolygon { .. }) => unreached(),
            Err(DcError::GridNan { .. }) => unreached(),
            Err(DcError::GridNotAscending { .. }) => unreached(),
        }
    }
}

impl Error {
    /// A human-readable description of the error.
    pub fn message(&self) -> (r: String)
        ensures
            r@.len() > 0,
    {
        match self {
            Error::LessThanTwoQuaternions => {
                proof {
                    reveal_strlit("there must be at least two quaternions");
                }
                String::from_str("there must be at least two quaternions")
            },
            Error::TcbVsQuaternions { tcb, quaternions, closed } => {
                let mut m: String = indexed_message(
                    "number of quaternions (",
                    *quaternions,
                    if *closed {
                        ") must be the same as TCB values ("
                    } else {
                        ") must be two more than TCB values ("
                    },
                );
                m.append(usize_to_string(*tcb).as_str());
                m.append(")");
                m
            },
            Error::RepeatedQuaternion { index } => indexed_message(
                "repeated quaternion (at index ",
                *index,
                ") is not allowed",
            ),
        }
    }
}

} // verus!
