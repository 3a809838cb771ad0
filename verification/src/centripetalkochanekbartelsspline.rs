//! The centripetal Kochanek-Bartels constructor over vector positions:
//! builds a centripetal parameter grid from square roots of segment norms
//! and TCB-weighted tangents, then hands everything to the Hermite
//! constructor.

use vstd::prelude::*;

use vstd::string::StringExecFns;

use crate::utilities::{indexed_message, usize_to_string};

use vstd::pervasive::unreached;

use crate::cubichermitespline::{hermite_segments, Error as HermiteError};
use crate::piecewisecubiccurve::PiecewiseCubicCurve;
use crate::utilities::{copied_vec, grid_adjacent_ascending, grid_no_nan};
use crate::{NormWrapper, Scalar, Vector};

verus! {

#[derive(Clone, Copy, Debug, PartialEq, Eq, Structural)]
pub enum Error {
    LessThanTwoPositions,
    TcbVsPositions { tcb: usize, positions: usize, closed: bool },
    RepeatedPosition { index: usize },
}

/// The position sequence the construction works on: a closed curve is
/// closed with its first position and one more temporary position.
pub open spec fn spec_kb_positions<S: Scalar, V: Vector<S>>(
    positions: Seq<V>,
    closed: bool,
) -> Seq<V> {
    if closed {
        positions.push(positions[0]).push(positions[1])
    } else {
        positions
    }
}

/// The centripetal spacing of segment `i`: the square root of the norm of
/// its difference vector.
pub open spec fn spec_kb_delta<S: Scalar, V: Vector<S>, N: NormWrapper<S, V>>(
    norm: N,
    wpos: Seq<V>,
    i: int,
) -> S {
    norm.spec_norm(wpos[i + 1].spec_vsub(wpos[i])).spec_sqrt()
}

/// The centripetal grid entry at index `k`: the running sum of spacings.
pub open spec fn spec_kb_grid_at<S: Scalar, V: Vector<S>, N: NormWrapper<S, V>>(
    norm: N,
    wpos: Seq<V>,
    k: int,
) -> S
    decreases k,
{
    if k <= 0 {
        S::spec_zero()
    } else {
        spec_kb_grid_at(norm, wpos, k - 1).spec_add(spec_kb_delta(norm, wpos, k - 1))
    }
}

pub open spec fn spec_kb_grid<S: Scalar, V: Vector<S>, N: NormWrapper<S, V>>(
    norm: N,
    wpos: Seq<V>,
) -> Seq<S> {
    Seq::new(wpos.len(), |i: int| spec_kb_grid_at(norm, wpos, i))
}

/// No segment of the working sequence has centripetal spacing equal to
/// zero.
pub open spec fn spec_kb_no_repeat<S: Scalar, V: Vector<S>, N: NormWrapper<S, V>>(
    norm: N,
    wpos: Seq<V>,
) -> bool {
    forall|i: int|
        0 <= i < wpos.len() - 1 ==> !(#[trigger] spec_kb_delta(norm, wpos, i)).spec_eq(
            S::spec_zero(),
        )
}

/// The grid handed to the Hermite constructor (a closed curve drops its
/// temporary entry again).
pub open spec fn spec_kb_final_grid<S: Scalar, V: Vector<S>, N: NormWrapper<S, V>>(
    norm: N,
    positions: Seq<V>,
    closed: bool,
) -> Seq<S> {
    let wg = spec_kb_grid(norm, spec_kb_positions(positions, closed));
    if closed {
        wg.drop_last()
    } else {
        wg
    }
}

/// The positions handed to the Hermite constructor.
pub open spec fn spec_kb_final_positions<S: Scalar, V: Vector<S>>(
    positions: Seq<V>,
    closed: bool,
) -> Seq<V> {
    if closed {
        positions.push(positions[0])
    } else {
        positions
    }
}

/// One TCB value per interior joint of an open curve, one per joint of a
/// closed one.
pub open spec fn spec_kb_lens_ok<S: Scalar, V: Vector<S>>(
    positions: Seq<V>,
    tcb_len: int,
    closed: bool,
) -> bool {
    positions.len() >= 2 && tcb_len + 2 == spec_kb_positions::<S, V>(positions, closed).len()
}

/// The TCB-weighted incoming tangent at interior joint `i + 1` of the
/// working sequence.
pub open spec fn spec_kb_incoming<S: Scalar, V: Vector<S>, N: NormWrapper<S, V>>(
    norm: N,
    wpos: Seq<V>,
    tcb: Seq<[S; 3]>,
    closed: bool,
    i: int,
) -> V {
    let x_1 = wpos[i];
    let x0 = wpos[i + 1];
    let x1 = wpos[i + 2];
    let t_1 = spec_kb_grid_at(norm, wpos, i);
    let t0 = spec_kb_grid_at(norm, wpos, i + 1);
    let t1 = spec_kb_grid_at(norm, wpos, i + 2);
    let trip = tcb[(i + if closed {
        1int
    } else {
        0int
    }) % (tcb.len() as int)];
    let tt = trip[0];
    let cc = trip[1];
    let bb = trip[2];
    let c = S::spec_one().spec_sub(tt).spec_mul(S::spec_one().spec_sub(cc)).spec_mul(
        S::spec_one().spec_add(bb),
    );
    let d = S::spec_one().spec_sub(tt).spec_mul(S::spec_one().spec_add(cc)).spec_mul(
        S::spec_one().spec_sub(bb),
    );
    let u10 = t1.spec_sub(t0);
    let u01 = t0.spec_sub(t_1);
    let den = u10.spec_mul(u01).spec_mul(t1.spec_sub(t_1));
    x0.spec_vsub(x_1).spec_vscale(c).spec_vscale(u10.spec_mul(u10)).spec_vadd(
        x1.spec_vsub(x0).spec_vscale(d).spec_vscale(u01.spec_mul(u01)),
    ).spec_vdiv(den)
}

/// The TCB-weighted outgoing tangent at interior joint `i + 1` of the
/// working sequence.
pub open spec fn spec_kb_outgoing<S: Scalar, V: Vector<S>, N: NormWrapper<S, V>>(
    norm: N,
    wpos: Seq<V>,
    tcb: Seq<[S; 3]>,
    closed: bool,
    i: int,
) -> V {
    let x_1 = wpos[i];
    let x0 = wpos[i + 1];
    let x1 = wpos[i + 2];
    let t_1 = spec_kb_grid_at(norm, wpos, i);
    let t0 = spec_kb_grid_at(norm, wpos, i + 1);
    let t1 = spec_kb_grid_at(norm, wpos, i + 2);
    let trip = tcb[(i + if closed {
        1int
    } else {
        0int
    }) % (tcb.len() as int)];
    let tt = trip[0];
    let cc = trip[1];
    let bb = trip[2];
    let a = S::spec_one().spec_sub(tt).spec_mul(S::spec_one().spec_add(cc)).spec_mul(
        S::spec_one().spec_add(bb),
    );
    let b = S::spec_one().spec_sub(tt).spec_mul(S::spec_one().spec_sub(cc)).spec_mul(
        S::spec_one().spec_sub(bb),
    );
    let u10 = t1.spec_sub(t0);
    let u01 = t0.spec_sub(t_1);
    let den = u10.spec_mul(u01).spec_mul(t1.spec_sub(t_1));
    x0.spec_vsub(x_1).spec_vscale(a).spec_vscale(u10.spec_mul(u10)).spec_vadd(
        x1.spec_vsub(x0).spec_vscale(b).spec_vscale(u01.spec_mul(u01)),
    ).spec_vdiv(den)
}

/// The natural end tangent of an open curve: derived from the boundary
/// chord and the adjacent interior tangent.
pub open spec fn spec_kb_natural<S: Scalar, V: Vector<S>>(x0: V, x1: V, t0: S, t1: S, inner: V) -> V {
    let delta = t1.spec_sub(t0);
    x1.spec_vscale(S::spec_three()).spec_vsub(x0.spec_vscale(S::spec_three())).spec_vsub(
        inner.spec_vscale(delta),
    ).spec_vdiv(S::spec_two().spec_mul(delta))
}

/// The full tangent sequence: two tangents per segment.
pub open spec fn spec_kb_tangents<S: Scalar, V: Vector<S>, N: NormWrapper<S, V>>(
    norm: N,
    positions: Seq<V>,
    tcb: Seq<[S; 3]>,
    closed: bool,
) -> Seq<V> {
    let wpos = spec_kb_positions(positions, closed);
    let m = wpos.len() - 2;
    if closed {
        Seq::new(
            (2 * m) as nat,
            |k: int|
                if k == 0 {
                    spec_kb_outgoing(norm, wpos, tcb, closed, m - 1)
                } else if (k - 1) % 2 == 0 {
                    spec_kb_incoming(norm, wpos, tcb, closed, (k - 1) / 2)
                } else {
                    spec_kb_outgoing(norm, wpos, tcb, closed, (k - 1) / 2)
                },
        )
    } else if positions.len() == 2 {
        let tangent = positions[1].spec_vsub(positions[0]).spec_vdiv(
            spec_kb_grid_at(norm, wpos, 1).spec_sub(spec_kb_grid_at(norm, wpos, 0)),
        );
        seq![tangent, tangent]
    } else {
        let n = positions.len() as int;
        Seq::new(
            (2 * (n - 1)) as nat,
            |k: int|
                if k == 0 {
                    spec_kb_natural(
                        positions[0],
                        positions[1],
                        spec_kb_grid_at(norm, wpos, 0),
                        spec_kb_grid_at(norm, wpos, 1),
                        spec_kb_incoming(norm, wpos, tcb, closed, 0),
                    )
                } else if k == 2 * (n - 1) - 1 {
                    spec_kb_natural(
                        positions[n - 2],
                        positions[n - 1],
                        spec_kb_grid_at(norm, wpos, n - 2),
                        spec_kb_grid_at(norm, wpos, n - 1),
                        spec_kb_outgoing(norm, wpos, tcb, closed, m - 1),
                    )
                } else if (k - 1) % 2 == 0 {
                    spec_kb_incoming(norm, wpos, tcb, closed, (k - 1) / 2)
                } else {
                    spec_kb_outgoing(norm, wpos, tcb, closed, (k - 1) / 2)
                },
        )
    }
}

impl<S: Scalar, V: Vector<S>> PiecewiseCubicCurve<S, V> {
    /// A centripetal Kochanek-Bartels spline through `positions` with the
    /// given per-joint tension/continuity/bias triples.
    ///
    /// The precondition states the assumption the construction rests on:
    /// whenever no segment collapses (which is reported as
    /// `RepeatedPosition`), the centripetal grid the given norm induces is
    /// NaN-free and strictly ascending.
    #[verifier::rlimit(100)]
    pub fn new_centripetal_kochanek_bartels<N: NormWrapper<S, V>>(
        positions: &Vec<V>,
        tcb: &Vec<[S; 3]>,
        closed: bool,
        norm: &N,
    ) -> (r: Result<Self, Error>)
        requires
            (spec_kb_lens_ok::<S, V>(positions@, tcb@.len() as int, closed) && spec_kb_no_repeat(
                *norm,
                spec_kb_positions(positions@, closed),
            )) ==> grid_no_nan(spec_kb_final_grid(*norm, positions@, closed))
                && grid_adjacent_ascending(spec_kb_final_grid(*norm, positions@, closed)),
        ensures
            match r {
                Ok(c) => spec_kb_lens_ok::<S, V>(positions@, tcb@.len() as int, closed)
                    && spec_kb_no_repeat(*norm, spec_kb_positions(positions@, closed)) && c.wf()
                    && c.spec_grid() == spec_kb_final_grid(*norm, positions@, closed)
                    && c.spec_segments() == hermite_segments(
                    spec_kb_final_positions(positions@, closed),
                    spec_kb_tangents(*norm, positions@, tcb@, closed),
                    spec_kb_final_grid(*norm, positions@, closed),
                ),
                Err(Error::LessThanTwoPositions) => positions@.len() < 2,
                Err(Error::TcbVsPositions { tcb: tl, positions: pl, closed: cl }) =>
                    positions@.len() >= 2 && tl == tcb@.len() && pl == positions@.len() && cl
                    == closed && tcb@.len() + 2 != spec_kb_positions::<S, V>(
                    positions@,
                    closed,
                ).len(),
                Err(Error::RepeatedPosition { index }) => spec_kb_lens_ok::<S, V>(
                    positions@,
                    tcb@.len() as int,
                    closed,
                ) && 1 <= index < spec_kb_positions::<S, V>(positions@, closed).len() && (
                #[trigger] spec_kb_delta(
                    *norm,
                    spec_kb_positions(positions@, closed),
                    index - 1,
                )).spec_eq(S::spec_zero()) && (forall|j: int|
                    0 <= j < index - 1 ==> !(#[trigger] spec_kb_delta(
                        *norm,
                        spec_kb_positions(positions@, closed),
                        j,
                    )).spec_eq(S::spec_zero())),
            },
    {
        if positions.len() < 2 {
            return Err(Error::LessThanTwoPositions);
        }
        let mut wpos: Vec<V> = copied_vec(positions);
        if closed {
            let p0: V = wpos[0];
            let p1: V = wpos[1];
            wpos.push(p0);
            wpos.push(p1);
        }
        proof {
            assert(wpos@ =~= spec_kb_positions(positions@, closed));
        }
        if tcb.len() != wpos.len() - 2 {
            return Err(
                Error::TcbVsPositions { tcb: tcb.len(), positions: positions.len(), closed },
            );
        }
        let work_len: usize = wpos.len();
        let mut grid: Vec<S> = Vec::new();
        grid.push(S::zero());
        let mut i: usize = 0;
        while i < work_len - 1
            invariant
                positions@.len() >= 2,
                wpos@ == spec_kb_positions(positions@, closed),
                work_len == wpos@.len(),
                tcb@.len() + 2 == work_len,
                i <= work_len - 1,
                grid@.len() == i + 1,
                forall|k: int|
                    0 <= k <= i ==> #[trigger] grid@[k] == spec_kb_grid_at(*norm, wpos@, k),
                forall|j: int|
                    0 <= j < i ==> !(#[trigger] spec_kb_delta(*norm, wpos@, j)).spec_eq(
                        S::spec_zero(),
                    ),
            decreases work_len - 1 - i,
        {
            let x0: V = wpos[i];
            let x1: V = wpos[i + 1];
            let delta: S = norm.norm(&x1.vsub(x0)).sqrt();
            if delta.is_eq(S::zero()) {
                return Err(Error::RepeatedPosition { index: i + 1 });
            }
            let last: S = grid[grid.len() - 1];
            grid.push(last.add(delta));
            i += 1;
        }
        proof {
            assert(spec_kb_no_repeat(*norm, spec_kb_positions(positions@, closed)));
        }
        let mut tangents: Vec<V> = Vec::new();
        let mut j: usize = 0;
        while j < work_len - 2
            invariant
                positions@.len() >= 2,
                wpos@ == spec_kb_positions(positions@, closed),
                work_len == wpos@.len(),
                tcb@.len() + 2 == work_len,
                grid@.len() == work_len,
                forall|k: int|
                    0 <= k < grid@.len() ==> #[trigger] grid@[k] == spec_kb_grid_at(
                        *norm,
                        wpos@,
                        k,
                    ),
                j <= work_len - 2,
                tangents@.len() == 2 * j,
                forall|k: int|
                    0 <= k < 2 * j ==> #[trigger] tangents@[k] == (if k % 2 == 0 {
                        spec_kb_incoming(*norm, wpos@, tcb@, closed, k / 2)
                    } else {
                        spec_kb_outgoing(*norm, wpos@, tcb@, closed, k / 2)
                    }),
            decreases work_len - 2 - j,
        {
            let x_1: V = wpos[j];
            let x0: V = wpos[j + 1];
            let x1: V = wpos[j + 2];
            let t_1: S = grid[j];
            let t0: S = grid[j + 1];
            let t1: S = grid[j + 2];
            let closed_extra: usize = if closed {
                1
            } else {
                0
            };
            let trip: [S; 3] = tcb[(j + closed_extra) % tcb.len()];
            let tt: S = trip[0];
            let cc: S = trip[1];
            let bb: S = trip[2];
            let a: S = S::one().sub(tt).mul(S::one().add(cc)).mul(S::one().add(bb));
            let b: S = S::one().sub(tt).mul(S::one().sub(cc)).mul(S::one().sub(bb));
            let c: S = S::one().sub(tt).mul(S::one().sub(cc)).mul(S::one().add(bb));
            let d: S = S::one().sub(tt).mul(S::one().add(cc)).mul(S::one().sub(bb));
            let u10: S = t1.sub(t0);
            let u01: S = t0.sub(t_1);
            let den: S = u10.mul(u01).mul(t1.sub(t_1));
            let incoming: V = x0.vsub(x_1).vscale(c).vscale(u10.mul(u10)).vadd(
                x1.vsub(x0).vscale(d).vscale(u01.mul(u01)),
            ).vdiv(den);
            let outgoing: V = x0.vsub(x_1).vscale(a).vscale(u10.mul(u10)).vadd(
                x1.vsub(x0).vscale(b).vscale(u01.mul(u01)),
            ).vdiv(den);
            tangents.push(incoming);
            tangents.push(outgoing);
            j += 1;
        }
        if closed {
            let last: V = tangents[tangents.len() - 1];
            tangents.pop();
            tangents.insert(0, last);
            wpos.pop();
            grid.pop();
            proof {
                assert(wpos@ =~= spec_kb_final_positions(positions@, closed));
                assert(grid@ =~= spec_kb_final_grid(*norm, positions@, closed));
                assert(tangents@ =~= spec_kb_tangents(*norm, positions@, tcb@, closed));
            }
        } else if positions.len() == 2 {
            let tangent: V = wpos[1].vsub(wpos[0]).vdiv(grid[1].sub(grid[0]));
            tangents.push(tangent);
            tangents.push(tangent);
            proof {
                assert(grid@ =~= spec_kb_final_grid(*norm, positions@, closed));
                assert(tangents@ =~= spec_kb_tangents(*norm, positions@, tcb@, closed));
            }
        } else {
            let first_inner: V = tangents[0];
            let nat0: V = wpos[1].vscale(S::three()).vsub(wpos[0].vscale(S::three())).vsub(
                first_inner.vscale(grid[1].sub(grid[0])),
            ).vdiv(S::two().mul(grid[1].sub(grid[0])));
            tangents.insert(0, nat0);
            let nw: usize = wpos.len();
            let last_inner: V = tangents[tangents.len() - 1];
            let nat1: V = wpos[nw - 1].vscale(S::three()).vsub(
                wpos[nw - 2].vscale(S::three()),
            ).vsub(last_inner.vscale(grid[nw - 1].sub(grid[nw - 2]))).vdiv(
                S::two().mul(grid[nw - 1].sub(grid[nw - 2])),
            );
            tangents.push(nat1);
            proof {
                assert(grid@ =~= spec_kb_final_grid(*norm, positions@, closed));
                assert(tangents@ =~= spec_kb_tangents(*norm, positions@, tcb@, closed));
            }
        }
        match PiecewiseCubicCurve::new_hermite(&wpos, &tangents, &grid) {
            Ok(c) => Ok(c),
            Err(HermiteError::LessThanTwoPositions) => unreached(),
            Err(HermiteError::TangentsVsSegments { .. }) => unreached(),
            Err(HermiteError::GridVsPositions { .. }) => unreached(),
            Err(HermiteError::FromGridError(..)) => unreached(),
        }
    }
}

impl Error {
    /// A human-readable description of the error.
    pub fn message(&self) -> (r: String)
        ensures
            r@.len() > 0,
    {
        match self {
            Error::LessThanTwoPositions => {
                proof {
                    reveal_strlit("there must be at least two positions");
                }
                String::from_str("there must be at least two positions")
            },
            Error::TcbVsPositions { tcb, positions, closed } => {
                let mut m: String = indexed_message(
                    "number of positions (",
                    *positions,
                    if *closed {
                        ") must be the same as TCB values ("
                    } else {
                        ") must be two more than TCB values ("
                    },
                );
                m.append(usize_to_string(*tcb).as_str());
                m.append(")");
                m
            },
            Error::RepeatedPosition { index } => indexed_message(
                "repeated position (at index ",
                *index,
                ") is not allowed",
            ),
        }
    }
}

} // verus!
