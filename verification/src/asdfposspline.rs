//! The top-level position spline: a centripetal Kochanek-Bartels path,
//! traversed at constant speed, retimed onto the user's (possibly partial)
//! time grid.

use vstd::prelude::*;

use vstd::string::StringExecFns;

use crate::utilities::{indexed_message, usize_to_string};

use vstd::pervasive::unreached;

use crate::adapters::{
    solve_new_grid_spec, spec_arc_grid, ConstantSpeedAdapter, NewGridAdapter, NewGridError,
    NewGridWithSpeedsError,
};
use crate::centripetalkochanekbartelsspline::{
    spec_kb_final_grid, spec_kb_final_positions, spec_kb_lens_ok, spec_kb_no_repeat,
    spec_kb_positions, spec_kb_tangents, Error as KbError,
};
use crate::cubichermitespline::hermite_segments;
use crate::piecewisecubiccurve::PiecewiseCubicCurve;
use crate::utilities::{grid_adjacent_ascending, grid_no_nan, grid_sorted, GridError};
use crate::{NormWrapper, Scalar, Vector};

verus! {

#[derive(Clone, Copy, Debug)]
pub enum Error<S> {
    LessThanTwoPositions,
    TimesVsPositions { times: usize, positions: usize, closed: bool },
    SpeedsVsPositions { speeds: usize, positions: usize },
    SpeedWithoutTime { index: usize },
    FirstTimeMissing,
    LastTimeMissing,
    DuplicatePositionWithoutTime { index: usize },
    TcbVsPositions { tcb: usize, positions: usize, closed: bool },
    RepeatedPosition { index: usize },
    TimeNan { index: usize },
    TimesNotAscending { index: usize },
    TooFast { index: usize, speed: S, maximum: S },
    NegativeSpeed { index: usize, speed: S },
}

pub type AsdfPosSpline<S, V, N> = NewGridAdapter<S, V, N>;

/// The curve the facade builds before retiming: the Kochanek-Bartels path
/// and its arc-length grid.
pub open spec fn spec_pos_arc_grid<S: Scalar, V: Vector<S>, N: NormWrapper<S, V>>(
    positions: Seq<V>,
    tcb: Seq<[S; 3]>,
    closed: bool,
    norm: N,
) -> Seq<S> {
    spec_arc_grid(
        spec_kb_final_grid(norm, positions, closed),
        hermite_segments(
            spec_kb_final_positions(positions, closed),
            spec_kb_tangents(norm, positions, tcb, closed),
            spec_kb_final_grid(norm, positions, closed),
        ),
        norm,
    )
}

impl<S: Scalar, V: Vector<S>, N: NormWrapper<S, V>> AsdfPosSpline<S, V, N> {
    /// Builds the whole pipeline from keyframes: positions with optional
    /// per-keyframe times and speeds, TCB triples per joint, and a closed
    /// flag.
    ///
    /// The preconditions state the numeric assumptions the construction
    /// rests on whenever the keyframes pass their checks: the centripetal
    /// grid the norm induces and the arc-length grid built on top of it
    /// are NaN-free and strictly ascending.
    pub fn new(
        positions: &Vec<V>,
        times: &Vec<Option<S>>,
        speeds: &Vec<Option<S>>,
        tcb: &Vec<[S; 3]>,
        closed: bool,
        norm: N,
    ) -> (r: Result<Self, Error<S>>)
        requires
            (spec_kb_lens_ok::<S, V>(positions@, tcb@.len() as int, closed) && spec_kb_no_repeat(
                norm,
                spec_kb_positions(positions@, closed),
            )) ==> ({
                let kbg = spec_kb_final_grid(norm, positions@, closed);
                let arc = spec_pos_arc_grid(positions@, tcb@, closed, norm);
                grid_no_nan(kbg) && grid_adjacent_ascending(kbg) && grid_no_nan(arc)
                    && grid_sorted(arc)
            }),
        ensures
            match r {
                Ok(a) => positions@.len() + (if closed {
                    1int
                } else {
                    0int
                }) == times@.len() && speeds@.len() == positions@.len() && spec_kb_lens_ok::<
                    S,
                    V,
                >(positions@, tcb@.len() as int, closed) && spec_kb_no_repeat(
                    norm,
                    spec_kb_positions(positions@, closed),
                ) && a.wf() && a.spec_inner().spec_inner().spec_grid() == spec_kb_final_grid(
                    norm,
                    positions@,
                    closed,
                ) && a.spec_inner().spec_inner().spec_segments() == hermite_segments(
                    spec_kb_final_positions(positions@, closed),
                    spec_kb_tangents(norm, positions@, tcb@, closed),
                    spec_kb_final_grid(norm, positions@, closed),
                ) && a.spec_inner().spec_norm_strategy() == norm && a.spec_inner().spec_grid()
                    == spec_pos_arc_grid(positions@, tcb@, closed, norm) && solve_new_grid_spec(
                    spec_pos_arc_grid(positions@, tcb@, closed, norm),
                    times@,
                    speeds@,
                    closed,
                    Ok((a.spec_grid(), a.spec_t2u())),
                ),
                Err(Error::TimesVsPositions { times: tl, positions: pl, closed: cl }) => tl
                    == times@.len() && pl == positions@.len() && cl == closed && times@.len()
                    != positions@.len() + (if closed {
                    1int
                } else {
                    0int
                }),
                Err(Error::SpeedsVsPositions { speeds: sl, positions: pl }) => times@.len()
                    == positions@.len() + (if closed {
                    1int
                } else {
                    0int
                }) && sl == speeds@.len() && pl == positions@.len() && speeds@.len()
                    != positions@.len(),
                Err(Error::LessThanTwoPositions) => positions@.len() < 2,
                Err(Error::TcbVsPositions { tcb: tl, positions: pl, closed: cl }) =>
                    positions@.len() >= 2 && tl == tcb@.len() && pl == positions@.len() && cl
                    == closed && tcb@.len() + 2 != spec_kb_positions::<S, V>(
                    positions@,
                    closed,
                ).len(),
                Err(Error::RepeatedPosition { index }) => spec_kb_lens_ok::<S, V>(
                    positions@,
                    tcb@.len() as int,
                    closed,
                ) && 1 <= index < spec_kb_positions::<S, V>(positions@, closed).len()
                    && !spec_kb_no_repeat(norm, spec_kb_positions(positions@, closed)),
                Err(Error::FirstTimeMissing) => solve_new_grid_spec(
                    spec_pos_arc_grid(positions@, tcb@, closed, norm),
                    times@,
                    speeds@,
                    closed,
                    Err(NewGridWithSpeedsError::FromNewGridError(NewGridError::FirstGridMissing)),
                ),
                Err(Error::LastTimeMissing) => solve_new_grid_spec(
                    spec_pos_arc_grid(positions@, tcb@, closed, norm),
                    times@,
                    speeds@,
                    closed,
                    Err(NewGridWithSpeedsError::FromNewGridError(NewGridError::LastGridMissing)),
                ),
                Err(Error::DuplicatePositionWithoutTime { index }) => solve_new_grid_spec(
                    spec_pos_arc_grid(positions@, tcb@, closed, norm),
                    times@,
                    speeds@,
                    closed,
                    Err(
                        NewGridWithSpeedsError::FromNewGridError(
                            NewGridError::DuplicateValueWithoutGrid { index },
                        ),
                    ),
                ),
                Err(Error::TimeNan { index }) => solve_new_grid_spec(
                    spec_pos_arc_grid(positions@, tcb@, closed, norm),
                    times@,
                    speeds@,
                    closed,
                    Err(
                        NewGridWithSpeedsError::FromNewGridError(
                            NewGridError::FromGridError(GridError::GridNan { index }),
                        ),
                    ),
                ),
                Err(Error::TimesNotAscending { index }) => solve_new_grid_spec(
                    spec_pos_arc_grid(positions@, tcb@, closed, norm),
                    times@,
                    speeds@,
                    closed,
                    Err(
                        NewGridWithSpeedsError::FromNewGridError(
                            NewGridError::FromGridError(GridError::GridNotAscending { index }),
                        ),
                    ),
                ),
                Err(Error::SpeedWithoutTime { index }) => solve_new_grid_spec(
                    spec_pos_arc_grid(positions@, tcb@, closed, norm),
                    times@,
                    speeds@,
                    closed,
                    Err(NewGridWithSpeedsError::SpeedWithoutGrid { index }),
                ),
                Err(Error::TooFast { index, speed, maximum }) => solve_new_grid_spec(
                    spec_pos_arc_grid(positions@, tcb@, closed, norm),
                    times@,
                    speeds@,
                    closed,
                    Err(NewGridWithSpeedsError::TooFast { index, speed, maximum }),
                ),
                Err(Error::NegativeSpeed { index, speed }) => solve_new_grid_spec(
                    spec_pos_arc_grid(positions@, tcb@, closed, norm),
                    times@,
                    speeds@,
                    closed,
                    Err(NewGridWithSpeedsError::NegativeSpeed { index, speed }),
                ),
            },
    {
        let extra: usize = if closed {
            1
        } else {
            0
        };
        if times.len() < extra || positions.len() != times.len() - extra {
            return Err(
                Error::TimesVsPositions {
                    times: times.len(),
                    positions: positions.len(),
                    closed,
                },
            );
        }
        if speeds.len() != positions.len() {
            return Err(
                Error::SpeedsVsPositions { speeds: speeds.len(), positions: positions.len() },
            );
        }
        let path: PiecewiseCubicCurve<S, V> = match PiecewiseCubicCurve::<
            S,
            V,
        >::new_centripetal_kochanek_bartels(positions, tcb, closed, &norm) {
            Ok(c) => c,
            Err(KbError::LessThanTwoPositions) => {
                return Err(Error::LessThanTwoPositions);
            },
            Err(KbError::TcbVsPositions { tcb: tl, positions: pl, closed: cl }) => {
                return Err(Error::TcbVsPositions { tcb: tl, positions: pl, closed: cl });
            },
            Err(KbError::RepeatedPosition { index }) => {
                return Err(Error::RepeatedPosition { index });
            },
        };
        let constant_speed: ConstantSpeedAdapter<S, V, N> = ConstantSpeedAdapter::adapt(
            path,
            norm,
        );
        match NewGridAdapter::adapt_with_speeds(constant_speed, times, speeds, closed) {
            Ok(a) => Ok(a),
            Err(NewGridWithSpeedsError::FromNewGridError(NewGridError::FirstGridMissing)) => Err(
                Error::FirstTimeMissing,
            ),
            Err(NewGridWithSpeedsError::FromNewGridError(NewGridError::LastGridMissing)) => Err(
                Error::LastTimeMissing,
            ),
            Err(
                NewGridWithSpeedsError::FromNewGridError(
                    NewGridError::DuplicateValueWithoutGrid { index },
                ),
            ) => Err(Error::DuplicatePositionWithoutTime { index }),
            Err(
                NewGridWithSpeedsError::FromNewGridError(NewGridError::NewGridVsOldGrid { .. }),
            ) => unreached(),
            Err(
                NewGridWithSpeedsError::FromNewGridError(
                    NewGridError::FromGridError(GridError::GridNan { index }),
                ),
            ) => Err(Error::TimeNan { index }),
            Err(
                NewGridWithSpeedsError::FromNewGridError(
                    NewGridError::FromGridError(GridError::GridNotAscending { index }),
                ),
            ) => Err(Error::TimesNotAscending { index }),
            Err(NewGridWithSpeedsError::SpeedWithoutGrid { index }) => Err(
                Error::SpeedWithoutTime { index },
            ),
            Err(NewGridWithSpeedsError::TooFast { index, speed, maximum }) => Err(
                Error::TooFast { index, speed, maximum },
            ),
            Err(NewGridWithSpeedsError::NegativeSpeed { index, speed }) => Err(
                Error::NegativeSpeed { index, speed },
            ),
            Err(NewGridWithSpeedsError::GridVsSpeeds { .. }) => unreached(),
        }
    }
}

impl<S> Error<S> {
    /// A human-readable description of the error.
    pub fn message(&self) -> (r: String)
        ensures
            r@.len() > 0,
    {
        match self {
            Error::LessThanTwoPositions => {
                proof {
                    reveal_strlit("there must be at least two positions");
                }
                String::from_str("there must be at least two positions")
            },
            Error::TimesVsPositions { times, positions, closed } => {
                let mut m: String = indexed_message(
                    "number of times (",
                    *times,
                    if *closed {
                        ") must be one more than number of positions ("
                    } else {
                        ") must be the same as number of positions ("
                    },
                );
                m.append(usize_to_string(*positions).as_str());
                m.append(")");
                m
            },
            Error::SpeedsVsPositions { speeds, positions } => {
                let mut m: String = indexed_message("number of speeds (", *speeds, ") and positions (");
                m.append(usize_to_string(*positions).as_str());
                m.append(")");
                m
            },
            Error::SpeedWithoutTime { index } => indexed_message(
                "index ",
                *index,
                ": speed is only allowed if time is given",
            ),
            Error::FirstTimeMissing => {
                proof {
                    reveal_strlit("first time value must be specified");
                }
                String::from_str("first time value must be specified")
            },
            Error::LastTimeMissing => {
                proof {
                    reveal_strlit("last time value must be specified");
                }
                String::from_str("last time value must be specified")
            },
            Error::DuplicatePositionWithoutTime { index } => indexed_message(
                "index ",
                *index,
                ": duplicate position without time",
            ),
            Error::TcbVsPositions { tcb, positions, closed } => {
                let mut m: String = indexed_message(
                    "number of positions (",
                    *positions,
                    if *closed {
                        ") must be the same as TCB values ("
                    } else {
                        ") must be two more than TCB values ("
                    },
                );
                m.append(usize_to_string(*tcb).as_str());
                m.append(")");
                m
            },
            Error::RepeatedPosition { index } => indexed_message(
                "repeated position (at index ",
                *index,
                ") is not allowed",
            ),
            Error::TimeNan { index } => indexed_message(
                "index ",
                *index,
                ": time values are not allowed to be NaN",
            ),
            Error::TimesNotAscending { index } => indexed_message(
                "index ",
                *index,
                ": time values must be strictly ascending",
            ),
            Error::TooFast { index, speed: _, maximum: _ } => indexed_message(
                "speed at index ",
                *index,
                " too fast",
            ),
            Error::NegativeSpeed { index, speed: _ } => indexed_message(
                "negative speed at index ",
                *index,
                "",
            ),
        }
    }
}

} // verus!
