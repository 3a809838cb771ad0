//! The shape-preserving constructor variant whose default slope is the
//! plain average of the two adjacent chords, with a flattened error type.

use vstd::prelude::*;

use vstd::string::StringExecFns;

use crate::utilities::{indexed_message, usize_to_string};

use crate::piecewisecubiccurve::PiecewiseCubicCurve;
use crate::piecewisemonotonecubicspline::{
    monotone_core, monotone_core_spec, spec_monotone_slope_error, spec_none_slopes,
    PiecewiseMonotoneError, PiecewiseMonotoneWithSlopesError,
};
use crate::utilities::{grid_error_spec, GridError};
use crate::Scalar;

verus! {

#[derive(Clone, Copy, Debug)]
pub enum Error<S> {
    LessThanTwoValues,
    GridVsValues { grid: usize, values: usize, closed: bool },
    GridNan { index: usize },
    GridNotAscending { index: usize },
    SlopesVsValues { slopes: usize, values: usize },
    SlopeTooSteep { index: usize, slope: S, maximum: S },
    SlopeWrongSign { index: usize, slope: S },
}

/// The outcome of the averaged-chord shape-preserving construction, phrased
/// over the shared slope machinery.
pub open spec fn shape_preserving_spec<S: Scalar>(
    values: Seq<S>,
    opts: Seq<Option<S>>,
    grid: Seq<S>,
    closed: bool,
    r: Result<PiecewiseCubicCurve<S, S>, Error<S>>,
) -> bool {
    let lens_ok = values.len() >= 2 && opts.len() == values.len() && grid.len() == values.len() + (
    if closed {
        1int
    } else {
        0int
    });
    match r {
        Ok(c) => monotone_core_spec(false, values, opts, grid, closed, Ok(c)),
        Err(Error::LessThanTwoValues) => values.len() < 2,
        Err(Error::SlopesVsValues { slopes: sl, values: vl }) => values.len() >= 2 && sl
            == opts.len() && vl == values.len() && opts.len() != values.len(),
        Err(Error::GridVsValues { grid: gl, values: vl, closed: cl }) => values.len() >= 2
            && opts.len() == values.len() && gl == grid.len() && vl == values.len() && cl == closed
            && grid.len() != values.len() + (if closed {
            1int
        } else {
            0int
        }),
        Err(Error::GridNan { index }) => lens_ok && grid_error_spec(
            grid,
            GridError::GridNan { index },
        ),
        Err(Error::GridNotAscending { index }) => lens_ok && grid_error_spec(
            grid,
            GridError::GridNotAscending { index },
        ),
        Err(Error::SlopeTooSteep { index, slope, maximum }) => lens_ok
            && spec_monotone_slope_error(
            false,
            values,
            grid,
            opts,
            closed,
            PiecewiseMonotoneWithSlopesError::SlopeTooSteep { index, slope, maximum },
        ),
        Err(Error::SlopeWrongSign { index, slope }) => lens_ok && spec_monotone_slope_error(
            false,
            values,
            grid,
            opts,
            closed,
            PiecewiseMonotoneWithSlopesError::SlopeWrongSign { index, slope },
        ),
    }
}

impl<S: Scalar> PiecewiseCubicCurve<S, S> {
    /// A shape-preserving piecewise cubic with optional prescribed slopes
    /// and the averaged-chord default estimate.
    pub fn new_shape_preserving_with_slopes(
        values: &Vec<S>,
        optional_slopes: &Vec<Option<S>>,
        grid: &Vec<S>,
        closed: bool,
    ) -> (r: Result<Self, Error<S>>)
        ensures
            shape_preserving_spec(values@, optional_slopes@, grid@, closed, r),
    {
        match monotone_core(values, optional_slopes, grid, closed, false) {
            Ok(c) => Ok(c),
            Err(
                PiecewiseMonotoneWithSlopesError::FromPiecewiseMonotoneError(
                    PiecewiseMonotoneError::LessThanTwoValues,
                ),
            ) => Err(Error::LessThanTwoValues),
            Err(
                PiecewiseMonotoneWithSlopesError::FromPiecewiseMonotoneError(
                    PiecewiseMonotoneError::GridVsValues { grid: gl, values: vl, closed: cl },
                ),
            ) => Err(Error::GridVsValues { grid: gl, values: vl, closed: cl }),
            Err(
                PiecewiseMonotoneWithSlopesError::FromPiecewiseMonotoneError(
                    PiecewiseMonotoneError::FromGridError(GridError::GridNan { index }),
                ),
            ) => Err(Error::GridNan { index }),
            Err(
                PiecewiseMonotoneWithSlopesError::FromPiecewiseMonotoneError(
                    PiecewiseMonotoneError::FromGridError(GridError::GridNotAscending { index }),
                ),
            ) => Err(Error::GridNotAscending { index }),
            Err(PiecewiseMonotoneWithSlopesError::SlopesVsValues { slopes, values: vl }) => Err(
                Error::SlopesVsValues { slopes, values: vl },
            ),
            Err(PiecewiseMonotoneWithSlopesError::SlopeTooSteep { index, slope, maximum }) => Err(
                Error::SlopeTooSteep { index, slope, maximum },
            ),
            Err(PiecewiseMonotoneWithSlopesError::SlopeWrongSign { index, slope }) => Err(
                Error::SlopeWrongSign { index, slope },
            ),
        }
    }

    /// A shape-preserving piecewise cubic with every slope derived from the
    /// averaged-chord estimate.
    pub fn new_shape_preserving(values: &Vec<S>, grid: &Vec<S>, closed: bool) -> (r: Result<
        Self,
        Error<S>,
    >)
        ensures
            shape_preserving_spec(
                values@,
                spec_none_slopes(values@.len()),
                grid@,
                closed,
                r,
            ),
    {
        let mut slopes: Vec<Option<S>> = Vec::new();
        while slopes.len() < values.len()
            invariant
                slopes@.len() <= values@.len(),
                forall|j: int| 0 <= j < slopes@.len() ==> slopes@[j] == None::<S>,
            decreases values@.len() - slopes@.len(),
        {
            slopes.push(None);
        }
        proof {
            assert(slopes@ =~= spec_none_slopes(values@.len()));
        }
        Self::new_shape_preserving_with_slopes(values, &slopes, grid, closed)
    }
}

impl<S> Error<S> {
    /// A human-readable description of the error.
    pub fn message(&self) -> (r: String)
        ensures
            r@.len() > 0,
    {
        match self {
            Error::LessThanTwoValues => {
                proof {
                    reveal_strlit("there must be at least two values");
                }
                String::from_str("there must be at least two values")
            },
            Error::GridVsValues { grid, values, closed } => {
                let mut m: String = indexed_message(
                    "length of grid (",
                    *grid,
                    if *closed {
                        ") must be one more than number of values ("
                    } else {
                        ") must be the same as number of values ("
                    },
                );
                m.append(usize_to_string(*values).as_str());
                m.append(")");
                m
            },
            Error::GridNan { index } => indexed_message(
                "index ",
                *index,
                ": NaN values are not allowed in grid",
            ),
            Error::GridNotAscending { index } => indexed_message(
                "index ",
                *index,
                ": grid values must be strictly ascending",
            ),
            Error::SlopesVsValues { slopes, values } => {
                let mut m: String = indexed_message("number of slopes (", *slopes, ") must be same as number of values (");
                m.append(usize_to_string(*values).as_str());
                m.append(")");
                m
            },
            Error::SlopeTooSteep { index, slope: _, maximum: _ } => indexed_message(
                "slope at index ",
                *index,
                " too steep",
            ),
            Error::SlopeWrongSign { index, slope: _ } => indexed_message(
                "slope at index ",
                *index,
                " has wrong sign",
            ),
        }
    }
}

} // verus!
