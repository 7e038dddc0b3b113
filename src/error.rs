//! Why a conversion stopped.
use vstd::prelude::*;

use crate::select::FieldId;

verus! {

/// The ways a conversion fails; each one ends the whole conversion.
#[derive(Debug, PartialEq, Eq)]
pub enum ConvertError {
    /// No record carries the field `field`.
    MissingField { field: FieldId },
    /// The decoder failed while handing out a record's samples.
    DecodeFailure { message: String },
    /// The two rasters differ in `(width, height)`.
    DimensionMismatch { expected: (usize, usize), actual: (usize, usize) },
    /// Sample number `sample` falls outside the grid, at row `lat_index`
    /// and column `lon_index`.
    IndexOutOfRange { sample: usize, lat_index: i64, lon_index: i64 },
}

} // verus!
