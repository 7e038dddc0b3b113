//! Pairing two rasters into one vector field.
use vstd::prelude::*;

use crate::error::ConvertError;
use crate::grid::{grid_cells, grid_height, grid_width};
use crate::raster::{all_in_grid, painted, rasterize, reports_first_stray, Raster, Sample};

verus! {

/// A row-major grid of `(first, second)` component pairs, one per cell.
pub struct VectorField<T> {
    pub cells: Vec<(T, T)>,
    pub width: usize,
    pub height: usize,
}

/// The cell-by-cell pairs of `a` and `b`, as far as both reach.
pub open spec fn zipped<T>(a: Seq<T>, b: Seq<T>) -> Seq<(T, T)> {
    Seq::new(
        if a.len() <= b.len() {
            a.len()
        } else {
            b.len()
        },
        |i: int| (a[i], b[i]),
    )
}

/// Pairs the cells of two rasters of the same dimensions; fails when their
/// `(width, height)` differ.
pub fn zip_fields<T: Copy>(first: &Raster<T>, second: &Raster<T>) -> (r: Result<
    VectorField<T>,
    ConvertError,
>)
    ensures
        match r {
            Ok(field) => {
                &&& field.width == first.width
                &&& field.height == first.height
                &&& field.cells@ == zipped(first.values@, second.values@)
            },
            Err(e) => e == (ConvertError::DimensionMismatch {
                expected: (first.width, first.height),
                actual: (second.width, second.height),
            }),
        },
        r is Ok <==> (first.width == second.width && first.height == second.height),
{
    if first.width != second.width || first.height != second.height {
        return Err(
            ConvertError::DimensionMismatch {
                expected: (first.width, first.height),
                actual: (second.width, second.height),
            },
        );
    }
    let n: usize = if first.values.len() <= second.values.len() {
        first.values.len()
    } else {
        second.values.len()
    };
    let mut cells: Vec<(T, T)> = Vec::with_capacity(n);
    let mut i: usize = 0;
    while i < n
        invariant
            i <= n,
            n <= first.values@.len(),
            n <= second.values@.len(),
            n == zipped(first.values@, second.values@).len(),
            cells@ =~= zipped(first.values@, second.values@).subrange(0, i as int),
        decreases n - i,
    {
        cells.push((first.values[i], second.values[i]));
        i = i + 1;
    }
    Ok(VectorField { cells, width: first.width, height: first.height })
}

/// Resamples the two component records onto the grid at `precision` angle
/// units per cell (see `rasterize`) and pairs them cell by cell. The first
/// record's stray sample, if any, is reported before the second's.
pub fn wind_field<T: Copy>(
    first: &Vec<Sample<T>>,
    second: &Vec<Sample<T>>,
    precision: u32,
    zero: T,
) -> (r: Result<VectorField<T>, ConvertError>)
    requires
        precision > 0,
        grid_cells(precision as int) <= usize::MAX,
    ensures
        match r {
            Ok(field) => {
                &&& field.width == grid_width(precision as int)
                &&& field.height == grid_height(precision as int)
                &&& field.cells@ == zipped(
                    painted(first@, precision as int, zero),
                    painted(second@, precision as int, zero),
                )
            },
            Err(e) => if all_in_grid(first@, precision as int) {
                reports_first_stray(second@, precision as int, e)
            } else {
                reports_first_stray(first@, precision as int, e)
            },
        },
        r is Ok <==> (all_in_grid(first@, precision as int) && all_in_grid(
            second@,
            precision as int,
        )),
{
    let a = rasterize(first, precision, zero)?;
    let b = rasterize(second, precision, zero)?;
    zip_fields(&a, &b)
}

} // verus!
