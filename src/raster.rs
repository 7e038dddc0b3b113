//! Resampling one record onto the grid.
use vstd::prelude::*;

use crate::error::ConvertError;
use crate::grid::{
    cell_of, grid_cells, grid_dims, grid_height, grid_width, in_grid, lat_index, lat_index_of,
    lon_index, lon_index_of, FULL_TURN, HALF_TURN,
};

verus! {

/// One decoded sample: its latitude and longitude in angle units, and its value.
pub struct Sample<T> {
    pub lat: i32,
    pub lon: i32,
    pub value: T,
}

/// A row-major grid of `width * height` values, row 0 at the north pole and
/// column 0 at 180° west.
pub struct Raster<T> {
    pub values: Vec<T>,
    pub width: usize,
    pub height: usize,
}

impl<T> Raster<T> {
    /// The raster holds exactly one value per cell.
    pub open spec fn wf(&self) -> bool {
        self.values@.len() == self.width * self.height
    }
}

/// Whether sample `s` falls in a cell of the grid at precision `p`.
pub open spec fn sample_in_grid<T>(s: Sample<T>, p: int) -> bool {
    in_grid(s.lat as int, s.lon as int, p)
}

/// Whether every one of `samples` falls in a cell of the grid at precision `p`.
pub open spec fn all_in_grid<T>(samples: Seq<Sample<T>>, p: int) -> bool {
    forall|i: int| 0 <= i < samples.len() ==> sample_in_grid(#[trigger] samples[i], p)
}

/// Whether `e` names the first of `samples` that falls outside the grid at
/// precision `p`, with the row and column it fell at.
pub open spec fn reports_first_stray<T>(samples: Seq<Sample<T>>, p: int, e: ConvertError) -> bool {
    &&& e matches ConvertError::IndexOutOfRange { sample, lat_index, lon_index }
    &&& sample < samples.len()
    &&& !sample_in_grid(samples[sample as int], p)
    &&& forall|j: int| 0 <= j < sample ==> sample_in_grid(#[trigger] samples[j], p)
    &&& lat_index == lat_index_of(samples[sample as int].lat as int, p)
    &&& lon_index == lon_index_of(samples[sample as int].lon as int, p)
}

/// The grid at precision `p` after `samples` are written in order into a grid
/// of `zero`s, each into its cell: a later sample overwrites an earlier one
/// in the same cell, and a cell that no sample reaches keeps `zero`.
pub open spec fn painted<T>(samples: Seq<Sample<T>>, p: int, zero: T) -> Seq<T>
    decreases samples.len(),
{
    if samples.len() == 0 {
        Seq::new(grid_cells(p) as nat, |_i: int| zero)
    } else {
        let s = samples.last();
        painted(samples.drop_last(), p, zero).update(cell_of(s.lat as int, s.lon as int, p), s.value)
    }
}

/// Position of the last of `samples` that falls in cell `c` at precision `p`.
pub open spec fn last_writer<T>(samples: Seq<Sample<T>>, c: int, p: int) -> Option<int>
    decreases samples.len(),
{
    if samples.len() == 0 {
        None
    } else if cell_of(samples.last().lat as int, samples.last().lon as int, p) == c {
        Some(samples.len() - 1)
    } else {
        last_writer(samples.drop_last(), c, p)
    }
}

/// Every cell of the resampled grid holds the value of the last sample that
/// falls in it, and a cell that no sample falls in holds `zero`.
pub proof fn lemma_painted_cell<T>(samples: Seq<Sample<T>>, p: int, zero: T, c: int)
    requires
        p > 0,
        all_in_grid(samples, p),
        0 <= c < grid_cells(p),
    ensures
        painted(samples, p, zero).len() == grid_cells(p),
        last_writer(samples, c, p) matches Some(i) ==> 0 <= i < samples.len() && cell_of(
            samples[i].lat as int,
            samples[i].lon as int,
            p,
        ) == c,
        painted(samples, p, zero)[c] == match last_writer(samples, c, p) {
            Some(i) => samples[i].value,
            None => zero,
        },
    decreases samples.len(),
{
    if samples.len() > 0 {
        let rest = samples.drop_last();
        assert forall|i: int| 0 <= i < rest.len() implies sample_in_grid(#[trigger] rest[i], p) by {
            assert(sample_in_grid(samples[i], p));
        }
        assert(sample_in_grid(samples[samples.len() - 1], p));
        lemma_painted_cell(rest, p, zero, c);
    }
}

/// Resamples `samples` onto the grid at `precision` angle units per cell,
/// starting from `zero` in every cell; a later sample overwrites an earlier
/// one in the same cell. Fails on the first sample that falls outside the grid.
pub fn rasterize<T: Copy>(samples: &Vec<Sample<T>>, precision: u32, zero: T) -> (r: Result<
    Raster<T>,
    ConvertError,
>)
    requires
        precision > 0,
        grid_cells(precision as int) <= usize::MAX,
    ensures
        match r {
            Ok(raster) => {
                &&& raster.width == grid_width(precision as int)
                &&& raster.height == grid_height(precision as int)
                &&& raster.values@ == painted(samples@, precision as int, zero)
                &&& raster.wf()
            },
            Err(e) => reports_first_stray(samples@, precision as int, e),
        },
        r is Ok <==> all_in_grid(samples@, precision as int),
{
    let ghost p = precision as int;
    let (width, height) = grid_dims(precision);
    assert(width * height <= FULL_TURN * (HALF_TURN + 1)) by (nonlinear_arith)
        requires
            width <= FULL_TURN,
            height <= HALF_TURN + 1,
    ;
    let cells: usize = width * height;
    let mut values: Vec<T> = Vec::with_capacity(cells);
    let mut k: usize = 0;
    while k < cells
        invariant
            k <= cells,
            values@ =~= Seq::new(k as nat, |_i: int| zero),
        decreases cells - k,
    {
        values.push(zero);
        k = k + 1;
    }
    assert(samples@.subrange(0, 0) =~= Seq::<Sample<T>>::empty());
    let mut i: usize = 0;
    while i < samples.len()
        invariant
            i <= samples@.len(),
            precision > 0,
            p == precision as int,
            width == grid_width(p),
            height == grid_height(p),
            cells == grid_cells(p),
            cells <= FULL_TURN * (HALF_TURN + 1),
            width <= FULL_TURN,
            values@ == painted(samples@.subrange(0, i as int), p, zero),
            values@.len() == cells,
            forall|j: int| 0 <= j < i ==> sample_in_grid(#[trigger] samples@[j], p),
        decreases samples@.len() - i,
    {
        let s = &samples[i];
        let row = lat_index(s.lat, precision);
        let col = lon_index(s.lon, precision);
        assert(-3_000_000_000 * FULL_TURN <= row * width <= 3_000_000_000 * FULL_TURN)
            by (nonlinear_arith)
            requires
                -3_000_000_000 <= row <= 3_000_000_000,
                0 <= width <= FULL_TURN,
        ;
        let cell: i64 = row * (width as i64) + col;
        assert(cell == cell_of(samples@[i as int].lat as int, samples@[i as int].lon as int, p));
        if cell < 0 || cell >= cells as i64 {
            assert(!sample_in_grid(samples@[i as int], p));
            return Err(ConvertError::IndexOutOfRange { sample: i, lat_index: row, lon_index: col });
        }
        proof {
            assert(samples@.subrange(0, i as int + 1).drop_last() =~= samples@.subrange(0, i as int));
            assert(samples@.subrange(0, i as int + 1).last() == samples@[i as int]);
        }
        values.set(cell as usize, s.value);
        i = i + 1;
    }
    assert(samples@.subrange(0, samples@.len() as int) =~= samples@);
    Ok(Raster { values, width, height })
}

} // verus!
