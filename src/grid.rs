//! The target grid: its dimensions and the cell that a coordinate falls in.
use vstd::prelude::*;

verus! {

/// Angle units in one degree.
pub const UNITS_PER_DEGREE: i64 = 1_000_000;

/// A quarter turn (the north pole's latitude), in angle units.
pub const QUARTER_TURN: i64 = 90_000_000;

/// Half a turn, in angle units.
pub const HALF_TURN: i64 = 180_000_000;

/// A full turn, in angle units.
pub const FULL_TURN: i64 = 360_000_000;

/// Columns of the grid at precision `p`: `floor(360° / p)`.
pub open spec fn grid_width(p: int) -> int {
    (FULL_TURN as int) / p
}

/// Rows of the grid at precision `p`: `floor(180° / p) + 1`, both poles included.
pub open spec fn grid_height(p: int) -> int {
    (HALF_TURN as int) / p + 1
}

/// Cells of the grid at precision `p`.
pub open spec fn grid_cells(p: int) -> int {
    grid_width(p) * grid_height(p)
}

/// `n / d` rounded to the nearest integer, halves away from zero (`d > 0`).
pub open spec fn round_div(n: int, d: int) -> int {
    if n >= 0 {
        (2 * n + d) / (2 * d)
    } else {
        -((-2 * n + d) / (2 * d))
    }
}

/// A longitude brought into `[-180°, 180°)`.
pub open spec fn wrap_lon(lon: int) -> int {
    (lon + (HALF_TURN as int)) % (FULL_TURN as int) - (HALF_TURN as int)
}

/// Row of latitude `lat`: row 0 is the north pole.
pub open spec fn lat_index_of(lat: int, p: int) -> int {
    round_div((QUARTER_TURN as int) - lat, p)
}

/// Column of longitude `lon`: column 0 is 180° west.
pub open spec fn lon_index_of(lon: int, p: int) -> int {
    round_div(wrap_lon(lon) + (HALF_TURN as int), p)
}

/// Row-major index of the cell that `(lat, lon)` falls in.
pub open spec fn cell_of(lat: int, lon: int, p: int) -> int {
    lat_index_of(lat, p) * grid_width(p) + lon_index_of(lon, p)
}

/// Whether `(lat, lon)` falls in a cell of the grid.
pub open spec fn in_grid(lat: int, lon: int, p: int) -> bool {
    0 <= cell_of(lat, lon, p) < grid_cells(p)
}

/// The grid's `(width, height)` at `precision` angle units per cell.
pub fn grid_dims(precision: u32) -> (dims: (usize, usize))
    requires
        precision > 0,
    ensures
        dims.0 == grid_width(precision as int),
        dims.1 == grid_height(precision as int),
{
    let width: u32 = 360_000_000u32 / precision;
    let height: u32 = 180_000_000u32 / precision + 1;
    (width as usize, height as usize)
}

/// `n / d` rounded to the nearest integer, halves away from zero.
fn nearest_quotient(n: i64, d: i64) -> (q: i64)
    requires
        0 < d <= u32::MAX,
        -4_000_000_000 <= n <= 4_000_000_000,
    ensures
        q == round_div(n as int, d as int),
        -n - 1 <= q <= n + 1 || n - 1 <= q <= -n + 1,
{
    if n >= 0 {
        let q = (2 * n + d) / (2 * d);
        assert(q <= n + 1) by (nonlinear_arith)
            requires
                q == (2 * n + d) / (2 * d),
                n >= 0,
                d > 0,
        ;
        q
    } else {
        let q = (-2 * n + d) / (2 * d);
        assert(q <= -n + 1) by (nonlinear_arith)
            requires
                q == (-2 * n + d) / (2 * d),
                n < 0,
                d > 0,
        ;
        -q
    }
}

/// A longitude brought into `[-180°, 180°)`.
pub fn normalize_lon(lon: i32) -> (r: i64)
    ensures
        r == wrap_lon(lon as int),
        -HALF_TURN <= r < HALF_TURN,
{
    let shifted: i64 = lon as i64 + HALF_TURN + 6 * FULL_TURN;
    let rem: i64 = shifted % FULL_TURN;
    proof {
        let x = lon as int + HALF_TURN as int;
        vstd::arithmetic::div_mod::lemma_fundamental_div_mod(shifted as int, FULL_TURN as int);
        vstd::arithmetic::div_mod::lemma_fundamental_div_mod_converse(
            x,
            FULL_TURN as int,
            shifted as int / FULL_TURN as int - 6,
            rem as int,
        );
    }
    rem - HALF_TURN
}

/// Row of latitude `lat` at `precision`: row 0 is the north pole.
pub fn lat_index(lat: i32, precision: u32) -> (r: i64)
    requires
        precision > 0,
    ensures
        r == lat_index_of(lat as int, precision as int),
        -3_000_000_000 <= r <= 3_000_000_000,
{
    nearest_quotient(QUARTER_TURN - lat as i64, precision as i64)
}

/// Column of longitude `lon` at `precision`: column 0 is 180° west.
pub fn lon_index(lon: i32, precision: u32) -> (r: i64)
    requires
        precision > 0,
    ensures
        r == lon_index_of(lon as int, precision as int),
        0 <= r <= FULL_TURN + 1,
{
    nearest_quotient(normalize_lon(lon) + HALF_TURN, precision as i64)
}

/// The north pole falls in row 0. The south pole falls in the last row,
/// `grid_height(p) - 1`, whenever `180° / p` has a fractional part under one
/// half; otherwise it rounds to the row past the last.
pub proof fn lemma_poles(p: int)
    requires
        p > 0,
    ensures
        lat_index_of(QUARTER_TURN as int, p) == 0,
        2 * (HALF_TURN as int % p) < p ==> lat_index_of(-QUARTER_TURN as int, p) == grid_height(p)
            - 1,
{
    let q = HALF_TURN as int / p;
    let r = HALF_TURN as int % p;
    vstd::arithmetic::div_mod::lemma_fundamental_div_mod(HALF_TURN as int, p);
    vstd::arithmetic::div_mod::lemma_fundamental_div_mod_converse(p, 2 * p, 0, p);
    if 2 * r < p {
        assert(2 * HALF_TURN + p == q * (2 * p) + (2 * r + p)) by (nonlinear_arith)
            requires
                HALF_TURN == q * p + r,
        ;
        vstd::arithmetic::div_mod::lemma_fundamental_div_mod_converse(
            2 * HALF_TURN + p,
            2 * p,
            q,
            2 * r + p,
        );
    }
}

} // verus!
