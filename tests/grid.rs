use wind_texture::grid::{grid_dims, lat_index, lon_index, normalize_lon};

const DEG: i32 = 1_000_000;

#[test]
fn dims_at_quarter_degree() {
    assert_eq!(grid_dims(250_000), (1440, 721));
}

#[test]
fn dims_at_one_degree_and_uneven_precision() {
    assert_eq!(grid_dims(1_000_000), (360, 181));
    // 360 / 0.7 = 514.28..., 180 / 0.7 = 257.14...
    assert_eq!(grid_dims(700_000), (514, 258));
}

#[test]
fn longitude_wraps_past_half_turn() {
    assert_eq!(normalize_lon(359_900_000), -100_000);
    assert_eq!(lon_index(359_900_000, 1_000_000), 180);
}

#[test]
fn longitude_boundaries() {
    assert_eq!(normalize_lon(0), 0);
    assert_eq!(lon_index(0, 1_000_000), 180);
    assert_eq!(normalize_lon(359_999_000), -1_000);
    assert_eq!(lon_index(359_999_000, 1_000_000), 180);
    assert_eq!(normalize_lon(180 * DEG), -180_000_000);
    assert_eq!(lon_index(180 * DEG, 1_000_000), 0);
    assert_eq!(normalize_lon(-190 * DEG), 170_000_000);
    assert_eq!(normalize_lon(540 * DEG), -180_000_000);
}

#[test]
fn poles_map_to_first_and_last_rows() {
    assert_eq!(lat_index(90 * DEG, 250_000), 0);
    assert_eq!(lat_index(-90 * DEG, 250_000), 720);
    assert_eq!(lat_index(90 * DEG, 700_000), 0);
    assert_eq!(lat_index(-90 * DEG, 700_000), 257);
}

#[test]
fn rounding_halves_away_from_zero() {
    // (90 - 87.5) / 1 = 2.5 rounds to 3; (90 - 92.5) / 1 = -2.5 rounds to -3.
    assert_eq!(lat_index(87_500_000, 1_000_000), 3);
    assert_eq!(lat_index(92_500_000, 1_000_000), -3);
    assert_eq!(lat_index(87_600_000, 1_000_000), 2);
}

#[test]
fn south_pole_rounds_past_last_row_at_uneven_precision() {
    // 180 / 1.9 = 94.7...: 95 rows, and the south pole rounds to row 95.
    assert_eq!(grid_dims(1_900_000), (189, 95));
    assert_eq!(lat_index(-90 * DEG, 1_900_000), 95);
}
