use wind_texture::error::ConvertError;
use wind_texture::field::{wind_field, zip_fields};
use wind_texture::raster::{rasterize, Sample};

const DEG: i32 = 1_000_000;
const QUARTER: u32 = 90_000_000;

fn at(lat: i32, lon: i32, value: f32) -> Sample<f32> {
    Sample { lat: lat * DEG, lon: lon * DEG, value }
}

#[test]
fn writes_each_sample_into_its_cell() {
    // At 90 degrees: 4 columns (-180, -90, 0, 90) and 3 rows (90, 0, -90).
    let samples = vec![at(90, 0, 1.5), at(0, 270, 2.5), at(-90, 180, 3.5)];
    let r = rasterize(&samples, QUARTER, 0.0f32).unwrap();
    assert_eq!((r.width, r.height), (4, 3));
    assert_eq!(
        r.values,
        vec![0.0, 0.0, 1.5, 0.0, 0.0, 2.5, 0.0, 0.0, 3.5, 0.0, 0.0, 0.0]
    );
}

#[test]
fn last_sample_in_a_cell_wins() {
    let samples = vec![at(0, 0, 1.0), at(10, 20, 2.0), at(-5, 355, 7.0)];
    let r = rasterize(&samples, QUARTER, 0.0f32).unwrap();
    assert_eq!(r.values[6], 7.0);
    assert_eq!(r.values.iter().filter(|v| **v != 0.0).count(), 1);
}

#[test]
fn empty_record_gives_zero_grid() {
    let samples: Vec<Sample<f32>> = vec![];
    let r = rasterize(&samples, 250_000, 0.0f32).unwrap();
    assert_eq!((r.width, r.height), (1440, 721));
    assert_eq!(r.values.len(), 1440 * 721);
    assert!(r.values.iter().all(|v| *v == 0.0));
}

#[test]
fn sample_beyond_north_pole_is_out_of_range() {
    // Latitude 135 rounds to row -1 (half away from zero).
    let samples = vec![at(0, 0, 1.0), at(135, 0, 2.0), at(140, 0, 3.0)];
    let r = rasterize(&samples, QUARTER, 0.0f32);
    assert_eq!(
        r.err(),
        Some(ConvertError::IndexOutOfRange { sample: 1, lat_index: -1, lon_index: 2 })
    );
}

#[test]
fn wrapped_column_past_last_row_is_out_of_range() {
    // Longitude 179.9 rounds to column 360 at one degree; on the last row
    // that is one past the end.
    let samples = vec![Sample { lat: -90 * DEG, lon: 179_900_000, value: 1.0f32 }];
    let r = rasterize(&samples, 1_000_000, 0.0f32);
    assert_eq!(
        r.err(),
        Some(ConvertError::IndexOutOfRange { sample: 0, lat_index: 180, lon_index: 360 })
    );
}

#[test]
fn differing_widths_are_rejected() {
    let samples = vec![at(0, 0, 1.0)];
    let coarse = rasterize(&samples, QUARTER, 0.0f32).unwrap();
    let fine = rasterize(&samples, QUARTER / 2, 0.0f32).unwrap();
    let r = zip_fields(&coarse, &fine);
    assert_eq!(
        r.err(),
        Some(ConvertError::DimensionMismatch { expected: (4, 3), actual: (8, 5) })
    );
}

#[test]
fn pairs_cells_of_equal_rasters() {
    let u = rasterize(&vec![at(90, 0, 1.0)], QUARTER, 0.0f32).unwrap();
    let v = rasterize(&vec![at(90, 0, -2.0), at(0, 90, 4.0)], QUARTER, 0.0f32).unwrap();
    let f = zip_fields(&u, &v).unwrap();
    assert_eq!((f.width, f.height), (4, 3));
    assert_eq!(f.cells.len(), 12);
    assert_eq!(f.cells[2], (1.0, -2.0));
    assert_eq!(f.cells[7], (0.0, 4.0));
    assert_eq!(f.cells[0], (0.0, 0.0));
}

#[test]
fn wind_field_pairs_both_records() {
    let u = vec![at(0, 0, 3.0)];
    let v = vec![at(0, 0, 4.0), at(-90, 90, 1.0)];
    let f = wind_field(&u, &v, QUARTER, 0.0f32).unwrap();
    assert_eq!((f.width, f.height), (4, 3));
    assert_eq!(f.cells[6], (3.0, 4.0));
    assert_eq!(f.cells[11], (0.0, 1.0));
}

#[test]
fn wind_field_reports_first_record_before_second() {
    let u = vec![at(0, 0, 3.0), at(180, 0, 1.0)];
    let v = vec![at(-180, 0, 4.0)];
    let r = wind_field(&u, &v, QUARTER, 0.0f32);
    assert_eq!(
        r.err(),
        Some(ConvertError::IndexOutOfRange { sample: 1, lat_index: -1, lon_index: 2 })
    );
    let ok = vec![at(0, 0, 3.0)];
    let r = wind_field(&ok, &v, QUARTER, 0.0f32);
    assert_eq!(
        r.err(),
        Some(ConvertError::IndexOutOfRange { sample: 0, lat_index: 3, lon_index: 2 })
    );
}
