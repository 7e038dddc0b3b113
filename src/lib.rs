//! Regridding of a pair of wind-component fields onto a uniform
//! latitude/longitude raster.
//!
//! Angles are fixed-point integers in millionths of a degree; sample values
//! are carried through unchanged, whatever their type.
pub mod error;
pub mod field;
pub mod grid;
pub mod raster;
pub mod select;
