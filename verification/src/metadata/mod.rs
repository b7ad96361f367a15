//! Metadata structures for CityJSON datasets.

pub mod crs;
pub mod attributes;
