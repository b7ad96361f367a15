//! STAC generation: the data models and the builders of Items, Collections
//! and Catalogs.

pub mod models;
pub mod catalog;
pub mod accumulator;
pub mod summaries;
pub mod collection;
pub mod item;
pub mod geoparquet;
