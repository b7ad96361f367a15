//! STAC metadata for CityJSON datasets: the rules that turn facts read from
//! city models into STAC Items, Collections and Catalogs.

pub mod text;
pub mod decimal;
pub mod path;
pub mod stac;
pub mod metadata;
pub mod error;
pub mod remote;
pub mod sorted;
pub mod json;
pub mod keyed;
pub mod reader;
pub mod traversal;
pub mod cli;
pub mod config;
