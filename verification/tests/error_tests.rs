//! Error descriptions.

use cityjson_stac::error::{CityJsonStacError, IoErrorKind};

#[test]
fn descriptions_start_with_their_kind() {
    assert_eq!(CityJsonStacError::IoError(IoErrorKind::Other, "x".to_string()).to_string(), "IO error: x");
    assert_eq!(CityJsonStacError::InvalidCityJson("x".to_string()).to_string(), "Invalid CityJSON: x");
    assert_eq!(CityJsonStacError::UnsupportedFormat("x".to_string()).to_string(), "Unsupported format: x");
    assert_eq!(CityJsonStacError::MetadataError("x".to_string()).to_string(), "Metadata error: x");
    assert_eq!(CityJsonStacError::StacError("x".to_string()).to_string(), "STAC error: x");
    assert_eq!(CityJsonStacError::StorageError("x".to_string()).to_string(), "Storage error: x");
    assert_eq!(CityJsonStacError::Other("x".to_string()).to_string(), "x");
    assert_eq!(CityJsonStacError::NoFilesFound.to_string(), "No supported files found");
}
