//! Coordinate reference systems.

use cityjson_stac::metadata::crs::CRS;

#[test]
fn test_crs_from_epsg() {
    let crs = CRS::from_epsg(7415);
    assert_eq!(crs.epsg, Some(7415));
    assert_eq!(crs.authority, Some("EPSG".to_string()));
    assert_eq!(crs.identifier, Some("7415".to_string()));
}

#[test]
fn test_crs_from_cityjson_url() {
    let url = "https://www.opengis.net/def/crs/EPSG/0/7415";
    let crs = CRS::from_cityjson_url(url).unwrap();
    assert_eq!(crs.epsg, Some(7415));
}

#[test]
fn test_crs_to_stac_epsg() {
    let crs = CRS::from_epsg(7415);
    assert_eq!(crs.to_stac_epsg(), Some(7415));
}

#[test]
fn test_crs_to_cityjson_url() {
    let crs = CRS::from_epsg(7415);
    assert_eq!(crs.to_cityjson_url(), Some("https://www.opengis.net/def/crs/EPSG/0/7415".to_string()));
}

#[test]
fn test_crs_default() {
    let crs = CRS::default();
    assert_eq!(crs.epsg, Some(4326));
}

#[test]
fn url_round_trip() {
    for code in [0u32, 4326, 7415, 28992, u32::MAX] {
        let url = CRS::from_epsg(code).to_cityjson_url().unwrap();
        assert_eq!(CRS::from_cityjson_url(&url).unwrap().epsg, Some(code));
    }
}

#[test]
fn urls_without_a_code() {
    assert!(CRS::from_cityjson_url("https://www.opengis.net/def/crs/EPSG/0/").is_none());
    assert!(CRS::from_cityjson_url("https://www.opengis.net/def/crs/EPSG/0/abc").is_none());
    assert!(CRS::from_cityjson_url("urn:ogc:def:crs:EPSG::7415").is_none());
    assert!(CRS::from_cityjson_url("https://www.opengis.net/def/crs/EPSG/0/4294967296").is_none());
}

#[test]
fn proj_code() {
    assert_eq!(CRS::from_epsg(28992).to_stac_proj_code(), Some("EPSG:28992".to_string()));
    let none = CRS { epsg: None, wkt2: None, proj4: None, authority: None, identifier: None };
    assert_eq!(none.to_stac_proj_code(), None);
    assert_eq!(none.to_stac_epsg(), None);
    assert_eq!(none.to_cityjson_url(), None);
}
