//! What a ZIP archive reports, from what its files report.

use cityjson_stac::error::CityJsonStacError;
use cityjson_stac::metadata::attributes::{AttributeDefinition, AttributeType};
use cityjson_stac::metadata::crs::CRS;
use cityjson_stac::reader::zip::{aggregate_zip_metadata, require_inner_files};
use cityjson_stac::reader::ModelFacts;

fn facts(count: Option<u64>, types: &[&str], lods: &[&str], version: Option<&str>, epsg: Option<u32>) -> ModelFacts {
    ModelFacts {
        version: version.map(|v| v.to_string()),
        city_object_count: count,
        lods: Some(lods.iter().map(|s| s.to_string()).collect()),
        city_object_types: Some(types.iter().map(|s| s.to_string()).collect()),
        attributes: None,
        semantic_surfaces: Some(false),
        textures: None,
        materials: Some(false),
        crs: epsg.map(CRS::from_epsg),
    }
}

#[test]
fn archive_metadata_is_gathered() {
    let mut a = facts(Some(3), &["Road", "Building"], &["2"], None, None);
    a.attributes = Some(vec![
        AttributeDefinition::new("z", AttributeType::Number),
        AttributeDefinition::new("a", AttributeType::String),
    ]);
    let mut b = facts(Some(4), &["Building", "Bridge"], &["1", "2"], Some("2.0"), Some(7415));
    b.attributes = Some(vec![
        AttributeDefinition::new("a", AttributeType::String),
        AttributeDefinition::new("a", AttributeType::Boolean),
    ]);
    b.textures = Some(true);
    let c = facts(None, &[], &[], Some("1.1"), Some(28992));
    let m = aggregate_zip_metadata(&vec![a, b, c], Some("CityJSONSeq".to_string()), Some([0.0f64; 6]));
    assert_eq!(m.city_object_count, 7);
    assert_eq!(m.city_object_types, vec!["Bridge", "Building", "Road"]);
    assert_eq!(m.lods, vec!["1", "2"]);
    assert_eq!(
        m.attributes,
        vec![
            AttributeDefinition::new("a", AttributeType::String),
            AttributeDefinition::new("a", AttributeType::Boolean),
            AttributeDefinition::new("z", AttributeType::Number),
        ]
    );
    assert_eq!(m.version, "2.0");
    assert_eq!(m.crs.epsg, Some(7415));
    assert!(m.has_textures);
    assert!(!m.has_materials);
    assert!(!m.has_semantic_surfaces);
    assert_eq!(m.primary_encoding, "CityJSONSeq");
    assert!(m.bbox.is_some());
}

#[test]
fn empty_archive_defaults() {
    let m = aggregate_zip_metadata::<[f64; 6]>(&vec![], None, None);
    assert_eq!(m.city_object_count, 0);
    assert_eq!(m.primary_encoding, "CityJSON");
    assert_eq!(m.version, "");
    assert_eq!(m.crs.epsg, Some(4326));
    assert!(m.bbox.is_none());
}

#[test]
fn test_zip_reader_not_streamable() {
    match require_inner_files(0) {
        Err(CityJsonStacError::InvalidCityJson(msg)) => assert!(msg.contains("No CityJSON/CityGML files found")),
        _ => panic!("Expected InvalidCityJson error"),
    }
    assert!(require_inner_files(2).is_ok());
}
