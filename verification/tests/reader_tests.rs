//! Input sources, the reader a file calls for, and what is read from a
//! parsed CityJSON document.

use cityjson_stac::error::{CityJsonStacError, IoErrorKind};
use cityjson_stac::json::{JsonMember, JsonNumber, JsonValue};
use cityjson_stac::metadata::attributes::AttributeType;
use cityjson_stac::reader::cityjson::{
    city_object_count_from_data, extract_attributes_from_data, extract_city_object_types_from_data,
    extract_crs_from_data, extract_extensions_from_data, extract_lods_from_data,
    extract_materials_from_data, extract_semantic_surfaces_from_data, extract_textures_from_data,
    extract_version_from_data,
};
use cityjson_stac::reader::cjseq::{AggregatedMetadata, CityJSONSeqReader};
use cityjson_stac::reader::{reader_kind, remote_reader_kind, InputSource, ReaderKind};
use std::io::Write;

/// The library's form of a parsed JSON document.
fn to_json(v: &serde_json::Value) -> JsonValue {
    match v {
        serde_json::Value::Null => JsonValue::Null,
        serde_json::Value::Bool(b) => JsonValue::Bool(*b),
        serde_json::Value::Number(n) => JsonValue::Number(JsonNumber {
            as_u64: n.as_u64(),
            as_i64: n.as_i64(),
            text: n.to_string(),
        }),
        serde_json::Value::String(s) => JsonValue::String(s.clone()),
        serde_json::Value::Array(xs) => JsonValue::Array(xs.iter().map(to_json).collect()),
        serde_json::Value::Object(m) => JsonValue::Object(
            m.iter().map(|(k, v)| JsonMember { key: k.clone(), value: to_json(v) }).collect(),
        ),
    }
}

fn parse(text: &str) -> JsonValue {
    to_json(&serde_json::from_str::<serde_json::Value>(text).unwrap())
}

fn test_document() -> JsonValue {
    parse(
        r#"{
            "type": "CityJSON",
            "version": "2.0",
            "metadata": {
                "geographicalExtent": [1.0, 2.0, 0.0, 10.0, 20.0, 30.0],
                "referenceSystem": {
                    "type": "referenceSystem",
                    "referenceSystemName": "EPSG:7415",
                    "base_url": "https://www.opengis.net/def/crs/EPSG/0/7415",
                    "authority": "EPSG",
                    "version": "0",
                    "code": "7415"
                }
            },
            "CityObjects": {
                "building1": {
                    "type": "Building",
                    "geometry": [{"type": "Solid", "lod": "2", "boundaries": []}],
                    "attributes": {"yearOfConstruction": 2020, "function": "residential"}
                },
                "building2": {
                    "type": "Building",
                    "geometry": [{"type": "Solid", "lod": "2.2", "boundaries": []}],
                    "attributes": {"yearOfConstruction": 2021}
                }
            },
            "vertices": []
        }"#,
    )
}

#[test]
fn test_input_source_local() {
    let source = InputSource::from_str_input("tests/data/delft.city.json").unwrap();
    assert!(matches!(source, InputSource::Local(_)));
}

#[test]
fn test_input_source_remote_https() {
    let source = InputSource::from_str_input("https://example.com/data/city.json").unwrap();
    assert!(matches!(source, InputSource::Remote(_)));
}

#[test]
fn test_input_source_remote_s3() {
    let source = InputSource::from_str_input("s3://bucket/path/city.json").unwrap();
    assert!(matches!(source, InputSource::Remote(_)));
}

#[test]
fn test_input_source_remote_azure() {
    let source = InputSource::from_str_input("az://container/city.json").unwrap();
    assert!(matches!(source, InputSource::Remote(_)));
}

#[test]
fn test_input_source_remote_gcs() {
    let source = InputSource::from_str_input("gs://bucket/city.json").unwrap();
    assert!(matches!(source, InputSource::Remote(_)));
}

#[test]
fn test_get_reader_from_source_unsupported_remote_extension() {
    let result = remote_reader_kind("https://example.com/data/file.txt");
    assert!(result.is_err());
    match result {
        Err(CityJsonStacError::InvalidCityJson(msg)) => {
            assert!(msg.contains("Unsupported remote file extension"));
        }
        _ => panic!("Expected InvalidCityJson error for unsupported extension"),
    }
}

#[test]
fn remote_reader_kinds() {
    assert_eq!(remote_reader_kind("https://example.com/a.city.json").unwrap(), ReaderKind::CityJson);
    assert_eq!(remote_reader_kind("https://example.com/a.jsonl").unwrap(), ReaderKind::CityJsonSeq);
    assert_eq!(remote_reader_kind("https://example.com/a.cjseq").unwrap(), ReaderKind::CityJsonSeq);
    assert_eq!(remote_reader_kind("https://example.com/a.ZIP").unwrap(), ReaderKind::Zip);
    assert_eq!(remote_reader_kind("https://example.com/a.gml").unwrap(), ReaderKind::CityGml);
    assert!(matches!(remote_reader_kind("https://example.com/a"), Err(CityJsonStacError::Other(_))));
}

#[test]
fn local_reader_kinds() {
    assert_eq!(reader_kind("data/a.city.json").unwrap(), ReaderKind::CityJson);
    assert_eq!(reader_kind("a.jsonl").unwrap(), ReaderKind::CityJsonSeq);
    assert_eq!(reader_kind("a.fcb").unwrap(), ReaderKind::FlatCityBuf);
    assert_eq!(reader_kind("a.zip").unwrap(), ReaderKind::Zip);
    assert_eq!(reader_kind("a.xml").unwrap(), ReaderKind::CityGml);
    match reader_kind("a.txt") {
        Err(CityJsonStacError::InvalidCityJson(m)) => assert_eq!(m, "Unsupported file extension: txt"),
        other => panic!("unexpected {:?}", other),
    }
    match reader_kind("README") {
        Err(CityJsonStacError::InvalidCityJson(m)) => assert_eq!(m, "No file extension"),
        other => panic!("unexpected {:?}", other),
    }
}

#[test]
fn test_cityjson_encoding() {
    assert_eq!(ReaderKind::CityJson.encoding(), "CityJSON");
    assert_eq!(ReaderKind::Zip.encoding(), "CityJSON");
    assert_eq!(ReaderKind::CityJsonSeq.encoding(), "CityJSONSeq");
    assert_eq!(ReaderKind::FlatCityBuf.encoding(), "FlatCityBuf");
    assert_eq!(ReaderKind::CityGml.encoding(), "CityGML");
}

#[test]
fn test_cityjson_extract_version() {
    assert_eq!(extract_version_from_data(&test_document()), "2.0");
}

#[test]
fn test_cityjson_extract_city_objects_count() {
    assert_eq!(city_object_count_from_data(&test_document()), 2);
}

#[test]
fn test_cityjson_extract_types() {
    assert_eq!(extract_city_object_types_from_data(&test_document()), vec!["Building".to_string()]);
}

#[test]
fn test_cityjson_extract_lods() {
    let lods = extract_lods_from_data(&test_document());
    assert!(lods.contains(&"2".to_string()));
    assert!(lods.contains(&"2.2".to_string()));
}

#[test]
fn test_cityjson_extract_crs() {
    assert_eq!(extract_crs_from_data(&test_document()).epsg, Some(7415));
}

#[test]
fn test_cityjson_extract_attributes() {
    let attrs = extract_attributes_from_data(&test_document());
    let names: Vec<&str> = attrs.iter().map(|a| a.name.as_str()).collect();
    assert!(names.contains(&"yearOfConstruction"));
    assert!(names.contains(&"function"));
}

#[test]
fn test_cityjson_extensions_empty() {
    assert!(extract_extensions_from_data(&test_document()).is_empty());
}

#[test]
fn test_cityjson_extensions_present() {
    let doc = parse(
        r#"{
            "type": "CityJSON",
            "version": "2.0",
            "extensions": {
                "https://www.cityjson.org/extensions/noise.ext.json": "Noise",
                "https://3dbag.nl/extensions/3dbag.ext.json": "3DBAG"
            },
            "metadata": {"geographicalExtent": [1.0, 2.0, 0.0, 10.0, 20.0, 30.0]},
            "CityObjects": {"building1": {"type": "+NoiseBuilding", "geometry": []}},
            "vertices": []
        }"#,
    );
    let extensions = extract_extensions_from_data(&doc);
    assert_eq!(extensions.len(), 2);
    assert!(extensions.contains(&"https://www.cityjson.org/extensions/noise.ext.json".to_string()));
    assert!(extensions.contains(&"https://3dbag.nl/extensions/3dbag.ext.json".to_string()));
}

#[test]
fn test_cityjson_extensions_sorted() {
    let doc = parse(
        r#"{
            "type": "CityJSON",
            "version": "2.0",
            "extensions": {"https://z.ext.json": "Z", "https://a.ext.json": "A"},
            "metadata": {"geographicalExtent": [0, 0, 0, 1, 1, 1]},
            "CityObjects": {},
            "vertices": []
        }"#,
    );
    let extensions = extract_extensions_from_data(&doc);
    assert_eq!(extensions[0], "https://a.ext.json");
    assert_eq!(extensions[1], "https://z.ext.json");
}

#[test]
fn test_cityjson_semantic_surfaces() {
    let doc = parse(
        r#"{
            "type": "CityJSON",
            "version": "2.0",
            "metadata": {"geographicalExtent": [0, 0, 0, 1, 1, 1]},
            "CityObjects": {
                "building1": {
                    "type": "Building",
                    "geometry": [{
                        "type": "Solid",
                        "lod": "2",
                        "boundaries": [],
                        "semantics": {"surfaces": [{"type": "Wall"}, {"type": "Roof"}]}
                    }]
                }
            },
            "vertices": []
        }"#,
    );
    assert!(extract_semantic_surfaces_from_data(&doc));
}

#[test]
fn test_cityjson_no_semantic_surfaces() {
    assert!(!extract_semantic_surfaces_from_data(&test_document()));
}

#[test]
fn test_cityjson_textures() {
    let doc = parse(
        r#"{
            "type": "CityJSON",
            "version": "2.0",
            "metadata": {"geographicalExtent": [0, 0, 0, 1, 1, 1]},
            "appearance": {"textures": [{"type": "PNG", "image": "base64..."}]},
            "CityObjects": {},
            "vertices": []
        }"#,
    );
    assert!(extract_textures_from_data(&doc));
    assert!(!extract_materials_from_data(&doc));
}

#[test]
fn test_cityjson_materials() {
    let doc = parse(
        r#"{
            "type": "CityJSON",
            "version": "2.0",
            "metadata": {"geographicalExtent": [0, 0, 0, 1, 1, 1]},
            "appearance": {"materials": [{"name": "roof", "ambientIntensity": 0.6}]},
            "CityObjects": {},
            "vertices": []
        }"#,
    );
    assert!(extract_materials_from_data(&doc));
    assert!(!extract_textures_from_data(&doc));
}

#[test]
fn attribute_kinds_are_merged_and_sorted() {
    let doc = parse(
        r#"{
            "CityObjects": {
                "a": {"type": "Building", "attributes": {"z": 1, "h": "x", "m": [1], "o": {"k": 1}, "b": true}},
                "b": {"type": "Road", "attributes": {"z": 2.5}}
            }
        }"#,
    );
    let attrs = extract_attributes_from_data(&doc);
    let pairs: Vec<(&str, AttributeType)> = attrs.iter().map(|a| (a.name.as_str(), a.attr_type)).collect();
    assert_eq!(
        pairs,
        vec![
            ("b", AttributeType::Boolean),
            ("h", AttributeType::String),
            ("m", AttributeType::Array),
            ("o", AttributeType::Object),
            ("z", AttributeType::Number),
        ]
    );
}

#[test]
fn types_are_sorted_and_extension_types_dropped() {
    let doc = parse(r#"{"CityObjects": {"a": {"type": "Road"}, "b": {"type": "+Noise"}, "c": {"type": "Building"}, "d": {"type": "Road"}}}"#);
    assert_eq!(
        extract_city_object_types_from_data(&doc),
        vec!["Building".to_string(), "Road".to_string()]
    );
}

#[test]
fn crs_from_a_url_string() {
    let doc = parse(r#"{"metadata": {"referenceSystem": "https://www.opengis.net/def/crs/EPSG/0/28992"}}"#);
    assert_eq!(extract_crs_from_data(&doc).epsg, Some(28992));
}

#[test]
fn missing_fields_read_as_defaults() {
    let doc = parse(r#"{"type": "CityJSON"}"#);
    assert_eq!(city_object_count_from_data(&doc), 0);
    assert!(extract_lods_from_data(&doc).is_empty());
    assert!(extract_city_object_types_from_data(&doc).is_empty());
    assert!(extract_attributes_from_data(&doc).is_empty());
}

#[test]
fn cjseq_reader_needs_an_existing_file() {
    let reader = CityJSONSeqReader::new("data/a.city.jsonl", true).unwrap();
    assert_eq!(reader.file_path(), "data/a.city.jsonl");
    assert_eq!(reader.encoding(), "CityJSONSeq");
    match CityJSONSeqReader::new("missing.jsonl", false) {
        Err(CityJsonStacError::IoError(kind, m)) => {
            assert_eq!(kind, IoErrorKind::NotFound);
            assert_eq!(m, "File not found: missing.jsonl");
        }
        _ => panic!("expected an IoError"),
    }
    assert_eq!(AggregatedMetadata::new(), AggregatedMetadata::default());
}

#[test]
fn only_sequences_are_streamable() {
    assert!(ReaderKind::CityJsonSeq.streamable());
    assert!(!ReaderKind::CityJson.streamable());
    assert!(!ReaderKind::Zip.streamable());
    assert!(!ReaderKind::FlatCityBuf.streamable());
    assert!(!ReaderKind::CityGml.streamable());
}

#[test]
fn test_get_reader_unsupported_extension() {
    let result = reader_kind("test.txt");
    assert!(result.is_err());
}

#[test]
fn test_cityjson_reader_not_streamable() {
    let mut temp_file = tempfile::Builder::new().suffix(".json").tempfile().unwrap();
    let cityjson = r#"{
            "type": "CityJSON",
            "version": "2.0",
            "transform": {"scale": [1.0, 1.0, 1.0], "translate": [0, 0, 0]},
            "metadata": {"geographicalExtent": [0, 0, 0, 1, 1, 1]},
            "CityObjects": {},
            "vertices": []
        }"#;
    temp_file.write_all(cityjson.as_bytes()).unwrap();
    let kind = reader_kind(&temp_file.path().to_string_lossy()).unwrap();
    assert!(!kind.streamable());
}

#[test]
fn test_cjseq_reader_streamable() {
    let mut temp_file = tempfile::Builder::new().suffix(".jsonl").tempfile().unwrap();
    let header = r#"{"type":"CityJSON","version":"2.0","transform":{"scale":[1.0,1.0,1.0],"translate":[0,0,0]},"CityObjects":{},"vertices":[],"metadata":{"geographicalExtent":[0,0,0,1,1,1]}}"#;
    let feature = r#"{"type":"CityJSONFeature","id":"b1","CityObjects":{"b1":{"type":"Building","geometry":[]}},"vertices":[]}"#;
    temp_file.write_all(format!("{header}\n{feature}\n").as_bytes()).unwrap();
    temp_file.flush().unwrap();
    let kind = reader_kind(&temp_file.path().to_string_lossy()).unwrap();
    assert!(kind.streamable());
}
