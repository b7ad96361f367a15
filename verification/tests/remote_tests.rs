//! Remote URLs: recognising them, their file names and extensions, and S3
//! HTTPS URLs.

use cityjson_stac::error::CityJsonStacError;
use cityjson_stac::remote::{convert_s3_https_url, extract_extension_from_url, is_remote_url, url_filename};

#[test]
fn test_convert_s3_dualstack_url() {
    let url = "https://s3.dualstack.us-east-1.amazonaws.com/mybucket/path/to/file.json";
    let converted = convert_s3_https_url(url).unwrap();
    assert_eq!(converted, "s3://mybucket/path/to/file.json?region=us-east-1");
}

#[test]
fn test_convert_s3_virtual_hosted_url() {
    let url = "https://mybucket.s3.amazonaws.com/path/to/file.json";
    let converted = convert_s3_https_url(url).unwrap();
    assert_eq!(converted, "s3://mybucket/path/to/file.json");
}

#[test]
fn test_convert_s3_virtual_hosted_with_region() {
    let url = "https://mybucket.s3.eu-west-1.amazonaws.com/path/to/file.json";
    let converted = convert_s3_https_url(url).unwrap();
    assert_eq!(converted, "s3://mybucket/path/to/file.json?region=eu-west-1");
}

#[test]
fn test_convert_non_s3_url() {
    let url = "https://example.com/file.json";
    assert!(convert_s3_https_url(url).is_none());
}

#[test]
fn test_extract_extension_from_url() {
    assert_eq!(extract_extension_from_url("https://example.com/file.json").unwrap(), "json");
    assert_eq!(extract_extension_from_url("https://example.com/file.city.json").unwrap(), "json");
    assert_eq!(extract_extension_from_url("https://example.com/file.jsonl?query=1").unwrap(), "jsonl");
    assert_eq!(extract_extension_from_url("https://example.com/data.cjseq").unwrap(), "cjseq");
    assert_eq!(extract_extension_from_url("s3://bucket/path/to/file.fcb").unwrap(), "fcb");
    assert!(extract_extension_from_url("https://example.com/file").is_err());
    assert!(extract_extension_from_url("https://example.com/").is_err());
    assert_eq!(extract_extension_from_url("https://example.com/file.GML").unwrap(), "gml");
    assert_eq!(extract_extension_from_url("https://example.com/file.ZIP").unwrap(), "zip");
    assert_eq!(
        extract_extension_from_url("https://example.com/download?file=data.gml&id=4").unwrap(),
        "gml"
    );
    assert_eq!(
        extract_extension_from_url("https://example.com/index.php?f=hooned_lod2-citygml.zip&page_id=837").unwrap(),
        "zip"
    );
    assert_eq!(
        extract_extension_from_url("https://example.com/massen.php?file=LoD2_data.xml&id=4").unwrap(),
        "xml"
    );
    assert_eq!(
        extract_extension_from_url("https://example.com/s/opendata/download?path=%2F3d&files=city_model.gml").unwrap(),
        "gml"
    );
}

#[test]
fn test_is_remote_url() {
    assert!(is_remote_url("https://example.com/file.json"));
    assert!(is_remote_url("http://example.com/file.json"));
    assert!(is_remote_url("s3://bucket/path/to/file.json"));
    assert!(is_remote_url("az://container/path/to/file.json"));
    assert!(is_remote_url("azure://container/path/to/file.json"));
    assert!(is_remote_url("gs://bucket/path/to/file.json"));
    assert!(!is_remote_url("file.json"));
    assert!(!is_remote_url("/path/to/file.json"));
    assert!(!is_remote_url("./relative/path.json"));
}

#[test]
fn test_url_filename() {
    assert_eq!(url_filename("https://example.com/data/city.json"), "city.json");
    assert_eq!(url_filename("https://example.com/data/building.city.json?v=2"), "building.city.json");
    assert_eq!(url_filename("https://example.com/"), "remote.file");
    assert_eq!(url_filename("http://test.example.org/path/to/file.json"), "file.json");
    assert_eq!(url_filename("s3://my-bucket/path/to/data.cjseq"), "data.cjseq");
    assert_eq!(
        url_filename("https://example.com/s/opendata/download?path=%2F3d&files=city_model.gml"),
        "city_model.gml"
    );
}

#[test]
fn missing_extension_error_names_the_url() {
    match extract_extension_from_url("https://example.com/file") {
        Err(CityJsonStacError::Other(msg)) => {
            assert_eq!(msg, "No file extension found in URL: https://example.com/file")
        }
        other => panic!("unexpected result {:?}", other),
    }
}

#[test]
fn lower_casing_goes_through_unicode() {
    // The extension is lower-cased as `str::to_lowercase` does.
    assert_eq!(extract_extension_from_url("https://example.com/a.JSONL").unwrap(), "jsonl");
    assert_eq!(extract_extension_from_url("https://example.com/a.ÄB").unwrap(), "äb");
}

#[test]
fn s3_path_style_url() {
    assert_eq!(
        convert_s3_https_url("https://s3.eu-west-1.amazonaws.com/mybucket/key.json"),
        Some("s3://mybucket/key.json?region=eu-west-1".to_string())
    );
    assert_eq!(convert_s3_https_url("https://s3.amazonaws.com/mybucket/key.json"), None
    );
}
