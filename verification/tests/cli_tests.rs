//! Folder names, item ids, hrefs and other names the command line derives.

use cityjson_stac::cli::{
    aggregate_collection_id, catalog_description, catalog_id_for, collection_id_for, config_folder_name,
    is_config_file, linked_item_file, local_item_output, remote_item_output,
    asset_href, catalog_child_href, cli_license_override, collection_base_url, data_file_name,
    encoding_suffix, fallback_folder_name, has_stem_collision, item_file_name, item_href, item_id,
    item_link_href, item_stem, media_type_for_encoding, normalize_base_url, require_item_files,
    require_parsed_items, sanitize_folder_name,
};
use cityjson_stac::error::CityJsonStacError;

#[test]
fn test_sanitize_folder_name_basic() {
    assert_eq!(sanitize_folder_name("my-collection"), "my-collection");
    assert_eq!(sanitize_folder_name("my_collection"), "my_collection");
    assert_eq!(sanitize_folder_name("my.collection"), "my.collection");
    assert_eq!(sanitize_folder_name("collection123"), "collection123");
}

#[test]
fn test_sanitize_folder_name_spaces() {
    assert_eq!(sanitize_folder_name("my collection"), "my_collection");
    assert_eq!(sanitize_folder_name("my  collection"), "my__collection");
}

#[test]
fn test_sanitize_folder_name_special_chars() {
    assert_eq!(sanitize_folder_name("my@collection"), "my_collection");
    assert_eq!(sanitize_folder_name("my/collection"), "my_collection");
    assert_eq!(sanitize_folder_name("my\\collection"), "my_collection");
    assert_eq!(sanitize_folder_name("my:collection"), "my_collection");
    assert_eq!(sanitize_folder_name("my*collection"), "my_collection");
    assert_eq!(sanitize_folder_name("my?collection"), "my_collection");
    assert_eq!(sanitize_folder_name("my<collection"), "my_collection");
    assert_eq!(sanitize_folder_name("my>collection"), "my_collection");
    assert_eq!(sanitize_folder_name("my|collection"), "my_collection");
}

#[test]
fn test_sanitize_folder_name_unicode() {
    assert_eq!(sanitize_folder_name("münchen"), "münchen");
    assert_eq!(sanitize_folder_name("東京"), "東京");
    assert_eq!(sanitize_folder_name("hello★world"), "hello_world");
}

#[test]
fn test_sanitize_folder_name_mixed() {
    assert_eq!(sanitize_folder_name("my awesome collection!"), "my_awesome_collection_");
    assert_eq!(sanitize_folder_name("collection (v1.0)"), "collection__v1.0_");
}

#[test]
fn test_fallback_folder_name() {
    assert_eq!(fallback_folder_name("path/to/config.yaml"), "config.yaml");
    assert_eq!(fallback_folder_name("./opendata/vienna-config.yaml"), "vienna-config.yaml");
    assert_eq!(fallback_folder_name("config"), "config");
}

#[test]
fn sanitizing_twice_changes_nothing() {
    for name in ["my awesome collection!", "東京 ★", "a/b\\c", "plain"] {
        let once = sanitize_folder_name(name);
        assert_eq!(sanitize_folder_name(&once), once);
    }
}

#[test]
fn fallback_folder_name_without_a_file_name() {
    assert_eq!(fallback_folder_name(""), "collection");
    assert_eq!(fallback_folder_name("/"), "collection");
    assert_eq!(fallback_folder_name("dir/.."), "collection");
}

#[test]
fn encoding_suffixes_and_media_types() {
    assert_eq!(encoding_suffix("CityJSON"), "_cj");
    assert_eq!(encoding_suffix("CityJSONSeq"), "_cjseq");
    assert_eq!(encoding_suffix("FlatCityBuf"), "_fcb");
    assert_eq!(encoding_suffix("CityGML"), "");
    assert_eq!(media_type_for_encoding("CityJSON"), "application/json");
    assert_eq!(media_type_for_encoding("CityJSONSeq"), "application/json-seq");
    assert_eq!(media_type_for_encoding("FlatCityBuf"), "application/octet-stream");
    assert_eq!(media_type_for_encoding("CityGML"), "application/octet-stream");
}

#[test]
fn item_ids_and_files() {
    assert_eq!(item_stem("data/delft.city.json"), "delft.city");
    assert_eq!(item_stem("/"), "unknown");
    assert_eq!(item_id("delft", "CityJSONSeq", true), "delft_cjseq");
    assert_eq!(item_id("delft", "CityJSONSeq", false), "delft");
    assert_eq!(item_file_name("delft_cj"), "delft_cj_item.json");
    assert_eq!(item_href("delft_cj_item.json"), "./items/delft_cj_item.json");
}

#[test]
fn stem_collisions() {
    let stems = vec!["delft".to_string(), "rotterdam".to_string(), "delft".to_string()];
    assert!(has_stem_collision(&stems, "delft"));
    assert!(!has_stem_collision(&stems, "rotterdam"));
    assert!(!has_stem_collision(&stems, "den_haag"));
}

#[test]
fn base_urls_and_hrefs() {
    assert_eq!(normalize_base_url("https://example.com/data"), "https://example.com/data/");
    assert_eq!(normalize_base_url("https://example.com/data/"), "https://example.com/data/");
    assert_eq!(asset_href(Some("https://example.com/data"), "a.json"), "https://example.com/data/a.json");
    assert_eq!(asset_href(None, "a.json"), "a.json");
    assert_eq!(data_file_name("dir/sub/a.city.json"), "a.city.json");
    assert_eq!(data_file_name("/"), "data");
}

#[test]
fn catalog_and_collection_hrefs() {
    assert_eq!(catalog_child_href(None, "vienna"), "./vienna/collection.json");
    assert_eq!(
        catalog_child_href(Some("https://example.com/stac"), "vienna"),
        "https://example.com/stac/vienna/collection.json"
    );
    assert_eq!(collection_base_url(None, "vienna"), None);
    assert_eq!(
        collection_base_url(Some("https://example.com/stac/"), "vienna"),
        Some("https://example.com/stac/vienna/".to_string())
    );
    assert_eq!(item_link_href(None, "a_item.json"), "./a_item.json");
    assert_eq!(
        item_link_href(Some("https://example.com/c"), "a_item.json"),
        "https://example.com/c/a_item.json"
    );
}

#[test]
fn license_override() {
    assert_eq!(cli_license_override("proprietary"), None);
    assert_eq!(cli_license_override("MIT"), Some("MIT".to_string()));
}

#[test]
fn output_file_names() {
    assert_eq!(local_item_output("data/delft.city.json"), "data/delft.city.item.json");
    assert_eq!(local_item_output("data/delft"), "data/delft.item.json");
    assert_eq!(local_item_output("a/b.json/"), "a/b.item.json");
    assert_eq!(local_item_output(".."), "..");
    assert_eq!(remote_item_output("https://example.com/data/city.json?v=2"), "city.json");
    assert_eq!(remote_item_output("https://example.com/data/a.json.json"), "a.json");
    assert_eq!(remote_item_output("https://example.com/data/archive.zip"), "archive.zip.json");
    assert_eq!(remote_item_output("https://example.com/"), ".json");
}

#[test]
fn default_ids() {
    assert_eq!(collection_id_for(Some("c".to_string()), Some("data/x")), "c");
    assert_eq!(collection_id_for(None, Some("data/vienna")), "vienna");
    assert_eq!(collection_id_for(None, Some("/")), "collection");
    assert_eq!(collection_id_for(None, None), "collection");
    assert_eq!(aggregate_collection_id(None, "out/collection.json"), "collection");
    assert_eq!(aggregate_collection_id(None, "out/vienna.json"), "vienna");
    assert_eq!(aggregate_collection_id(Some("v".to_string()), "out/vienna.json"), "v");
    assert_eq!(catalog_id_for(None, "./catalog_out"), "catalog_out");
    assert_eq!(catalog_id_for(None, "/"), "catalog");
    assert_eq!(catalog_description(None), "Root catalog");
    assert_eq!(catalog_description(Some("d".to_string())), "d");
    assert_eq!(linked_item_file("items/a_item.json", "a"), "a_item.json");
    assert_eq!(linked_item_file("/", "a"), "a.json");
}

#[test]
fn configuration_files_in_catalogs() {
    assert!(is_config_file("cfg/vienna.yaml"));
    assert!(is_config_file("cfg/vienna.yml"));
    assert!(is_config_file("cfg/vienna.toml"));
    assert!(!is_config_file("cfg/vienna.json"));
    assert!(!is_config_file("cfg/vienna"));
    assert_eq!(config_folder_name("cfg/vienna.yaml", Some("Wien 3D".to_string())), "Wien_3D");
    assert_eq!(config_folder_name("cfg/vienna.yaml", None), "vienna.yaml");
}

#[test]
fn update_needs_items() {
    assert!(require_item_files(2).is_ok());
    match require_item_files(0) {
        Err(CityJsonStacError::StacError(m)) => assert_eq!(m, "No STAC item files provided"),
        _ => panic!("expected an error"),
    }
    assert!(require_parsed_items(1).is_ok());
    match require_parsed_items(0) {
        Err(CityJsonStacError::StacError(m)) => assert_eq!(m, "No valid STAC items could be parsed"),
        _ => panic!("expected an error"),
    }
}
