//! Choosing input files by extension.

use cityjson_stac::cli::generate_output_path;
use cityjson_stac::traversal::{filter_by_extensions, is_selected_by_patterns, is_supported_file, matches_pattern};
use std::path::Path;

#[test]
fn test_filter_by_extensions() {
    let files = vec!["file1.json".to_string(), "file2.jsonl".to_string(), "file3.fcb".to_string()];
    let filtered = filter_by_extensions(files, &["json".to_string()]);
    assert_eq!(filtered.len(), 1);

    let files = vec!["file1.json".to_string(), "file2.jsonl".to_string(), "file3.fcb".to_string()];
    let filtered = filter_by_extensions(files, &["json".to_string(), "jsonl".to_string()]);
    assert_eq!(filtered.len(), 2);
}

#[test]
fn filtering_keeps_order_ignores_case_and_drops_files_without_extension() {
    let files = vec![
        "b.json".to_string(),
        "README".to_string(),
        "a.JSON".to_string(),
        "c.json".to_string(),
    ];
    let filtered = filter_by_extensions(files, &["json".to_string()]);
    assert_eq!(filtered, vec!["b.json".to_string(), "a.JSON".to_string(), "c.json".to_string()]);
}

#[test]
fn supported_files() {
    assert!(is_supported_file("data/a.city.json"));
    assert!(is_supported_file("a.jsonl"));
    assert!(is_supported_file("a.fcb"));
    assert!(!is_supported_file("a.txt"));
    assert!(!is_supported_file("noext"));
}

#[test]
fn wildcard_patterns() {
    assert!(matches_pattern("delft.city.json", "*.json"));
    assert!(!matches_pattern("delft.city.jsonl", "*.json"));
    assert!(matches_pattern("a_test_file.json", "*test*"));
    assert!(matches_pattern("abc", "a?c"));
    assert!(!matches_pattern("ac", "a?c"));
    assert!(matches_pattern("", "*"));
    assert!(!matches_pattern("", "?"));
    assert!(matches_pattern("exact", "exact"));
    assert!(!matches_pattern("exact", "exac"));
    assert!(matches_pattern("a*b", "a*b"));
    assert!(matches_pattern("aXXbYYb", "a*b"));
}

#[test]
fn include_and_exclude_patterns() {
    let none: Vec<String> = vec![];
    let json = vec!["*.json".to_string()];
    let tests = vec!["*test*".to_string()];
    assert!(is_selected_by_patterns("data/delft.json", &none, &none));
    assert!(is_selected_by_patterns("data/delft.json", &json, &none));
    assert!(!is_selected_by_patterns("data/delft.jsonl", &json, &none));
    assert!(!is_selected_by_patterns("data/delft_test.json", &json, &tests));
    // A pattern may also match the whole path.
    assert!(is_selected_by_patterns("data/delft.jsonl", &vec!["data/*".to_string()], &none));
}

#[test]
fn test_generate_item_output_path() {
    let input = Path::new("/data/buildings/delft.city.json");
    let output_dir = Path::new("/output/stac");
    let result = generate_output_path(&input.to_string_lossy(), &output_dir.to_string_lossy(), "item");
    let result = Path::new(&result);
    assert!(result.to_string_lossy().contains("delft"));
    assert!(result.extension().map(|e| e == "json").unwrap_or(false));
}

#[test]
fn output_paths_are_named_after_the_stem() {
    assert_eq!(generate_output_path("/data/delft.city.json", "/output/stac", "item"), "/output/stac/delft.city_item.json");
    assert_eq!(generate_output_path("a.json", "out/", "collection"), "out/a_collection.json");
    assert_eq!(generate_output_path("a.json", "", "item"), "a_item.json");
}
