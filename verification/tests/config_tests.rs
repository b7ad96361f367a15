//! Collection configuration: providers and merging with the command line.

use cityjson_stac::config::{
    CatalogCliArgs, CatalogConfigFile, CollectionCliArgs, CollectionConfigFile, LinkConfig, ProviderConfig,
};
use cityjson_stac::stac::models::Provider;

#[test]
fn test_provider_conversion() {
    let config = ProviderConfig {
        name: "Test Provider".to_string(),
        url: Some("https://example.com".to_string()),
        roles: Some(vec!["producer".to_string(), "licensor".to_string()]),
        description: Some("A test provider".to_string()),
    };

    let provider: Provider = config.into();

    assert_eq!(provider.name, "Test Provider");
    assert_eq!(provider.url, Some("https://example.com".to_string()));
    assert_eq!(provider.roles, Some(vec!["producer".to_string(), "licensor".to_string()]));
    assert_eq!(provider.description, Some("A test provider".to_string()));
}

#[test]
fn test_config_merge() {
    let file_config: CollectionConfigFile<(), ()> = CollectionConfigFile {
        id: Some("from-file".to_string()),
        title: Some("File Title".to_string()),
        description: Some("File Description".to_string()),
        license: Some("Apache-2.0".to_string()),
        keywords: Some(vec!["tag1".to_string(), "tag2".to_string()]),
        providers: None,
        extent: None,
        summaries: None,
        links: None,
        inputs: None,
    };

    let cli_args = CollectionCliArgs {
        id: Some("from-cli".to_string()),
        title: Some("CLI Title".to_string()),
        description: None,
        license: Some("MIT".to_string()),
    };

    let merged = file_config.merge_with_cli(&cli_args);

    assert_eq!(merged.id, Some("from-cli".to_string()));
    assert_eq!(merged.title, Some("CLI Title".to_string()));
    assert_eq!(merged.license, Some("MIT".to_string()));
    assert_eq!(merged.description, Some("File Description".to_string()));
    assert_eq!(merged.keywords, Some(vec!["tag1".to_string(), "tag2".to_string()]));
}

#[test]
fn merging_without_overrides_keeps_the_file() {
    let file_config: CollectionConfigFile<u8, u8> = CollectionConfigFile {
        id: Some("file".to_string()),
        title: None,
        description: Some("d".to_string()),
        license: None,
        keywords: None,
        providers: None,
        extent: Some(3),
        summaries: Some(4),
        links: Some(vec![LinkConfig {
            rel: "license".to_string(),
            href: "https://example.com/license".to_string(),
            link_type: None,
            title: None,
        }]),
        inputs: Some(vec!["data/".to_string()]),
    };
    let merged = file_config.merge_with_cli(&CollectionCliArgs::default());
    assert_eq!(merged.id, Some("file".to_string()));
    assert_eq!(merged.title, None);
    assert_eq!(merged.description, Some("d".to_string()));
    assert_eq!(merged.license, None);
    assert_eq!(merged.extent, Some(3));
    assert_eq!(merged.summaries, Some(4));
    assert_eq!(merged.links.map(|l| l.len()), Some(1));
    assert_eq!(merged.inputs, Some(vec!["data/".to_string()]));
}

#[test]
fn default_config_is_empty() {
    let config: CollectionConfigFile<(), ()> = CollectionConfigFile::default();
    assert!(config.id.is_none());
    assert!(config.inputs.is_none());
    let args = CollectionCliArgs::default();
    assert!(args.id.is_none() && args.title.is_none() && args.description.is_none() && args.license.is_none());
}

#[test]
fn catalog_config_merge_prefers_cli() {
    let file = CatalogConfigFile {
        id: Some("file-id".to_string()),
        title: Some("File title".to_string()),
        description: None,
        base_url: Some("https://a/".to_string()),
        collections: Some(vec!["x".to_string()]),
    };
    let merged = file.merge_with_cli(&CatalogCliArgs {
        id: Some("cli-id".to_string()),
        title: None,
        description: Some("CLI description".to_string()),
        base_url: None,
    });
    assert_eq!(merged.id.as_deref(), Some("cli-id"));
    assert_eq!(merged.title.as_deref(), Some("File title"));
    assert_eq!(merged.description.as_deref(), Some("CLI description"));
    assert_eq!(merged.base_url.as_deref(), Some("https://a/"));
    assert_eq!(merged.collections, Some(vec!["x".to_string()]));
}

#[test]
fn catalog_config_problems() {
    let empty = CatalogConfigFile::default();
    assert_eq!(
        empty.problems(),
        vec![
            "Missing required field: 'id'",
            "Missing recommended field: 'title'",
            "Missing recommended field: 'description'",
        ]
    );
    let blank = CatalogConfigFile {
        id: Some("  \t".to_string()),
        title: Some("Title".to_string()),
        description: Some("Text".to_string()),
        base_url: None,
        collections: None,
    };
    assert_eq!(blank.problems(), vec!["Missing required field: 'id'"]);
    let complete = CatalogConfigFile { id: Some("cat".to_string()), ..blank };
    assert!(complete.problems().is_empty());
}

#[test]
fn unicode_white_space_is_blank() {
    let c = CatalogConfigFile {
        id: Some("\u{3000}\u{a0}\n".to_string()),
        title: Some("\u{2003}x".to_string()),
        description: Some("\u{200b}".to_string()),
        base_url: None,
        collections: None,
    };
    // U+200B (zero width space) is not white space.
    assert_eq!(c.problems(), vec!["Missing required field: 'id'"]);
}
