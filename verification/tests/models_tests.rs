//! Links, assets, counts and the STAC catalog.

use cityjson_stac::stac::catalog::{catalog_of_collections, StacCatalog, StacCatalogBuilder};
use cityjson_stac::stac::models::{make_geoparquet_asset, Asset, Checksum, CityObjectsCount, Link, TemporalExtent};

#[test]
fn test_link_creation() {
    let link = Link::new("self", "./item.json").with_type("application/json").with_title("Self link");
    assert_eq!(link.rel, "self");
    assert_eq!(link.href, "./item.json");
    assert_eq!(link.link_type, Some("application/json".to_string()));
    assert_eq!(link.title, Some("Self link".to_string()));
}

#[test]
fn test_asset_creation() {
    let asset = Asset::new("./data.json")
        .with_type("application/json")
        .with_title("Data file")
        .with_roles(vec!["data".to_string()]);
    assert_eq!(asset.href, "./data.json");
    assert_eq!(asset.media_type, Some("application/json".to_string()));
    assert_eq!(asset.title, Some("Data file".to_string()));
    assert_eq!(asset.roles, Some(vec!["data".to_string()]));
}

#[test]
fn test_link_new() {
    let link = Link::new("self", "./item.json");
    assert_eq!(link.rel, "self");
    assert_eq!(link.href, "./item.json");
    assert!(link.link_type.is_none());
    assert!(link.title.is_none());
}

#[test]
fn test_link_with_type() {
    let link = Link::new("self", "./item.json").with_type("application/json");
    assert_eq!(link.link_type, Some("application/json".to_string()));
}

#[test]
fn test_link_with_title() {
    let link = Link::new("item", "./item.json").with_title("Building Item");
    assert_eq!(link.title, Some("Building Item".to_string()));
}

#[test]
fn test_link_builder_chain() {
    let link = Link::new("collection", "./collection.json")
        .with_type("application/json")
        .with_title("Parent Collection");
    assert_eq!(link.rel, "collection");
    assert_eq!(link.link_type, Some("application/json".to_string()));
    assert_eq!(link.title, Some("Parent Collection".to_string()));
}

#[test]
fn test_asset_new() {
    let asset = Asset::new("./data.json");
    assert_eq!(asset.href, "./data.json");
    assert!(asset.media_type.is_none());
    assert!(asset.title.is_none());
    assert!(asset.roles.is_none());
}

#[test]
fn test_asset_with_type() {
    let asset = Asset::new("./data.json").with_type("application/json");
    assert_eq!(asset.media_type, Some("application/json".to_string()));
}

#[test]
fn test_asset_with_title() {
    let asset = Asset::new("./data.json").with_title("CityJSON Data");
    assert_eq!(asset.title, Some("CityJSON Data".to_string()));
}

#[test]
fn test_asset_with_roles() {
    let asset = Asset::new("./data.json").with_roles(vec!["data".to_string()]);
    assert_eq!(asset.roles, Some(vec!["data".to_string()]));
}

#[test]
fn test_asset_builder_chain() {
    let asset = Asset::new("./building.json")
        .with_type("application/json")
        .with_title("Building Data")
        .with_roles(vec!["data".to_string(), "primary".to_string()]);
    assert_eq!(asset.href, "./building.json");
    assert_eq!(asset.media_type, Some("application/json".to_string()));
    assert_eq!(asset.title, Some("Building Data".to_string()));
    assert_eq!(asset.roles, Some(vec!["data".to_string(), "primary".to_string()]));
}

#[test]
fn asset_file_fields() {
    let checksum = Checksum { value: "1220abc".to_string(), namespace: Some("sha256".to_string()) };
    let asset = Asset::new("a").with_file_size(42).with_file_checksum(checksum.clone());
    assert_eq!(asset.file_size, Some(42));
    assert_eq!(asset.file_checksum, Some(checksum));
}

#[test]
fn geoparquet_asset() {
    let asset = make_geoparquet_asset();
    assert_eq!(asset.href, "./items.parquet");
    assert_eq!(asset.media_type, Some("application/vnd.apache.parquet".to_string()));
    assert_eq!(asset.roles, Some(vec!["collection-mirror".to_string()]));
}

#[test]
fn city_object_counts_from_numbers() {
    assert_eq!(CityObjectsCount::from(7u64), CityObjectsCount::Integer(7));
    assert_eq!(
        CityObjectsCount::from((1u64, 5u64, 9u64)),
        CityObjectsCount::Statistics { min: 1, max: 5, total: 9 }
    );
}

#[test]
fn default_temporal_extent_is_open() {
    let t = TemporalExtent::default();
    assert_eq!(t.interval.len(), 1);
    assert_eq!(t.interval[0].len(), 2);
    assert!(t.interval[0][0].is_some());
    assert!(t.interval[0][1].is_none());
}

#[test]
fn test_catalog_builder() {
    let catalog = StacCatalogBuilder::new("cat-id", "cat-desc")
        .title("My Catalog")
        .child_link("./child/collection.json", Some("Child Title".to_string()))
        .self_link("./catalog.json")
        .build();

    assert_eq!(catalog.id, "cat-id");
    assert_eq!(catalog.description, "cat-desc");
    assert_eq!(catalog.title, Some("My Catalog".to_string()));
    assert_eq!(catalog.links.len(), 2);

    let child_link = catalog.links.iter().find(|l| l.rel == "child").unwrap();
    assert_eq!(child_link.href, "./child/collection.json");
    assert_eq!(child_link.title, Some("Child Title".to_string()));
    assert_eq!(child_link.link_type, Some("application/json".to_string()));

    let self_link = catalog.links.iter().find(|l| l.rel == "self").unwrap();
    assert_eq!(self_link.href, "./catalog.json");
}

#[test]
fn test_catalog_serialization() {
    let catalog: StacCatalog = StacCatalogBuilder::new("cat-json", "serialization test").build();
    assert_eq!(catalog.catalog_type, "Catalog");
    assert_eq!(catalog.stac_version, "1.0.0");
    assert_eq!(catalog.id, "cat-json");
    assert_eq!(catalog.description, "serialization test");
    assert!(catalog.stac_extensions.is_empty());
}

#[test]
fn catalog_of_generated_collections() {
    let children = vec![
        ("./a/collection.json".to_string(), "A".to_string()),
        ("https://x/b/collection.json".to_string(), "B".to_string()),
    ];
    let c = catalog_of_collections("cat".to_string(), "Root catalog".to_string(), Some("T".to_string()), &children);
    assert_eq!(c.id, "cat");
    assert_eq!(c.description, "Root catalog");
    assert_eq!(c.title.as_deref(), Some("T"));
    assert_eq!(c.stac_version, "1.0.0");
    let rels: Vec<&str> = c.links.iter().map(|l| l.rel.as_str()).collect();
    assert_eq!(rels, vec!["child", "child", "self", "root"]);
    assert_eq!(c.links[1].href, "https://x/b/collection.json");
    assert_eq!(c.links[1].title.as_deref(), Some("B"));
    assert_eq!(c.links[3].href, "./catalog.json");
    let empty = catalog_of_collections("e".to_string(), "d".to_string(), None, &vec![]);
    assert!(empty.title.is_none());
    assert_eq!(empty.links.len(), 2);
}

#[test]
fn default_temporal_extent_starts_now() {
    let t = TemporalExtent::default();
    assert!(matches!(&t.interval[0][0], Some(s) if s.len() >= 25 && s.ends_with("+00:00")));
    assert!(t.interval[0][1].is_none());
}
