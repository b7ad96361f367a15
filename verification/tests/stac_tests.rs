//! Items, collections and what collections gather from their items.

use cityjson_stac::error::CityJsonStacError;
use cityjson_stac::json::{JsonMember, JsonNumber, JsonValue};
use cityjson_stac::metadata::attributes::{AttributeDefinition, AttributeType};
use cityjson_stac::metadata::crs::CRS;
use cityjson_stac::reader::ModelFacts;
use cityjson_stac::stac::accumulator::{CollectionAccumulator, ItemMetadata, ItemOutcome, Next};
use cityjson_stac::stac::collection::StacCollectionBuilder;
use cityjson_stac::stac::item::StacItemBuilder;
use cityjson_stac::stac::models::{CityObjectsCount, Link, Provider, StacItem};

type Bbox = Vec<f64>;
type Geometry = String;

/// An LOD written as a JSON number where it reads as one, as text otherwise.
fn lod_value(lod: &String) -> JsonValue {
    match lod.parse::<f64>().ok().and_then(serde_json::Number::from_f64) {
        Some(n) => JsonValue::Number(JsonNumber { as_u64: n.as_u64(), as_i64: n.as_i64(), text: n.to_string() }),
        None => JsonValue::String(lod.clone()),
    }
}

fn get<'a>(ms: &'a [JsonMember], key: &str) -> Option<&'a JsonValue> {
    ms.iter().find(|m| m.key == key).map(|m| &m.value)
}

fn text(v: Option<&JsonValue>) -> Option<&str> {
    match v {
        Some(JsonValue::String(s)) => Some(s.as_str()),
        _ => None,
    }
}

fn number_u64(v: Option<&JsonValue>) -> Option<u64> {
    match v {
        Some(JsonValue::Number(n)) => n.as_u64,
        _ => None,
    }
}

fn number_i64(v: Option<&JsonValue>) -> Option<i64> {
    match v {
        Some(JsonValue::Number(n)) => n.as_i64,
        _ => None,
    }
}

fn array(v: Option<&JsonValue>) -> &Vec<JsonValue> {
    match v {
        Some(JsonValue::Array(xs)) => xs,
        _ => panic!("not an array"),
    }
}

fn strings(v: Option<&JsonValue>) -> Vec<String> {
    array(v)
        .iter()
        .map(|x| match x {
            JsonValue::String(s) => s.clone(),
            _ => panic!("not a string"),
        })
        .collect()
}

fn bools(v: Option<&JsonValue>) -> Vec<bool> {
    array(v)
        .iter()
        .map(|x| match x {
            JsonValue::Bool(b) => *b,
            _ => panic!("not a boolean"),
        })
        .collect()
}

fn u64_json(n: u64) -> JsonValue {
    JsonValue::Number(JsonNumber {
        as_u64: Some(n),
        as_i64: if n <= i64::MAX as u64 { Some(n as i64) } else { None },
        text: n.to_string(),
    })
}

fn facts(version: &str, lod: &str, obj_type: &str, count: u64) -> ModelFacts {
    ModelFacts {
        version: Some(version.to_string()),
        city_object_count: Some(count),
        lods: Some(vec![lod.to_string()]),
        city_object_types: Some(vec![obj_type.to_string()]),
        attributes: Some(vec![]),
        semantic_surfaces: Some(false),
        textures: Some(false),
        materials: Some(false),
        crs: Some(CRS::from_epsg(7415)),
    }
}

fn no_facts() -> ModelFacts {
    ModelFacts {
        version: None,
        city_object_count: None,
        lods: None,
        city_object_types: None,
        attributes: None,
        semantic_surfaces: None,
        textures: None,
        materials: None,
        crs: None,
    }
}

// --- Items -----------------------------------------------------------------

#[test]
fn test_item_builder_basic() {
    let item = StacItemBuilder::<Bbox, Geometry>::new("test-item")
        .title("Test Item")
        .description("A test item")
        .build()
        .unwrap();
    assert_eq!(item.id, "test-item");
    assert_eq!(item.stac_version, "1.1.0");
    assert_eq!(text(get(&item.properties, "title")), Some("Test Item"));
}

#[test]
fn test_item_builder_with_cityjson() {
    let f = facts("2.0", "2", "Building", 1);
    let item = StacItemBuilder::<Bbox, Geometry>::new("test-building")
        .cityjson_metadata(&f, lod_value)
        .unwrap()
        .build()
        .unwrap();
    assert_eq!(text(get(&item.properties, "city3d:version")), Some("2.0"));
    assert_eq!(number_u64(get(&item.properties, "city3d:city_objects")), Some(1));
    assert_eq!(number_u64(get(&item.properties, "proj:epsg")), Some(7415));
}

#[test]
fn test_item_builder_from_file() {
    let f = facts("2.0", "2", "Building", 1);
    let located = Some((vec![1.0, 2.0, 0.0, 10.0, 20.0, 30.0], "footprint".to_string()));
    let builder = StacItemBuilder::from_file("/tmp/test.city.json", &f, "CityJSON", located, Some(100), None, lod_value)
        .unwrap();
    let item = builder.build().unwrap();
    assert!(item.bbox.is_some());
    assert!(item.geometry.is_some());
    assert!(item.assets.iter().any(|(k, _)| k == "data"));
}

#[test]
fn item_from_file_fields() {
    let f = facts("2.0", "2.2", "Building", 3);
    let item = StacItemBuilder::<Bbox, Geometry>::from_file(
        "data/delft.city.json",
        &f,
        "CityJSONSeq",
        None,
        Some(2048),
        Some("https://example.com/data"),
        lod_value,
    )
    .unwrap()
    .build()
    .unwrap();
    assert_eq!(item.id, "delft.city");
    assert!(item.bbox.is_none());
    assert_eq!(number_u64(get(&item.properties, "file:size")), Some(2048));
    let (_, asset) = item.assets.iter().find(|(k, _)| k == "data").unwrap();
    assert_eq!(asset.href, "https://example.com/data/delft.city.json");
    assert_eq!(asset.media_type, Some("application/json-seq".to_string()));
    assert_eq!(asset.title, Some("CityJSON data file".to_string()));
    assert_eq!(asset.roles, Some(vec!["data".to_string()]));
    assert_eq!(item.stac_extensions.len(), 3);
    assert!(item.stac_extensions[2].contains("/file/"));
    assert_eq!(text(get(&item.properties, "city3d:encoding")), Some("CityJSONSeq"));
    assert!(item.stac_extensions[0].contains("stac-city3d"));
}

#[test]
fn item_with_a_given_id_keeps_the_data_asset() {
    let f = facts("2.0", "2", "Building", 1);
    let item = StacItemBuilder::<Bbox, Geometry>::from_file_with_id(
        "custom".to_string(),
        "data/delft.city.json",
        &f,
        "CityJSON",
        None,
        Some(10),
        None,
        lod_value,
    )
    .unwrap()
    .build()
    .unwrap();
    assert_eq!(item.id, "custom");
    assert_eq!(text(get(&item.properties, "city3d:encoding")), Some("CityJSON"));
    assert_eq!(number_u64(get(&item.properties, "file:size")), Some(10));
    let (_, asset) = item.assets.iter().find(|(k, _)| k == "data").unwrap();
    assert_eq!(asset.href, "delft.city.json");
    assert!(matches!(get(&item.properties, "datetime"), Some(JsonValue::String(t)) if t.len() >= 25 && t.ends_with("+00:00")));
}

#[test]
fn a_run_that_skips_errors_fails_with_the_number_of_failures() {
    let mut acc: CollectionAccumulator<u32> = CollectionAccumulator::new();
    let outcomes = vec![
        ItemOutcome::Recorded { metadata: 1, href: "./items/a_item.json".to_string(), title: None },
        ItemOutcome::Failed { source: "b.json".to_string(), message: "bad".to_string() },
        ItemOutcome::Failed { source: "c.json".to_string(), message: "worse".to_string() },
    ];
    for o in outcomes {
        assert_eq!(acc.record(o, true), Next::Continue);
    }
    assert_eq!(acc.successful_count(), 1);
    match acc.failure() {
        Some(CityJsonStacError::StacError(m)) => assert_eq!(m, "2 item(s) failed to process"),
        _ => panic!("expected a failure"),
    }
    let mut strict: CollectionAccumulator<u32> = CollectionAccumulator::new();
    let failed = ItemOutcome::Failed { source: "b.json".to_string(), message: "bad".to_string() };
    assert_eq!(strict.record(failed, false), Next::Stop);
    assert!(strict.failure().is_none());
}

#[test]
fn item_id_with_format_suffix() {
    let f = no_facts();
    let b = StacItemBuilder::<Bbox, Geometry>::from_file_with_format_suffix("x/delft.fcb", &f, "FlatCityBuf", None, None, None, lod_value)
        .unwrap();
    assert_eq!(b.id, "delft_fcb");
    let (_, asset) = b.assets.iter().find(|(k, _)| k == "data").unwrap();
    assert_eq!(asset.href, "delft.fcb");
    assert_eq!(asset.media_type, Some("application/octet-stream".to_string()));
    assert!(!b.uses_file_extension);
}

#[test]
fn test_item_builder_with_title_and_description() {
    let item = StacItemBuilder::<Bbox, Geometry>::new("test-id")
        .title("Test Building")
        .description("A test building dataset")
        .property("city3d:encoding", JsonValue::String("CityJSON".to_string()))
        .build()
        .expect("Failed to build item");
    assert_eq!(text(get(&item.properties, "title")), Some("Test Building"));
    assert_eq!(text(get(&item.properties, "description")), Some("A test building dataset"));
}

#[test]
fn test_item_builder_has_datetime() {
    let item = StacItemBuilder::<Bbox, Geometry>::new("test-id")
        .property("city3d:encoding", JsonValue::String("CityJSON".to_string()))
        .build()
        .expect("Failed to build item");
    assert!(get(&item.properties, "datetime").is_some());
}

#[test]
fn test_item_builder_with_data_asset() {
    let item = StacItemBuilder::<Bbox, Geometry>::new("test-id")
        .property("city3d:encoding", JsonValue::String("CityJSON".to_string()))
        .data_asset("./data.json", "application/json")
        .build()
        .expect("Failed to build item");
    let (_, asset) = item.assets.iter().find(|(k, _)| k == "data").unwrap();
    assert_eq!(asset.href, "./data.json");
    assert_eq!(asset.media_type, Some("application/json".to_string()));
}

#[test]
fn test_item_builder_with_links() {
    let item = StacItemBuilder::<Bbox, Geometry>::new("test-id")
        .property("city3d:encoding", JsonValue::String("CityJSON".to_string()))
        .self_link("./item.json")
        .parent_link("../collection.json")
        .build()
        .expect("Failed to build item");
    assert_eq!(item.links.len(), 2);
    assert!(item.links.iter().any(|l| l.rel == "self"));
    assert!(item.links.iter().any(|l| l.rel == "parent"));
}

#[test]
fn test_item_builder_without_cityjson_metadata() {
    let result = StacItemBuilder::<Bbox, Geometry>::new("test-id").build();
    assert!(result.is_ok());
}

#[test]
fn test_item_builder_stac_extensions() {
    let item = StacItemBuilder::<Bbox, Geometry>::new("test-id")
        .property("city3d:encoding", JsonValue::String("CityJSON".to_string()))
        .build()
        .expect("Failed to build item");
    assert!(item.stac_extensions.iter().any(|e| e.contains("stac-city3d")));
    assert!(!item.stac_extensions.iter().any(|e| e.contains("projection")));

    let item = StacItemBuilder::<Bbox, Geometry>::new("test-id")
        .property("city3d:encoding", JsonValue::String("CityJSON".to_string()))
        .property("proj:epsg", u64_json(4326))
        .build()
        .expect("Failed to build item");
    assert!(item.stac_extensions.iter().any(|e| e.contains("stac-city3d")));
    assert!(item.stac_extensions.iter().any(|e| e.contains("projection")));
}

#[test]
fn setting_a_property_twice_keeps_one_entry() {
    let item = StacItemBuilder::<Bbox, Geometry>::new("x")
        .title("a")
        .title("b")
        .datetime("2024-01-01T00:00:00Z".to_string())
        .build()
        .unwrap();
    assert_eq!(item.properties.iter().filter(|m| m.key == "title").count(), 1);
    assert_eq!(text(get(&item.properties, "title")), Some("b"));
    assert_eq!(text(get(&item.properties, "datetime")), Some("2024-01-01T00:00:00Z"));
}

#[test]
fn cityjson_metadata_writes_facts_the_reader_has() {
    let mut f = facts("1.1", "2.2", "Building", 5);
    f.lods = Some(vec!["1".to_string(), "2.2".to_string(), "x".to_string()]);
    f.city_object_types = Some(vec![]);
    f.attributes = Some(vec![AttributeDefinition::new("height", AttributeType::Number)]);
    f.textures = Some(true);
    f.materials = Some(false);
    f.semantic_surfaces = None;
    f.crs = Some(CRS { epsg: None, wkt2: None, proj4: None, authority: None, identifier: None });
    let b = StacItemBuilder::<Bbox, Geometry>::new("x").cityjson_metadata(&f, lod_value).unwrap();
    let lods = array(get(&b.properties, "city3d:lods"));
    assert_eq!(lods.len(), 3);
    assert!(matches!(&lods[0], JsonValue::Number(n) if n.text == "1.0"));
    assert!(matches!(&lods[1], JsonValue::Number(n) if n.text == "2.2"));
    assert!(matches!(&lods[2], JsonValue::String(s) if s == "x"));
    assert!(get(&b.properties, "city3d:co_types").is_none());
    match get(&b.properties, "city3d:attributes") {
        Some(JsonValue::Array(xs)) => match &xs[0] {
            JsonValue::Object(ms) => {
                assert_eq!(text(get(ms, "name")), Some("height"));
                assert_eq!(text(get(ms, "type")), Some("number"));
            }
            _ => panic!("not an object"),
        },
        _ => panic!("no attributes"),
    }
    assert_eq!(get(&b.properties, "city3d:textures"), Some(&JsonValue::Bool(true)));
    assert!(get(&b.properties, "city3d:materials").is_none());
    assert!(get(&b.properties, "city3d:semantic_surfaces").is_none());
    assert!(get(&b.properties, "proj:epsg").is_none());
    assert!(get(&b.properties, "datetime").is_some());
}

#[test]
fn test_geometry_from_bbox() {
    // The footprint is computed by the caller and carried by the builder.
    let item = StacItemBuilder::<Bbox, Geometry>::new("test")
        .bbox(vec![0.0, 0.0, 0.0, 10.0, 10.0, 10.0])
        .geometry("Polygon".to_string())
        .build()
        .unwrap();
    assert!(item.geometry.is_some());
    assert_eq!(item.geometry.unwrap(), "Polygon");
}

// --- Collections -------------------------------------------------------------

#[test]
fn test_collection_builder_basic() {
    let collection = StacCollectionBuilder::new("test-collection")
        .title("Test Collection")
        .description("A test collection")
        .license("CC-BY-4.0")
        .spatial_extent(vec![0.0, 0.0, 0.0, 10.0, 10.0, 10.0])
        .build()
        .unwrap();
    assert_eq!(collection.id, "test-collection");
    assert_eq!(collection.title, Some("Test Collection".to_string()));
    assert_eq!(collection.license, "CC-BY-4.0");
    assert!(!collection.extent.spatial.bbox.is_empty());
}

#[test]
fn test_collection_builder_new() {
    let bbox: Bbox = vec![0.0, 0.0, 0.0, 10.0, 10.0, 10.0];
    let collection = StacCollectionBuilder::new("test-collection")
        .spatial_extent(bbox)
        .build()
        .expect("Failed to build collection");
    assert_eq!(collection.id, "test-collection");
    assert_eq!(collection.stac_version, "1.0.0");
    assert_eq!(collection.collection_type, "Collection");
}

#[test]
fn test_collection_builder_with_title_description() {
    let bbox: Bbox = vec![0.0, 0.0, 0.0, 10.0, 10.0, 10.0];
    let collection = StacCollectionBuilder::new("test")
        .title("Test Collection")
        .description("A test collection of CityJSON files")
        .spatial_extent(bbox)
        .build()
        .expect("Failed to build collection");
    assert_eq!(collection.title, Some("Test Collection".to_string()));
    assert_eq!(collection.description, Some("A test collection of CityJSON files".to_string()));
}

#[test]
fn test_collection_builder_with_license() {
    let bbox: Bbox = vec![0.0, 0.0, 0.0, 10.0, 10.0, 10.0];
    let collection = StacCollectionBuilder::new("test")
        .license("CC-BY-4.0")
        .spatial_extent(bbox)
        .build()
        .expect("Failed to build collection");
    assert_eq!(collection.license, "CC-BY-4.0");
}

#[test]
fn test_collection_builder_with_summary() {
    let bbox: Bbox = vec![0.0, 0.0, 0.0, 10.0, 10.0, 10.0];
    let lods = JsonValue::Array(vec![
        JsonValue::String("1".to_string()),
        JsonValue::String("2".to_string()),
        JsonValue::String("2.2".to_string()),
    ]);
    let collection = StacCollectionBuilder::new("test")
        .summary("city3d:lods", lods)
        .spatial_extent(bbox)
        .build()
        .expect("Failed to build collection");
    assert!(collection.summaries.is_some());
    let summaries = collection.summaries.unwrap();
    assert!(summaries.iter().any(|m| m.key == "city3d:lods"));
}

#[test]
fn test_collection_aggregate_metadata() {
    let readers = vec![facts("2.0", "2", "Building", 1), facts("2.0", "3", "Road", 1)];
    let collection = StacCollectionBuilder::new("test")
        .aggregate_cityjson_metadata(&readers, Some(vec![0.0, 0.0, 0.0, 1.0, 1.0, 1.0]), lod_value)
        .unwrap()
        .build()
        .unwrap();
    let summaries = collection.summaries.unwrap();
    assert_eq!(array(get(&summaries, "city3d:lods")).len(), 2);
    assert_eq!(array(get(&summaries, "city3d:co_types")).len(), 2);
    match get(&summaries, "city3d:city_objects") {
        Some(JsonValue::Object(stats)) => {
            assert_eq!(number_u64(get(stats, "total")), Some(2));
            assert_eq!(number_u64(get(stats, "min")), Some(1));
            assert_eq!(number_u64(get(stats, "max")), Some(1));
        }
        _ => panic!("no statistics"),
    }
}

#[test]
fn test_collection_temporal_extent() {
    let collection = StacCollectionBuilder::new("test")
        .spatial_extent(vec![0.0, 0.0, 0.0, 10.0, 10.0, 10.0])
        .temporal_extent(Some("2024-05-01T00:00:00+00:00".to_string()), None)
        .build()
        .unwrap();
    assert!(!collection.extent.temporal.interval.is_empty());
    assert_eq!(collection.extent.temporal.interval.len(), 1);
}

#[test]
fn test_collection_builder_requires_spatial_extent() {
    let result = StacCollectionBuilder::<Bbox>::new("test").build();
    assert!(result.is_err());
    let err = result.unwrap_err().to_string();
    assert!(err.contains("Spatial extent"));
}

#[test]
fn missing_extent_error() {
    match StacCollectionBuilder::<Bbox>::new("test").build() {
        Err(CityJsonStacError::StacError(m)) => assert_eq!(m, "Spatial extent bbox is required"),
        _ => panic!("expected a STAC error"),
    }
}

#[test]
fn test_collection_builder_with_keywords() {
    let collection = StacCollectionBuilder::new("test")
        .keywords(vec!["3D".to_string(), "buildings".to_string(), "CityJSON".to_string()])
        .spatial_extent(vec![0.0, 0.0, 0.0, 10.0, 10.0, 10.0])
        .build()
        .expect("Failed to build collection");
    let kw = collection.keywords.unwrap();
    assert_eq!(kw.len(), 3);
    assert!(kw.contains(&"CityJSON".to_string()));
}

#[test]
fn test_collection_builder_with_links() {
    let collection = StacCollectionBuilder::new("test")
        .spatial_extent(vec![0.0, 0.0, 0.0, 10.0, 10.0, 10.0])
        .self_link("./collection.json")
        .item_link("./items/item1.json", Some("Item 1".to_string()))
        .build()
        .expect("Failed to build collection");
    assert_eq!(collection.links.len(), 2);
    assert_eq!(collection.links[1].title, Some("Item 1".to_string()));
}

#[test]
fn collection_defaults_and_extensions() {
    let c = StacCollectionBuilder::new("c").spatial_extent(vec![0.0, 0.0, 1.0, 1.0]).build().unwrap();
    assert_eq!(c.stac_version, "1.0.0");
    assert_eq!(c.collection_type, "Collection");
    assert_eq!(c.license, "proprietary");
    assert!(c.summaries.is_none());
    assert!(c.assets.is_none());
    assert!(c.item_assets.is_none());
    assert_eq!(
        c.stac_extensions,
        vec![
            "https://cityjson.github.io/stac-city3d/v0.1.0/schema.json".to_string(),
            "https://stac-extensions.github.io/file/v2.1.0/schema.json".to_string(),
        ]
    );
}

#[test]
fn collection_with_version_summary_gets_item_assets() {
    let c = StacCollectionBuilder::new("c")
        .summary("city3d:version", JsonValue::Array(vec![JsonValue::String("2.0".to_string())]))
        .summary("proj:code", JsonValue::Array(vec![]))
        .summary("city3d:city_objects", u64_json(1))
        .spatial_extent(vec![0.0, 0.0, 1.0, 1.0])
        .build()
        .unwrap();
    assert_eq!(c.stac_extensions.len(), 5);
    assert!(c.stac_extensions[1].contains("projection"));
    assert!(c.stac_extensions[2].contains("stats"));
    assert!(c.stac_extensions[3].contains("item-assets"));
    let ia = c.item_assets.unwrap();
    match get(&ia, "data") {
        Some(JsonValue::Object(fields)) => {
            assert_eq!(text(get(fields, "title")), Some("3D City Model data file"));
            assert_eq!(strings(get(fields, "roles")), vec!["data".to_string()]);
        }
        _ => panic!("no data template"),
    }
}

#[test]
fn providers_accumulate() {
    let p = |n: &str| Provider { name: n.to_string(), description: None, roles: None, url: None };
    let c = StacCollectionBuilder::new("c")
        .provider(p("a"))
        .provider(p("b"))
        .asset("thumb", cityjson_stac::stac::models::Asset::new("t.png"))
        .spatial_extent(vec![0.0, 0.0, 1.0, 1.0])
        .build()
        .unwrap();
    let names: Vec<String> = c.providers.unwrap().into_iter().map(|p| p.name).collect();
    assert_eq!(names, vec!["a".to_string(), "b".to_string()]);
    assert_eq!(c.assets.unwrap().len(), 1);
}

fn metadata(id: &str, version: Option<&str>, lods: &[&str], types: &[&str], count: Option<CityObjectsCount>, textures: Option<bool>) -> ItemMetadata<Bbox> {
    ItemMetadata {
        id: id.to_string(),
        bbox: None,
        city3d_version: version.map(|v| v.to_string()),
        city3d_city_objects: count,
        city3d_lods: Some(lods.iter().map(|s| s.to_string()).collect()),
        city3d_co_types: Some(types.iter().map(|s| s.to_string()).collect()),
        city3d_attributes: None,
        city3d_semantic_surfaces: None,
        city3d_textures: textures,
        city3d_materials: None,
        proj_code: None,
    }
}

#[test]
fn aggregate_from_metadata_summaries() {
    let ms = vec![
        metadata("a", Some("2.0"), &["2", "1"], &["Road", "Building"], Some(CityObjectsCount::Integer(5)), Some(true)),
        metadata("b", Some("1.1"), &["1", "3"], &["Building"], Some(CityObjectsCount::Statistics { min: 1, max: 4, total: 7 }), Some(false)),
        metadata("c", Some("2.0"), &[], &["Bridge"], None, Some(true)),
    ];
    let b = StacCollectionBuilder::new("c")
        .aggregate_from_metadata(&ms, Some(vec![0.0, 0.0, 1.0, 1.0]), lod_value)
        .unwrap();
    assert_eq!(strings(get(&b.summaries, "city3d:version")), vec!["2.0".to_string(), "1.1".to_string()]);
    let lods: Vec<String> = array(get(&b.summaries, "city3d:lods"))
        .iter()
        .map(|v| match v {
            JsonValue::Number(n) => n.text.clone(),
            _ => panic!(),
        })
        .collect();
    assert_eq!(lods, vec!["2.0".to_string(), "1.0".to_string(), "3.0".to_string()]);
    assert_eq!(
        strings(get(&b.summaries, "city3d:co_types")),
        vec!["Bridge".to_string(), "Building".to_string(), "Road".to_string()]
    );
    match get(&b.summaries, "city3d:city_objects") {
        Some(JsonValue::Object(stats)) => {
            assert_eq!(number_u64(get(stats, "min")), Some(5));
            assert_eq!(number_u64(get(stats, "max")), Some(7));
            assert_eq!(number_u64(get(stats, "total")), Some(12));
        }
        _ => panic!("no statistics"),
    }
    assert_eq!(bools(get(&b.summaries, "city3d:textures")), vec![false, true]);
    assert!(get(&b.summaries, "city3d:materials").is_none());
    assert!(get(&b.summaries, "proj:code").is_none());
    assert_eq!(b.extent.spatial.bbox.len(), 1);
}

#[test]
fn aggregate_from_no_metadata_writes_nothing() {
    let ms: Vec<ItemMetadata<Bbox>> = vec![];
    let b = StacCollectionBuilder::new("c").aggregate_from_metadata(&ms, None, lod_value).unwrap();
    assert!(b.summaries.is_empty());
    assert!(b.extent.spatial.bbox.is_empty());
    assert!(b.build().is_err());
}

#[test]
fn aggregate_cityjson_metadata_proj_codes_sorted() {
    let mut a = facts("2.0", "2", "Building", 1);
    a.crs = Some(CRS::from_epsg(7415));
    let mut b = facts("2.0", "2", "Building", 2);
    b.crs = Some(CRS::from_epsg(28992));
    let mut c = facts("2.0", "2", "Building", 3);
    c.crs = Some(CRS::from_epsg(7415));
    let readers = vec![a, b, c, no_facts()];
    let builder = StacCollectionBuilder::<Bbox>::new("x").aggregate_cityjson_metadata(&readers, None, lod_value).unwrap();
    assert_eq!(strings(get(&builder.summaries, "proj:code")), vec!["EPSG:28992".to_string(), "EPSG:7415".to_string()]);
    assert_eq!(bools(get(&builder.summaries, "city3d:semantic_surfaces")), vec![false]);
}

fn stac_item(id: &str, lods: Vec<JsonValue>, co_types: &[&str], city_objects: i64, proj: Option<&str>, bbox: Option<Bbox>) -> StacItem<Bbox, Geometry> {
    let mut properties = vec![
        JsonMember { key: "datetime".to_string(), value: JsonValue::String("2024-01-01T00:00:00Z".to_string()) },
        JsonMember { key: "city3d:version".to_string(), value: JsonValue::String("2.0".to_string()) },
        JsonMember {
            key: "city3d:city_objects".to_string(),
            value: JsonValue::Number(JsonNumber {
                as_u64: if city_objects >= 0 { Some(city_objects as u64) } else { None },
                as_i64: Some(city_objects),
                text: city_objects.to_string(),
            }),
        },
    ];
    if !lods.is_empty() {
        properties.push(JsonMember { key: "city3d:lods".to_string(), value: JsonValue::Array(lods) });
    }
    if !co_types.is_empty() {
        properties.push(JsonMember {
            key: "city3d:co_types".to_string(),
            value: JsonValue::Array(co_types.iter().map(|t| JsonValue::String(t.to_string())).collect()),
        });
    }
    if let Some(p) = proj {
        properties.push(JsonMember { key: "proj:code".to_string(), value: JsonValue::String(p.to_string()) });
    }
    StacItem {
        stac_version: "1.1.0".to_string(),
        stac_extensions: vec![],
        item_type: "Feature".to_string(),
        id: id.to_string(),
        bbox,
        geometry: None,
        properties,
        assets: vec![],
        links: vec![],
    }
}

fn lod_numbers(lods: &[&str]) -> Vec<JsonValue> {
    lods.iter().map(|l| lod_value(&l.to_string())).collect()
}

/// A test item as the aggregation tests write it: encoding, version,
/// city-object count, the LODs and types as strings, and `proj:epsg`.
fn create_test_stac_item(
    id: &str,
    encoding: &str,
    lods: Vec<&str>,
    co_types: Vec<&str>,
    city_objects: i64,
    epsg: Option<i64>,
    bbox: Option<Vec<f64>>,
) -> StacItem<Bbox, Geometry> {
    let number = |n: i64| {
        JsonValue::Number(JsonNumber {
            as_u64: if n >= 0 { Some(n as u64) } else { None },
            as_i64: Some(n),
            text: n.to_string(),
        })
    };
    let strings_of = |xs: Vec<&str>| JsonValue::Array(xs.iter().map(|x| JsonValue::String(x.to_string())).collect());
    let mut properties = vec![
        JsonMember { key: "datetime".to_string(), value: JsonValue::String("2024-01-01T00:00:00Z".to_string()) },
        JsonMember { key: "city3d:encoding".to_string(), value: JsonValue::String(encoding.to_string()) },
        JsonMember { key: "city3d:version".to_string(), value: JsonValue::String("2.0".to_string()) },
        JsonMember { key: "city3d:city_objects".to_string(), value: number(city_objects) },
    ];
    if !lods.is_empty() {
        properties.push(JsonMember { key: "city3d:lods".to_string(), value: strings_of(lods) });
    }
    if !co_types.is_empty() {
        properties.push(JsonMember { key: "city3d:co_types".to_string(), value: strings_of(co_types) });
    }
    if let Some(code) = epsg {
        properties.push(JsonMember { key: "proj:epsg".to_string(), value: number(code) });
    }
    StacItem {
        stac_version: "1.0.0".to_string(),
        stac_extensions: vec![],
        item_type: "Feature".to_string(),
        id: id.to_string(),
        bbox,
        geometry: None,
        properties,
        assets: vec![],
        links: vec![],
    }
}

/// The union of the items' boxes, a 2D box (four numbers) read with zero
/// heights: what the command line passes as the merged bounding box.
fn merged_bbox(items: &[StacItem<Bbox, Geometry>]) -> Option<Bbox> {
    let mut acc: Option<[f64; 6]> = None;
    for item in items {
        let b = match &item.bbox {
            Some(v) if v.len() == 6 => [v[0], v[1], v[2], v[3], v[4], v[5]],
            Some(v) if v.len() >= 4 => [v[0], v[1], 0.0, v[2], v[3], 0.0],
            _ => continue,
        };
        acc = Some(match acc {
            None => b,
            Some(a) => [a[0].min(b[0]), a[1].min(b[1]), a[2].min(b[2]), a[3].max(b[3]), a[4].max(b[4]), a[5].max(b[5])],
        });
    }
    acc.map(|a| a.to_vec())
}

#[test]
fn test_aggregate_from_single_item() {
    let item = create_test_stac_item(
        "test-item",
        "CityJSON",
        vec!["2"],
        vec!["Building"],
        100,
        Some(7415),
        Some(vec![0.0, 0.0, 0.0, 10.0, 10.0, 10.0]),
    );
    let items = vec![item];
    let collection = StacCollectionBuilder::new("test")
        .aggregate_from_items(&items, merged_bbox(&items))
        .expect("Failed to aggregate")
        .build()
        .expect("Failed to build collection");
    assert!(!collection.extent.spatial.bbox.is_empty());
}

#[test]
fn test_aggregate_from_multiple_items() {
    let item1 = create_test_stac_item(
        "building-item",
        "CityJSON",
        vec!["2", "2.2"],
        vec!["Building", "BuildingPart"],
        50,
        Some(7415),
        Some(vec![0.0, 0.0, 0.0, 10.0, 10.0, 10.0]),
    );
    let item2 = create_test_stac_item(
        "railway-item",
        "CityJSONSeq",
        vec!["1", "3"],
        vec!["Railway", "Bridge"],
        150,
        Some(4326),
        Some(vec![10.0, 5.0, -5.0, 20.0, 15.0, 20.0]),
    );
    let items = vec![item1, item2];
    let collection = StacCollectionBuilder::new("test")
        .aggregate_from_items(&items, merged_bbox(&items))
        .expect("Failed to aggregate")
        .build()
        .expect("Failed to build collection");
    let summaries = collection.summaries.unwrap();

    let lods = array(get(&summaries, "city3d:lods"));
    assert!(lods.len() >= 4);

    let types = array(get(&summaries, "city3d:co_types"));
    assert!(types.len() >= 4);

    match get(&summaries, "city3d:city_objects") {
        Some(JsonValue::Object(stats)) => {
            assert_eq!(number_i64(get(stats, "min")), Some(50));
            assert_eq!(number_i64(get(stats, "max")), Some(150));
            assert_eq!(number_i64(get(stats, "total")), Some(200));
        }
        _ => panic!("no statistics"),
    }

    let epsg = array(get(&summaries, "proj:epsg"));
    assert_eq!(epsg.len(), 2);

    let bbox = &collection.extent.spatial.bbox[0];
    assert_eq!(bbox[0], 0.0);
    assert_eq!(bbox[3], 20.0);
}

#[test]
fn test_aggregate_handles_2d_bbox() {
    let item = create_test_stac_item("test-item", "CityJSON", vec![], vec![], 10, None, Some(vec![0.0, 0.0, 10.0, 10.0]));
    let items = vec![item];
    let collection = StacCollectionBuilder::new("test")
        .aggregate_from_items(&items, merged_bbox(&items))
        .expect("Failed to aggregate")
        .build()
        .expect("Failed to build collection");
    assert!(!collection.extent.spatial.bbox.is_empty());
}

#[test]
fn items_summary_codes_and_exact_statistics() {
    let a = stac_item("a", lod_numbers(&["2"]), &["Building"], 5, Some("EPSG:7415"), None);
    let b = stac_item("b", lod_numbers(&["2"]), &["Road"], 7, Some("EPSG:4326"), None);
    let mut c = create_test_stac_item("c", "CityJSON", vec![], vec![], 1, Some(7415), None);
    c.properties.push(JsonMember { key: "proj:code".to_string(), value: JsonValue::String("EPSG:7415".to_string()) });
    let d = create_test_stac_item("d", "CityJSON", vec![], vec![], 2, Some(28992), None);
    let built = StacCollectionBuilder::new("x").aggregate_from_items(&vec![a, b, c, d], None).unwrap();
    assert_eq!(strings(get(&built.summaries, "proj:code")), vec!["EPSG:4326", "EPSG:7415"]);
    let codes: Vec<Option<i64>> = array(get(&built.summaries, "proj:epsg")).iter().map(|v| number_i64(Some(v))).collect();
    assert_eq!(codes, vec![Some(7415), Some(28992)]);
    match get(&built.summaries, "city3d:city_objects") {
        Some(JsonValue::Object(stats)) => {
            let keys: Vec<&str> = stats.iter().map(|m| m.key.as_str()).collect();
            assert_eq!(keys, vec!["min", "max", "total"]);
            assert_eq!(number_i64(get(stats, "total")), Some(15));
        }
        _ => panic!("no statistics"),
    }
}

#[test]
fn test_aggregate_handles_missing_properties() {
    let item: StacItem<Bbox, Geometry> = StacItem {
        stac_version: "1.0.0".to_string(),
        stac_extensions: vec![],
        item_type: "Feature".to_string(),
        id: "minimal-item".to_string(),
        bbox: Some(vec![0.0, 0.0, 0.0, 10.0, 10.0, 10.0]),
        geometry: None,
        properties: vec![
            JsonMember { key: "datetime".to_string(), value: JsonValue::String("2024-01-01T00:00:00Z".to_string()) },
            JsonMember { key: "city3d:encoding".to_string(), value: JsonValue::String("CityJSON".to_string()) },
        ],
        assets: vec![],
        links: vec![],
    };
    let merged = item.bbox.clone();
    let collection = StacCollectionBuilder::new("test")
        .aggregate_from_items(&vec![item], merged)
        .expect("Failed to aggregate")
        .build()
        .expect("Failed to build collection");
    assert!(!collection.extent.spatial.bbox.is_empty());
    assert!(collection.summaries.is_none());
}

#[test]
fn lods_from_items_are_distinct_documents() {
    let item1 = stac_item("a", vec![JsonValue::String("2".to_string()), lod_value(&"2".to_string())], &[], 1, None, None);
    let item2 = stac_item("b", vec![lod_value(&"2".to_string()), JsonValue::String("2".to_string())], &[], 2, None, None);
    let b = StacCollectionBuilder::new("c").aggregate_from_items(&vec![item1, item2], None).unwrap();
    let lods = array(get(&b.summaries, "city3d:lods"));
    assert_eq!(lods.len(), 2);
    assert!(matches!(&lods[0], JsonValue::String(s) if s == "2"));
    assert!(matches!(&lods[1], JsonValue::Number(n) if n.text == "2.0"));
}

// --- Item metadata and the accumulator ---------------------------------------

fn metadata_item() -> StacItem<Bbox, Geometry> {
    StacItem {
        stac_version: "1.1.0".to_string(),
        stac_extensions: vec![],
        item_type: "Feature".to_string(),
        id: "test-item".to_string(),
        bbox: Some(vec![0.0, 0.0, 0.0, 10.0, 10.0, 10.0]),
        geometry: None,
        properties: vec![
            JsonMember { key: "city3d:version".to_string(), value: JsonValue::String("2.0".to_string()) },
            JsonMember { key: "city3d:city_objects".to_string(), value: u64_json(42) },
            JsonMember {
                key: "city3d:lods".to_string(),
                value: JsonValue::Array(vec![JsonValue::String("LOD1".to_string()), JsonValue::String("LOD2".to_string())]),
            },
            JsonMember {
                key: "city3d:co_types".to_string(),
                value: JsonValue::Array(vec![JsonValue::String("Building".to_string())]),
            },
            JsonMember { key: "city3d:textures".to_string(), value: JsonValue::Bool(true) },
            JsonMember { key: "city3d:materials".to_string(), value: JsonValue::Bool(false) },
            JsonMember { key: "city3d:semantic_surfaces".to_string(), value: JsonValue::Bool(true) },
        ],
        assets: vec![("data".to_string(), cityjson_stac::stac::models::Asset::new("./data.json"))],
        links: vec![Link::new("self", "./item.json")],
    }
}

#[test]
fn test_item_metadata_from_item() {
    let item = metadata_item();
    let metadata = ItemMetadata::from_item(&item);
    assert_eq!(metadata.id, "test-item");
    assert_eq!(metadata.bbox, Some(vec![0.0, 0.0, 0.0, 10.0, 10.0, 10.0]));
    assert_eq!(metadata.city3d_version, Some("2.0".to_string()));
    assert_eq!(metadata.city3d_city_objects, Some(CityObjectsCount::Integer(42)));
    assert_eq!(metadata.city3d_lods, Some(vec!["LOD1".to_string(), "LOD2".to_string()]));
    assert_eq!(metadata.city3d_co_types, Some(vec!["Building".to_string()]));
    assert_eq!(metadata.city3d_textures, Some(true));
    assert_eq!(metadata.city3d_materials, Some(false));
    assert_eq!(metadata.city3d_semantic_surfaces, Some(true));
}

#[test]
fn item_metadata_reads_numbers_statistics_and_attributes() {
    let mut item = metadata_item();
    item.properties = vec![
        JsonMember {
            key: "city3d:lods".to_string(),
            value: JsonValue::Array(vec![u64_json(2), JsonValue::Bool(true), JsonValue::String("3".to_string())]),
        },
        JsonMember {
            key: "city3d:city_objects".to_string(),
            value: JsonValue::Object(vec![
                JsonMember { key: "min".to_string(), value: u64_json(1) },
                JsonMember { key: "max".to_string(), value: u64_json(9) },
                JsonMember { key: "total".to_string(), value: u64_json(20) },
            ]),
        },
        JsonMember {
            key: "city3d:attributes".to_string(),
            value: JsonValue::Array(vec![
                JsonValue::Object(vec![
                    JsonMember { key: "name".to_string(), value: JsonValue::String("h".to_string()) },
                    JsonMember { key: "type".to_string(), value: JsonValue::String("number".to_string()) },
                ]),
                JsonValue::Object(vec![JsonMember { key: "name".to_string(), value: JsonValue::String("bad".to_string()) }]),
                JsonValue::Array(vec![JsonValue::String("f".to_string()), JsonValue::String("string".to_string())]),
            ]),
        },
        JsonMember { key: "proj:code".to_string(), value: JsonValue::String("EPSG:7415".to_string()) },
        JsonMember { key: "city3d:version".to_string(), value: u64_json(2) },
    ];
    item.bbox = None;
    let m = ItemMetadata::from_item(&item);
    assert_eq!(m.city3d_lods, Some(vec!["2".to_string(), "3".to_string()]));
    assert_eq!(m.city3d_city_objects, Some(CityObjectsCount::Statistics { min: 1, max: 9, total: 20 }));
    assert_eq!(
        m.city3d_attributes,
        Some(vec![
            AttributeDefinition::new("h", AttributeType::Number),
            AttributeDefinition::new("f", AttributeType::String),
        ])
    );
    assert_eq!(m.proj_code, Some("EPSG:7415".to_string()));
    assert_eq!(m.city3d_version, None);
    assert_eq!(m.city3d_co_types, None);
    assert_eq!(m.bbox, None);
}

#[test]
fn test_collection_accumulator() {
    let mut accumulator: CollectionAccumulator<ItemMetadata<Bbox>> = CollectionAccumulator::new();
    let item = metadata_item();
    let metadata = ItemMetadata::from_item(&item);
    accumulator.add_item(metadata, "./items/test-item.json".to_string(), Some("test-item".to_string()));
    assert_eq!(accumulator.successful_count(), 1);
    assert_eq!(accumulator.error_count(), 0);
    assert!(!accumulator.has_errors());
    accumulator.add_error("failed.json".to_string(), "Parse error".to_string());
    assert_eq!(accumulator.successful_count(), 1);
    assert_eq!(accumulator.error_count(), 1);
    assert!(accumulator.has_errors());
}

#[test]
fn recording_outcomes() {
    let mut acc: CollectionAccumulator<u8> = CollectionAccumulator::new();
    let next = acc.record(ItemOutcome::Recorded { metadata: 1, href: "./items/a.json".to_string(), title: None }, false);
    assert_eq!(next, Next::Continue);
    let next = acc.record(ItemOutcome::Failed { source: "b".to_string(), message: "bad".to_string() }, true);
    assert_eq!(next, Next::Continue);
    assert_eq!(acc.error_count(), 1);
    let next = acc.record(ItemOutcome::Failed { source: "c".to_string(), message: "bad".to_string() }, false);
    assert_eq!(next, Next::Stop);
    assert_eq!(acc.error_count(), 1);
    assert_eq!(acc.successful_count(), 1);
    match acc.failure() {
        Some(CityJsonStacError::StacError(m)) => assert_eq!(m, "1 item(s) failed to process"),
        _ => panic!("expected a failure"),
    }
    let clean: CollectionAccumulator<u8> = CollectionAccumulator::default();
    assert!(clean.failure().is_none());
}
