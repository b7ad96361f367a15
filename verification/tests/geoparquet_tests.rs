//! The columns of GeoParquet files.

use cityjson_stac::json::{JsonMember, JsonNumber, JsonValue};
use cityjson_stac::stac::geoparquet::{
    cell_of, city3d_type, collect_asset_keys, Cell, collect_property_keys, infer_property_type, infer_type, property_columns,
    ColumnType,
};
use cityjson_stac::stac::models::{Asset, StacItem};

fn num(text: &str, u: Option<u64>, i: Option<i64>) -> JsonValue {
    JsonValue::Number(JsonNumber { as_u64: u, as_i64: i, text: text.to_string() })
}

fn item(id: &str, props: Vec<(&str, JsonValue)>, assets: &[&str]) -> StacItem<Vec<f64>, String> {
    StacItem {
        stac_version: "1.1.0".to_string(),
        stac_extensions: vec![],
        item_type: "Feature".to_string(),
        id: id.to_string(),
        bbox: None,
        geometry: None,
        properties: props.into_iter().map(|(k, v)| JsonMember { key: k.to_string(), value: v }).collect(),
        assets: assets.iter().map(|a| (a.to_string(), Asset::new("x"))).collect(),
        links: vec![],
    }
}

#[test]
fn schema_of_items() {
    let items = vec![
        item("a", vec![("city3d:version", JsonValue::String("2.0".to_string())), ("height", num("12.5", None, None))], &["data"]),
        item("b", vec![("floors", num("3", Some(3), Some(3))), ("height", JsonValue::Null)], &["data", "thumb"]),
    ];
    let keys = collect_property_keys(&items);
    assert_eq!(keys, vec!["city3d:version", "floors", "height"]);
    assert_eq!(collect_asset_keys(&items), vec!["data", "thumb"]);
    let cols = property_columns(&items);
    assert_eq!(cols.len(), 3);
    assert_eq!(cols[0].column_type, ColumnType::Utf8);
    assert_eq!(cols[1].column_type, ColumnType::Int64);
    assert_eq!(cols[2].column_type, ColumnType::Float64);
}

#[test]
fn value_types() {
    assert_eq!(infer_type(&JsonValue::Bool(true)), ColumnType::Boolean);
    assert_eq!(infer_type(&num("-1", None, Some(-1))), ColumnType::Int64);
    assert_eq!(infer_type(&num("0.5", None, None)), ColumnType::Float64);
    assert_eq!(infer_type(&JsonValue::Null), ColumnType::Utf8);
    assert_eq!(
        infer_type(&JsonValue::Array(vec![JsonValue::Null, JsonValue::Bool(false)])),
        ColumnType::List(Box::new(ColumnType::Boolean))
    );
    assert_eq!(infer_type(&JsonValue::Array(vec![JsonValue::Null])), ColumnType::List(Box::new(ColumnType::Utf8)));
    assert_eq!(infer_type(&JsonValue::Object(vec![])), ColumnType::Utf8);
}

#[test]
fn fixed_city3d_types() {
    assert_eq!(city3d_type("city3d:lods"), Some(ColumnType::List(Box::new(ColumnType::Utf8))));
    assert_eq!(city3d_type("city3d:city_objects"), Some(ColumnType::UInt64));
    assert_eq!(city3d_type("proj:code"), Some(ColumnType::Utf8));
    assert_eq!(city3d_type("city3d:textures"), Some(ColumnType::Boolean));
    assert_eq!(city3d_type("height"), None);
    let items = vec![item("a", vec![("city3d:lods", num("2", Some(2), Some(2)))], &[])];
    assert_eq!(infer_property_type("city3d:lods", &items), ColumnType::List(Box::new(ColumnType::Utf8)));
    assert_eq!(infer_property_type("missing", &items), ColumnType::Utf8);
}

#[test]
fn no_items_no_columns() {
    let items: Vec<StacItem<Vec<f64>, String>> = vec![];
    assert!(collect_property_keys(&items).is_empty());
    assert!(collect_asset_keys(&items).is_empty());
    assert!(property_columns(&items).is_empty());
}

#[test]
fn standard_properties_are_not_columns() {
    let items = vec![item(
        "a",
        vec![
            ("datetime", JsonValue::String("2024-01-01T00:00:00Z".to_string())),
            ("title", JsonValue::String("A".to_string())),
            ("description", JsonValue::String("B".to_string())),
            ("created", JsonValue::Null),
            ("updated", JsonValue::Null),
            ("start_datetime", JsonValue::Null),
            ("end_datetime", JsonValue::Null),
            ("city3d:textures", JsonValue::Bool(true)),
        ],
        &[],
    )];
    assert_eq!(collect_property_keys(&items), vec!["city3d:textures"]);
    let cols = property_columns(&items);
    assert_eq!(cols.len(), 1);
    assert_eq!(cols[0].column_type, ColumnType::Boolean);
}

#[test]
fn cells_of_values() {
    let n = || num("7", Some(7), Some(7));
    assert_eq!(cell_of(Some(JsonValue::String("a".to_string())), &ColumnType::Utf8), Cell::Text("a".to_string()));
    assert_eq!(cell_of(Some(JsonValue::Bool(true)), &ColumnType::Utf8), Cell::JsonText(JsonValue::Bool(true)));
    assert_eq!(cell_of(Some(JsonValue::Null), &ColumnType::Utf8), Cell::Null);
    assert_eq!(cell_of(None, &ColumnType::Utf8), Cell::Null);
    assert_eq!(cell_of(Some(n()), &ColumnType::Int64), Cell::Int(7));
    assert_eq!(cell_of(Some(num("-1", None, Some(-1))), &ColumnType::UInt64), Cell::Null);
    assert_eq!(cell_of(Some(n()), &ColumnType::UInt64), Cell::UInt(7));
    assert_eq!(cell_of(Some(num("0.5", None, None)), &ColumnType::Float64), Cell::Float(JsonNumber { as_u64: None, as_i64: None, text: "0.5".to_string() }));
    assert_eq!(cell_of(Some(JsonValue::String("x".to_string())), &ColumnType::Boolean), Cell::Null);
    assert_eq!(cell_of(Some(JsonValue::Bool(false)), &ColumnType::Boolean), Cell::Bool(false));
    let list = ColumnType::List(Box::new(ColumnType::Utf8));
    assert_eq!(
        cell_of(Some(JsonValue::Array(vec![JsonValue::String("2".to_string()), JsonValue::Null, n()])), &list),
        Cell::List(vec![Cell::Text("2".to_string()), Cell::Null, Cell::JsonText(n())])
    );
    assert_eq!(cell_of(Some(n()), &list), Cell::Null);
}
