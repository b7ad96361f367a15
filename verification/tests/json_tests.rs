//! JSON values: member maps, numbers, copies and comparison.

use cityjson_stac::json::{
    bool_array, clone_json, get, has_member, i64_number, json_equal, member, set_member, string_array,
    u64_number, JsonMember, JsonNumber, JsonValue,
};

fn obj(ms: Vec<(&str, JsonValue)>) -> JsonValue {
    JsonValue::Object(ms.into_iter().map(|(k, v)| JsonMember { key: k.to_string(), value: v }).collect())
}

#[test]
fn setting_members_replaces_or_appends() {
    let mut ms: Vec<JsonMember> = Vec::new();
    set_member(&mut ms, "a".to_string(), JsonValue::Bool(true));
    set_member(&mut ms, "b".to_string(), JsonValue::Null);
    set_member(&mut ms, "a".to_string(), JsonValue::Bool(false));
    assert_eq!(ms.len(), 2);
    assert_eq!(member(&ms, "a"), Some(&JsonValue::Bool(false)));
    assert_eq!(member(&ms, "b"), Some(&JsonValue::Null));
    assert!(has_member(&ms, "b"));
    assert!(!has_member(&ms, "c"));
    assert_eq!(member(&ms, "c"), None);
}

#[test]
fn object_lookup() {
    let v = obj(vec![("x", JsonValue::String("1".to_string())), ("y", JsonValue::Null)]);
    assert_eq!(get(&v, "x"), Some(&JsonValue::String("1".to_string())));
    assert_eq!(get(&v, "z"), None);
    assert_eq!(get(&JsonValue::Null, "x"), None);
}

#[test]
fn numbers_carry_their_text() {
    match u64_number(18446744073709551615) {
        JsonValue::Number(n) => {
            assert_eq!(n.text, "18446744073709551615");
            assert_eq!(n.as_u64, Some(u64::MAX));
            assert_eq!(n.as_i64, None);
        }
        _ => panic!(),
    }
    match u64_number(0) {
        JsonValue::Number(n) => assert_eq!((n.text.as_str(), n.as_i64), ("0", Some(0))),
        _ => panic!(),
    }
    match i64_number(i64::MIN) {
        JsonValue::Number(n) => {
            assert_eq!(n.text, "-9223372036854775808");
            assert_eq!(n.as_u64, None);
        }
        _ => panic!(),
    }
    match i64_number(-42) {
        JsonValue::Number(n) => assert_eq!(n.text, "-42"),
        _ => panic!(),
    }
    match i64_number(42) {
        JsonValue::Number(n) => assert_eq!((n.text.as_str(), n.as_u64), ("42", Some(42))),
        _ => panic!(),
    }
}

#[test]
fn arrays_of_strings_and_booleans() {
    let v = string_array(&vec!["a".to_string(), "b".to_string()]);
    assert_eq!(v, JsonValue::Array(vec![JsonValue::String("a".to_string()), JsonValue::String("b".to_string())]));
    let b = bool_array(&vec![false, true]);
    assert_eq!(b, JsonValue::Array(vec![JsonValue::Bool(false), JsonValue::Bool(true)]));
}

#[test]
fn copies_are_the_same_document() {
    let v = obj(vec![
        ("a", JsonValue::Array(vec![JsonValue::Number(JsonNumber { as_u64: None, as_i64: None, text: "1.5".to_string() })])),
        ("b", obj(vec![("c", JsonValue::String("d".to_string()))])),
    ]);
    let c = clone_json(&v);
    assert_eq!(c, v);
    assert!(json_equal(&c, &v));
    let w = v.clone();
    assert!(json_equal(&w, &v));
}

#[test]
fn comparison_sees_order_kind_and_text() {
    let a = obj(vec![("x", JsonValue::Bool(true)), ("y", JsonValue::Null)]);
    let b = obj(vec![("y", JsonValue::Null), ("x", JsonValue::Bool(true))]);
    assert!(!json_equal(&a, &b));
    assert!(!json_equal(&JsonValue::String("2".to_string()), &u64_number(2)));
    assert!(json_equal(&u64_number(2), &u64_number(2)));
    assert!(!json_equal(&JsonValue::Array(vec![JsonValue::Null]), &JsonValue::Array(vec![])));
}
