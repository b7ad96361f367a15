//! The column layout of STAC GeoParquet files: which property and asset
//! columns a set of items needs, and the type of each property column.

use vstd::prelude::*;
use crate::json::{JsonMember, JsonNumber, JsonValue, members_get};
use crate::keyed::entry_get;
use crate::sorted::{insert_sorted_unique, is_sorted_set_of, lemma_contains_push};
use crate::stac::models::{Asset, StacItem};
use crate::text::{chars_of, same_chars, texts};

verus! {

/// The type of a column.
#[derive(Debug, PartialEq, Eq)]
pub enum ColumnType {
    Utf8,
    Int64,
    UInt64,
    Float64,
    Boolean,
    /// A list whose elements have the given type.
    List(Box<ColumnType>),
}

/// A number is written as a float when it has neither an unsigned nor a
/// signed integer reading.
pub open spec fn is_float_number(n: JsonNumber) -> bool {
    n.as_u64 is None && n.as_i64 is None
}

/// The position of the first value of `xs` that is not null.
pub open spec fn first_non_null(xs: Seq<JsonValue>) -> Option<int>
    decreases xs.len(),
{
    if xs.len() == 0 {
        None
    } else {
        match first_non_null(xs.drop_last()) {
            Some(i) => Some(i),
            None => if xs.last() is Null { None } else { Some(xs.len() - 1) },
        }
    }
}

/// The first non-null value lies within the list and is not null, and all
/// before it are null.
pub proof fn lemma_first_non_null(xs: Seq<JsonValue>)
    ensures
        match first_non_null(xs) {
            Some(i) => 0 <= i < xs.len() && !(xs[i] is Null) && forall|j: int| 0 <= j < i ==> #[trigger] xs[j] is Null,
            None => forall|j: int| 0 <= j < xs.len() ==> #[trigger] xs[j] is Null,
        },
    decreases xs.len(),
{
    if xs.len() > 0 {
        lemma_first_non_null(xs.drop_last());
        assert forall|j: int| 0 <= j < xs.len() - 1 implies xs.drop_last()[j] == xs[j] by {}
    }
}

/// The column type a value calls for: booleans, integers (`Int64`),
/// floats, strings, and lists typed by their first non-null element
/// (strings when there is none); anything else is written as text.
pub open spec fn value_type(v: JsonValue) -> ColumnType
    decreases v,
{
    match v {
        JsonValue::Bool(_) => ColumnType::Boolean,
        JsonValue::Number(n) => if is_float_number(n) { ColumnType::Float64 } else { ColumnType::Int64 },
        JsonValue::String(_) => ColumnType::Utf8,
        JsonValue::Array(xs) => match first_non_null(xs@) {
            Some(i) => {
                proof {
                    lemma_first_non_null(xs@);
                    broadcast use vstd::std_specs::vec::axiom_vec_index_decreases;
                    assert(decreases_to!(v => xs));
                    assert(decreases_to!(xs => xs[i]));
                }
                ColumnType::List(Box::new(value_type(xs@[i])))
            },
            None => ColumnType::List(Box::new(ColumnType::Utf8)),
        },
        _ => ColumnType::Utf8,
    }
}

/// The column type of a value.
pub fn infer_type(v: &JsonValue) -> (r: ColumnType)
    ensures
        r == value_type(*v),
    decreases v,
{
    match v {
        JsonValue::Bool(_) => ColumnType::Boolean,
        JsonValue::Number(n) => if n.as_u64.is_none() && n.as_i64.is_none() {
            ColumnType::Float64
        } else {
            ColumnType::Int64
        },
        JsonValue::String(_) => ColumnType::Utf8,
        JsonValue::Array(xs) => {
            proof { lemma_first_non_null(xs@); }
            let mut i: usize = 0;
            while i < xs.len()
                invariant
                    *v == JsonValue::Array(*xs),
                    i <= xs@.len(),
                    forall|j: int| 0 <= j < i ==> #[trigger] xs@[j] is Null,
                decreases xs.len() - i,
            {
                match &xs[i] {
                    JsonValue::Null => {},
                    x => {
                        proof {
                            lemma_first_non_null(xs@);
                            broadcast use vstd::std_specs::vec::axiom_vec_index_decreases;
                            assert(decreases_to!(*v => v->Array_0));
                            assert(decreases_to!(*xs => xs[i as int]));
                            assert(first_non_null(xs@) == Some(i as int));
                        }
                        let t = infer_type(x);
                        return ColumnType::List(Box::new(t));
                    },
                }
                i += 1;
            }
            proof {
                lemma_first_non_null(xs@);
                if first_non_null(xs@) is Some {
                    let k = first_non_null(xs@)->0;
                    assert(xs@[k] is Null);
                }
            }
            ColumnType::List(Box::new(ColumnType::Utf8))
        },
        _ => ColumnType::Utf8,
    }
}

/// The fixed column types of the 3D city model properties.
pub open spec fn city3d_column(key: Seq<char>) -> Option<ColumnType> {
    if key == "city3d:lods"@ || key == "city3d:co_types"@ {
        Some(ColumnType::List(Box::new(ColumnType::Utf8)))
    } else if key == "city3d:city_objects"@ {
        Some(ColumnType::UInt64)
    } else if key == "city3d:version"@ || key == "city3d:encoding_version"@ || key == "proj:code"@ {
        Some(ColumnType::Utf8)
    } else if key == "city3d:semantic_surfaces"@ || key == "city3d:textures"@ || key == "city3d:materials"@ {
        Some(ColumnType::Boolean)
    } else {
        None
    }
}

/// The fixed columns of the 3D city model properties: the level-of-detail
/// and city-object-type lists are lists of strings; the city-object count
/// an unsigned integer; the version, encoding version and `proj:code` text;
/// the three boolean facts booleans. No other property has a fixed column,
/// and for every item list each fixed column is the property's column.
pub proof fn lemma_city3d_columns<B, G>(k: Seq<char>, items: Seq<StacItem<B, G>>)
    ensures
        (city3d_column(k) == Some(ColumnType::List(Box::new(ColumnType::Utf8))))
            <==> (k == "city3d:lods"@ || k == "city3d:co_types"@),
        (city3d_column(k) == Some(ColumnType::UInt64)) <==> k == "city3d:city_objects"@,
        (city3d_column(k) == Some(ColumnType::Utf8))
            <==> (k == "city3d:version"@ || k == "city3d:encoding_version"@ || k == "proj:code"@),
        (city3d_column(k) == Some(ColumnType::Boolean))
            <==> (k == "city3d:semantic_surfaces"@ || k == "city3d:textures"@ || k == "city3d:materials"@),
        city3d_column(k) != Some(ColumnType::Int64),
        city3d_column(k) != Some(ColumnType::Float64),
        city3d_column(k) matches Some(t) ==> property_column(items, k) == t,
        (k == "city3d:lods"@ || k == "city3d:co_types"@)
            ==> property_column(items, k) == ColumnType::List(Box::new(ColumnType::Utf8)),
{
    reveal_strlit("city3d:lods");
    reveal_strlit("city3d:co_types");
    reveal_strlit("city3d:city_objects");
    reveal_strlit("city3d:version");
    reveal_strlit("city3d:encoding_version");
    reveal_strlit("proj:code");
    reveal_strlit("city3d:semantic_surfaces");
    reveal_strlit("city3d:textures");
    reveal_strlit("city3d:materials");
    assert("city3d:lods"@.len() == 11);
    assert("city3d:co_types"@.len() == 15);
    assert("city3d:city_objects"@.len() == 19);
    assert("city3d:version"@.len() == 14);
    assert("city3d:encoding_version"@.len() == 23);
    assert("proj:code"@.len() == 9);
    assert("city3d:semantic_surfaces"@.len() == 24);
    assert("city3d:textures"@.len() == 15);
    assert("city3d:materials"@.len() == 16);
    assert("city3d:co_types"@[7] != "city3d:textures"@[7]);
    assert("city3d:co_types"@ != "city3d:textures"@);
}

/// Whether `v` is the text `lit`.
fn is_text(v: &str, lit: &str) -> (r: bool)
    ensures
        r == (v@ == lit@),
{
    same_chars(chars_of(v).as_slice(), chars_of(lit).as_slice())
}

/// The fixed column type of a 3D city model property, if it has one.
pub fn city3d_type(key: &str) -> (r: Option<ColumnType>)
    ensures
        r == city3d_column(key@),
{
    if is_text(key, "city3d:lods") || is_text(key, "city3d:co_types") {
        Some(ColumnType::List(Box::new(ColumnType::Utf8)))
    } else if is_text(key, "city3d:city_objects") {
        Some(ColumnType::UInt64)
    } else if is_text(key, "city3d:version") || is_text(key, "city3d:encoding_version") || is_text(key, "proj:code") {
        Some(ColumnType::Utf8)
    } else if is_text(key, "city3d:semantic_surfaces") || is_text(key, "city3d:textures") || is_text(key, "city3d:materials") {
        Some(ColumnType::Boolean)
    } else {
        None
    }
}

/// The first value of property `key` that is present and not null, item
/// by item.
pub open spec fn first_property_value<B, G>(items: Seq<StacItem<B, G>>, key: Seq<char>) -> Option<JsonValue>
    decreases items.len(),
{
    if items.len() == 0 {
        None
    } else {
        match first_property_value(items.drop_last(), key) {
            Some(v) => Some(v),
            None => match members_get(items.last().properties@, key) {
                Some(v) => if v is Null { None } else { Some(v) },
                None => None,
            },
        }
    }
}

/// The column type of property `key`: its fixed type for a 3D city model
/// property, otherwise the type of its first non-null value, otherwise
/// text.
pub open spec fn property_column<B, G>(items: Seq<StacItem<B, G>>, key: Seq<char>) -> ColumnType {
    match city3d_column(key) {
        Some(t) => t,
        None => match first_property_value(items, key) {
            Some(v) => value_type(v),
            None => ColumnType::Utf8,
        },
    }
}

/// The column type of property `key` over the items.
pub fn infer_property_type<B, G>(key: &str, items: &Vec<StacItem<B, G>>) -> (r: ColumnType)
    ensures
        r == property_column(items@, key@),
{
    match city3d_type(key) {
        Some(t) => { return t; },
        None => {},
    }
    let mut i: usize = 0;
    while i < items.len()
        invariant
            i <= items@.len(),
            city3d_column(key@) is None,
            first_property_value(items@.take(i as int), key@) is None,
        decreases items.len() - i,
    {
        assert(items@.take(i + 1).drop_last() =~= items@.take(i as int));
        assert(items@.take(i + 1).last() == items@[i as int]);
        match crate::json::member(&items[i].properties, key) {
            Some(v) => {
                match v {
                    JsonValue::Null => {},
                    _ => {
                        proof {
                            assert(first_property_value(items@.take(i + 1), key@) == Some(*v));
                            lemma_first_property_value_prefix(items@, key@, i + 1);
                        }
                        return infer_type(v);
                    },
                }
            },
            None => {},
        }
        i += 1;
    }
    assert(items@.take(items@.len() as int) =~= items@);
    ColumnType::Utf8
}

/// Once a prefix has a first non-null value, the whole list has the same.
proof fn lemma_first_property_value_prefix<B, G>(items: Seq<StacItem<B, G>>, key: Seq<char>, k: int)
    requires
        0 <= k <= items.len(),
        first_property_value(items.take(k), key) is Some,
    ensures
        first_property_value(items, key) == first_property_value(items.take(k), key),
    decreases items.len(),
{
    if k < items.len() {
        assert(items.drop_last().take(k) =~= items.take(k));
        lemma_first_property_value_prefix(items.drop_last(), key, k);
    } else {
        assert(items.take(k) =~= items);
    }
}

/// The property keys of the items, item after item.
pub open spec fn property_keys<B, G>(items: Seq<StacItem<B, G>>) -> Seq<Seq<char>>
    decreases items.len(),
{
    if items.len() == 0 {
        seq![]
    } else {
        property_keys(items.drop_last()) + extra_keys(items.last().properties@)
    }
}

/// The properties an item has fields of its own for, which are not
/// property columns: `datetime`, `start_datetime`, `end_datetime`, `title`,
/// `description`, `created` and `updated`.
pub open spec fn is_standard_property(k: Seq<char>) -> bool {
    ||| k == "datetime"@
    ||| k == "start_datetime"@
    ||| k == "end_datetime"@
    ||| k == "title"@
    ||| k == "description"@
    ||| k == "created"@
    ||| k == "updated"@
}

/// The keys of the properties that are not standard ones, in order.
pub open spec fn extra_keys(ps: Seq<JsonMember>) -> Seq<Seq<char>>
    decreases ps.len(),
{
    if ps.len() == 0 {
        seq![]
    } else if is_standard_property(ps.last().key@) {
        extra_keys(ps.drop_last())
    } else {
        extra_keys(ps.drop_last()).push(ps.last().key@)
    }
}

/// Whether a property key is a standard one (see `is_standard_property`).
fn is_standard_property_exec(k: &str) -> (r: bool)
    ensures
        r == is_standard_property(k@),
{
    let v = chars_of(k);
    same_chars(v.as_slice(), chars_of("datetime").as_slice())
        || same_chars(v.as_slice(), chars_of("start_datetime").as_slice())
        || same_chars(v.as_slice(), chars_of("end_datetime").as_slice())
        || same_chars(v.as_slice(), chars_of("title").as_slice())
        || same_chars(v.as_slice(), chars_of("description").as_slice())
        || same_chars(v.as_slice(), chars_of("created").as_slice())
        || same_chars(v.as_slice(), chars_of("updated").as_slice())
}

/// The asset keys of the items, item after item.
pub open spec fn asset_keys<B, G>(items: Seq<StacItem<B, G>>) -> Seq<Seq<char>>
    decreases items.len(),
{
    if items.len() == 0 {
        seq![]
    } else {
        asset_keys(items.drop_last()) + items.last().assets@.map_values(|e: (String, Asset)| e.0@)
    }
}

/// The property keys of the items, standard ones left out: each once,
/// sorted.
pub fn collect_property_keys<B, G>(items: &Vec<StacItem<B, G>>) -> (r: Vec<String>)
    ensures
        is_sorted_set_of(texts(r@), property_keys(items@)),
{
    let mut keys: Vec<String> = Vec::new();
    let mut i: usize = 0;
    while i < items.len()
        invariant
            i <= items@.len(),
            is_sorted_set_of(texts(keys@), property_keys(items@.take(i as int))),
        decreases items.len() - i,
    {
        let ghost p = property_keys(items@.take(i as int));
        assert(items@.take(i + 1).drop_last() =~= items@.take(i as int));
        assert(items@.take(i + 1).last() == items@[i as int]);
        let ps = &items[i].properties;
        let mut j: usize = 0;
        assert(ps@.take(0) =~= Seq::<JsonMember>::empty());
        assert(p + extra_keys(ps@.take(0)) =~= p);
        while j < ps.len()
            invariant
                j <= ps@.len(),
                is_sorted_set_of(texts(keys@), p + extra_keys(ps@.take(j as int))),
            decreases ps.len() - j,
        {
            let ghost cur = p + extra_keys(ps@.take(j as int));
            assert(ps@.take(j + 1).drop_last() =~= ps@.take(j as int));
            assert(ps@.take(j + 1).last() == ps@[j as int]);
            if !is_standard_property_exec(ps[j].key.as_str()) {
                proof {
                    assert(p + extra_keys(ps@.take(j + 1)) =~= cur.push(ps@[j as int].key@));
                    lemma_contains_push(cur, ps@[j as int].key@);
                }
                insert_sorted_unique(&mut keys, ps[j].key.clone());
            }
            j += 1;
        }
        assert(ps@.take(ps@.len() as int) =~= ps@);
        i += 1;
    }
    assert(items@.take(items@.len() as int) =~= items@);
    keys
}

/// The asset keys of the items: each once, sorted.
pub fn collect_asset_keys<B, G>(items: &Vec<StacItem<B, G>>) -> (r: Vec<String>)
    ensures
        is_sorted_set_of(texts(r@), asset_keys(items@)),
{
    let mut keys: Vec<String> = Vec::new();
    let mut i: usize = 0;
    while i < items.len()
        invariant
            i <= items@.len(),
            is_sorted_set_of(texts(keys@), asset_keys(items@.take(i as int))),
        decreases items.len() - i,
    {
        let ghost p = asset_keys(items@.take(i as int));
        assert(items@.take(i + 1).drop_last() =~= items@.take(i as int));
        assert(items@.take(i + 1).last() == items@[i as int]);
        let es = &items[i].assets;
        let ghost all = es@.map_values(|e: (String, Asset)| e.0@);
        let mut j: usize = 0;
        assert(p + all.take(0) =~= p);
        while j < es.len()
            invariant
                j <= es@.len(),
                all == es@.map_values(|e: (String, Asset)| e.0@),
                is_sorted_set_of(texts(keys@), p + all.take(j as int)),
            decreases es.len() - j,
        {
            let ghost cur = p + all.take(j as int);
            proof {
                assert(p + all.take(j + 1) =~= cur.push(es@[j as int].0@));
                lemma_contains_push(cur, es@[j as int].0@);
            }
            insert_sorted_unique(&mut keys, es[j].0.clone());
            j += 1;
        }
        assert(all.take(all.len() as int) =~= all);
        i += 1;
    }
    assert(items@.take(items@.len() as int) =~= items@);
    keys
}

/// A property column: its key and type.
#[derive(Debug)]
pub struct PropertyColumn {
    pub key: String,
    pub column_type: ColumnType,
}

/// The property columns of a GeoParquet file of the items: one per
/// property key, in sorted order, each of its inferred type.
pub fn property_columns<B, G>(items: &Vec<StacItem<B, G>>) -> (r: Vec<PropertyColumn>)
    ensures
        exists|keys: Seq<Seq<char>>| {
            &&& is_sorted_set_of(keys, property_keys(items@))
            &&& r@.len() == keys.len()
            &&& forall|i: int| 0 <= i < keys.len() ==> (#[trigger] r@[i]).key@ == keys[i]
                && r@[i].column_type == property_column(items@, keys[i])
        },
{
    let keys = collect_property_keys(items);
    let mut cols: Vec<PropertyColumn> = Vec::new();
    let mut i: usize = 0;
    while i < keys.len()
        invariant
            i <= keys@.len(),
            cols@.len() == i,
            forall|j: int| 0 <= j < i ==> (#[trigger] cols@[j]).key@ == keys@[j]@
                && cols@[j].column_type == property_column(items@, keys@[j]@),
        decreases keys.len() - i,
    {
        let t = infer_property_type(keys[i].as_str(), items);
        cols.push(PropertyColumn { key: keys[i].clone(), column_type: t });
        i += 1;
    }
    assert forall|j: int| 0 <= j < texts(keys@).len() implies (#[trigger] cols@[j]).key@ == texts(keys@)[j]
        && cols@[j].column_type == property_column(items@, texts(keys@)[j]) by {
        assert(texts(keys@)[j] == keys@[j]@);
    }
    cols
}

/// What a property value is written as in its column: nothing (null), a
/// string as it is, a value as its JSON text, an integer, a number read as
/// floating point, a boolean, or a list of such entries.
#[derive(Debug, PartialEq, Eq)]
pub enum Cell {
    Null,
    Text(String),
    JsonText(JsonValue),
    Int(i64),
    UInt(u64),
    Float(JsonNumber),
    Bool(bool),
    List(Vec<Cell>),
}

/// An element of a list column: a string as it is, null as null, any other
/// value as its JSON text.
pub open spec fn list_entry(v: JsonValue) -> Cell {
    match v {
        JsonValue::String(s) => Cell::Text(s),
        JsonValue::Null => Cell::Null,
        other => Cell::JsonText(other),
    }
}

/// `c` is what the value `v` (none where the item lacks the property) is
/// written as in a column of type `t`: a text column takes strings as they
/// are and other values as JSON text; an integer column takes the numbers
/// that fit it; a floating-point column takes any number; a boolean column
/// takes booleans; a list column takes arrays, element by element. Any
/// other value is null.
pub open spec fn is_cell_of(c: Cell, v: Option<JsonValue>, t: ColumnType) -> bool {
    match t {
        ColumnType::Utf8 => c == match v {
            Some(JsonValue::String(s)) => Cell::Text(s),
            Some(JsonValue::Null) => Cell::Null,
            Some(x) => Cell::JsonText(x),
            None => Cell::Null,
        },
        ColumnType::Int64 => c == match v {
            Some(JsonValue::Number(n)) => match n.as_i64 {
                Some(i) => Cell::Int(i),
                None => Cell::Null,
            },
            _ => Cell::Null,
        },
        ColumnType::UInt64 => c == match v {
            Some(JsonValue::Number(n)) => match n.as_u64 {
                Some(u) => Cell::UInt(u),
                None => Cell::Null,
            },
            _ => Cell::Null,
        },
        ColumnType::Float64 => c == match v {
            Some(JsonValue::Number(n)) => Cell::Float(n),
            _ => Cell::Null,
        },
        ColumnType::Boolean => c == match v {
            Some(JsonValue::Bool(b)) => Cell::Bool(b),
            _ => Cell::Null,
        },
        ColumnType::List(_) => match v {
            Some(JsonValue::Array(xs)) => c matches Cell::List(cs) && cs@ == xs@.map_values(|x: JsonValue| list_entry(x)),
            _ => c == Cell::Null,
        },
    }
}

/// An element of a list column (see `list_entry`).
fn list_entry_exec(v: JsonValue) -> (r: Cell)
    ensures
        r == list_entry(v),
{
    match v {
        JsonValue::String(s) => Cell::Text(s),
        JsonValue::Null => Cell::Null,
        other => Cell::JsonText(other),
    }
}

/// What the value `v` of a property (none where the item lacks it) is
/// written as in a column of type `t` (see `is_cell_of`).
pub fn cell_of(v: Option<JsonValue>, t: &ColumnType) -> (r: Cell)
    ensures
        is_cell_of(r, v, *t),
{
    match t {
        ColumnType::Utf8 => match v {
            Some(JsonValue::String(s)) => Cell::Text(s),
            Some(JsonValue::Null) => Cell::Null,
            Some(x) => Cell::JsonText(x),
            None => Cell::Null,
        },
        ColumnType::Int64 => match v {
            Some(JsonValue::Number(n)) => match n.as_i64 {
                Some(i) => Cell::Int(i),
                None => Cell::Null,
            },
            _ => Cell::Null,
        },
        ColumnType::UInt64 => match v {
            Some(JsonValue::Number(n)) => match n.as_u64 {
                Some(u) => Cell::UInt(u),
                None => Cell::Null,
            },
            _ => Cell::Null,
        },
        ColumnType::Float64 => match v {
            Some(JsonValue::Number(n)) => Cell::Float(n),
            _ => Cell::Null,
        },
        ColumnType::Boolean => match v {
            Some(JsonValue::Bool(b)) => Cell::Bool(b),
            _ => Cell::Null,
        },
        ColumnType::List(_) => match v {
            Some(JsonValue::Array(xs)) => {
                let ghost orig = xs@;
                let mut rest = xs;
                let mut cells: Vec<Cell> = Vec::new();
                while rest.len() > 0
                    invariant
                        cells@.len() <= orig.len(),
                        rest@ == orig.skip(cells@.len() as int),
                        cells@ == orig.take(cells@.len() as int).map_values(|x: JsonValue| list_entry(x)),
                    decreases rest@.len(),
                {
                    let ghost k = cells@.len() as int;
                    let x = rest.remove(0);
                    assert(x == orig[k]);
                    assert(rest@ =~= orig.skip(k + 1));
                    cells.push(list_entry_exec(x));
                    assert(cells@ =~= orig.take(k + 1).map_values(|x: JsonValue| list_entry(x)));
                }
                assert(orig.take(orig.len() as int) =~= orig);
                Cell::List(cells)
            },
            _ => Cell::Null,
        },
    }
}

} // verus!
