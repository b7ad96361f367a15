//! What a CityJSON document says about itself: its version, the number and
//! types of its city objects, their levels of detail and attributes, the
//! extensions it uses, whether it has semantic surfaces, textures and
//! materials, and its coordinate reference system.

use vstd::prelude::*;
use crate::metadata::attributes::{AttributeDefinition, AttributeType};
use crate::json::{JsonMember, JsonValue, as_elements, as_members, as_text, get, json_get};
use crate::sorted::{insert_sorted_unique, is_sorted_set_of, lemma_contains_push, strictly_sorted};
use crate::decimal::{parse_u32, parse_u32_exec};
use crate::metadata::crs::{CRS, is_epsg_crs};
use crate::text::{
    after_last, after_last_exec, chars_of, contains_exec, contains_seq, starts_with,
    starts_with_exec, strip_prefix, strip_prefix_exec, texts,
};

verus! {

// ---------------------------------------------------------------------------
// The parts of a document
// ---------------------------------------------------------------------------

/// The members of the document's `CityObjects` object (none when it has no
/// such object).
pub open spec fn city_objects(data: JsonValue) -> Seq<JsonMember> {
    match as_members(json_get(data, "CityObjects"@)) {
        Some(ms) => ms,
        None => Seq::empty(),
    }
}

/// The geometries of a city object: the elements of its `geometry` array.
pub open spec fn geometries(obj: JsonValue) -> Seq<JsonValue> {
    match as_elements(json_get(obj, "geometry"@)) {
        Some(gs) => gs,
        None => Seq::empty(),
    }
}

/// The levels of detail named by a list of geometries (their string `lod`
/// members), in order.
pub open spec fn geometry_lods(gs: Seq<JsonValue>) -> Seq<Seq<char>>
    decreases gs.len(),
{
    if gs.len() == 0 {
        Seq::empty()
    } else {
        geometry_lods(gs.drop_last()) + match as_text(json_get(gs.last(), "lod"@)) {
            Some(l) => seq![l],
            None => Seq::empty(),
        }
    }
}

/// The levels of detail of a list of city objects' geometries, in order.
pub open spec fn object_lods(ms: Seq<JsonMember>) -> Seq<Seq<char>>
    decreases ms.len(),
{
    if ms.len() == 0 {
        Seq::empty()
    } else {
        object_lods(ms.drop_last()) + geometry_lods(geometries(ms.last().value))
    }
}

/// The type of a city object that is not an extension type (its string
/// `type`, unless that starts with `+`).
pub open spec fn core_type(obj: JsonValue) -> Option<Seq<char>> {
    match as_text(json_get(obj, "type"@)) {
        Some(t) => if starts_with(t, "+"@) {
            None
        } else {
            Some(t)
        },
        None => None,
    }
}

/// The non-extension types of a list of city objects, in order.
pub open spec fn object_types(ms: Seq<JsonMember>) -> Seq<Seq<char>>
    decreases ms.len(),
{
    if ms.len() == 0 {
        Seq::empty()
    } else {
        object_types(ms.drop_last()) + match core_type(ms.last().value) {
            Some(t) => seq![t],
            None => Seq::empty(),
        }
    }
}

/// The keys of a list of members, in order.
pub open spec fn member_keys(ms: Seq<JsonMember>) -> Seq<Seq<char>> {
    ms.map_values(|m: JsonMember| m.key@)
}

/// The keys of the document's `extensions` object.
pub open spec fn extension_keys(data: JsonValue) -> Seq<Seq<char>> {
    match as_members(json_get(data, "extensions"@)) {
        Some(ms) => member_keys(ms),
        None => Seq::empty(),
    }
}

/// Some geometry in the list has a `semantics` member.
pub open spec fn geometries_have_semantics(gs: Seq<JsonValue>) -> bool {
    exists|j: int| 0 <= j < gs.len() && json_get(#[trigger] gs[j], "semantics"@) is Some
}

/// Some geometry of some city object has a `semantics` member.
pub open spec fn objects_have_semantics(ms: Seq<JsonMember>) -> bool {
    exists|i: int| 0 <= i < ms.len() && geometries_have_semantics(geometries(#[trigger] ms[i].value))
}

/// The document's `appearance` has a member `key`.
pub open spec fn appearance_has(data: JsonValue, key: Seq<char>) -> bool {
    match json_get(data, "appearance"@) {
        Some(a) => json_get(a, key) is Some,
        None => false,
    }
}

/// The version the document declares (`1.0` when it declares none).
pub open spec fn document_version(data: JsonValue) -> Seq<char> {
    match as_text(json_get(data, "version"@)) {
        Some(v) => v,
        None => "1.0"@,
    }
}

// ---------------------------------------------------------------------------
// Extraction
// ---------------------------------------------------------------------------

/// The members of the document's `CityObjects` object.
fn city_objects_exec(data: &JsonValue) -> (r: Option<&Vec<JsonMember>>)
    ensures
        match r {
            Some(ms) => city_objects(*data) == ms@,
            None => city_objects(*data) == Seq::<JsonMember>::empty(),
        },
{
    match get(data, "CityObjects") {
        Some(JsonValue::Object(ms)) => Some(ms),
        _ => None,
    }
}

/// The geometries of a city object.
fn geometries_exec(obj: &JsonValue) -> (r: Option<&Vec<JsonValue>>)
    ensures
        match r {
            Some(gs) => geometries(*obj) == gs@,
            None => geometries(*obj) == Seq::<JsonValue>::empty(),
        },
{
    match get(obj, "geometry") {
        Some(JsonValue::Array(gs)) => Some(gs),
        _ => None,
    }
}

/// The number of city objects: the size of the `CityObjects` object (zero
/// when there is none).
pub fn city_object_count_from_data(data: &JsonValue) -> (r: usize)
    ensures
        r == city_objects(*data).len(),
{
    match city_objects_exec(data) {
        Some(ms) => ms.len(),
        None => 0,
    }
}

/// The version the document declares, `1.0` when it declares none.
pub fn extract_version_from_data(data: &JsonValue) -> (r: String)
    ensures
        r@ == document_version(*data),
{
    match get(data, "version") {
        Some(JsonValue::String(v)) => v.clone(),
        _ => "1.0".to_string(),
    }
}

/// The levels of detail used by the city objects' geometries, each once,
/// in increasing order.
pub fn extract_lods_from_data(data: &JsonValue) -> (r: Vec<String>)
    ensures
        is_sorted_set_of(texts(r@), object_lods(city_objects(*data))),
{
    let mut out: Vec<String> = Vec::new();
    let ghost all = city_objects(*data);
    match city_objects_exec(data) {
        None => {
            assert(object_lods(all) =~= Seq::<Seq<char>>::empty());
            assert(texts(out@) =~= Seq::<Seq<char>>::empty());
        },
        Some(ms) => {
            let mut i: usize = 0;
            assert(ms@.subrange(0, 0) =~= Seq::<JsonMember>::empty());
            assert(texts(out@) =~= Seq::<Seq<char>>::empty());
            while i < ms.len()
                invariant
                    i <= ms@.len(),
                    all == ms@,
                    strictly_sorted(texts(out@)),
                    forall|x: Seq<char>| texts(out@).contains(x) <==> object_lods(ms@.subrange(0, i as int)).contains(x),
                decreases ms.len() - i,
            {
                let ghost before = object_lods(ms@.subrange(0, i as int));
                let ghost gs_all = geometries(ms@[i as int].value);
                assert(ms@.subrange(0, i + 1).drop_last() =~= ms@.subrange(0, i as int));
                assert(ms@.subrange(0, i + 1).last() == ms@[i as int]);
                match geometries_exec(&ms[i].value) {
                    None => {
                        assert(geometry_lods(gs_all) =~= Seq::<Seq<char>>::empty());
                        assert(object_lods(ms@.subrange(0, i + 1)) =~= before);
                    },
                    Some(gs) => {
                        let mut j: usize = 0;
                        assert(geometry_lods(gs@.subrange(0, 0)) =~= Seq::<Seq<char>>::empty());
                        assert(before + Seq::<Seq<char>>::empty() =~= before);
                        while j < gs.len()
                            invariant
                                j <= gs@.len(),
                                strictly_sorted(texts(out@)),
                                forall|x: Seq<char>| texts(out@).contains(x) <==> (before + geometry_lods(gs@.subrange(0, j as int))).contains(x),
                            decreases gs.len() - j,
                        {
                            let ghost prev = geometry_lods(gs@.subrange(0, j as int));
                            assert(gs@.subrange(0, j + 1).drop_last() =~= gs@.subrange(0, j as int));
                            assert(gs@.subrange(0, j + 1).last() == gs@[j as int]);
                            match get(&gs[j], "lod") {
                                Some(JsonValue::String(l)) => {
                                    let ghost seen = before + prev;
                                    insert_sorted_unique(&mut out, l.clone());
                                    assert(geometry_lods(gs@.subrange(0, j + 1)) == prev + seq![l@]);
                                    assert forall|x: Seq<char>| texts(out@).contains(x) <==> (before + geometry_lods(gs@.subrange(0, j + 1))).contains(x) by {
                                        assert((before + (prev + seq![l@])) =~= seen.push(l@));
                                        if seen.push(l@).contains(x) && x != l@ {
                                            let k = choose|k: int| 0 <= k < seen.push(l@).len() && seen.push(l@)[k] == x;
                                            assert(seen[k] == x);
                                        }
                                        if x == l@ {
                                            assert(seen.push(l@)[seen.len() as int] == x);
                                        }
                                        if seen.contains(x) {
                                            let k = choose|k: int| 0 <= k < seen.len() && seen[k] == x;
                                            assert(seen.push(l@)[k] == x);
                                        }
                                    }
                                },
                                _ => {
                                    assert(geometry_lods(gs@.subrange(0, j + 1)) =~= prev);
                                },
                            }
                            j += 1;
                        }
                        assert(gs@.subrange(0, gs@.len() as int) =~= gs@);
                        assert(gs@ == gs_all);
                    },
                }
                i += 1;
            }
            assert(ms@.subrange(0, ms@.len() as int) =~= ms@);
        },
    }
    out
}

/// The types of the city objects, each once, in increasing order; types of
/// extensions (starting with `+`) are left out.
pub fn extract_city_object_types_from_data(data: &JsonValue) -> (r: Vec<String>)
    ensures
        is_sorted_set_of(texts(r@), object_types(city_objects(*data))),
{
    let mut out: Vec<String> = Vec::new();
    let ghost all = city_objects(*data);
    assert(texts(out@) =~= Seq::<Seq<char>>::empty());
    match city_objects_exec(data) {
        None => {
            assert(object_types(all) =~= Seq::<Seq<char>>::empty());
        },
        Some(ms) => {
            let mut i: usize = 0;
            assert(ms@.subrange(0, 0) =~= Seq::<JsonMember>::empty());
            while i < ms.len()
                invariant
                    i <= ms@.len(),
                    all == ms@,
                    strictly_sorted(texts(out@)),
                    forall|x: Seq<char>| texts(out@).contains(x) <==> object_types(ms@.subrange(0, i as int)).contains(x),
                decreases ms.len() - i,
            {
                let ghost before = object_types(ms@.subrange(0, i as int));
                assert(ms@.subrange(0, i + 1).drop_last() =~= ms@.subrange(0, i as int));
                assert(ms@.subrange(0, i + 1).last() == ms@[i as int]);
                match get(&ms[i].value, "type") {
                    Some(JsonValue::String(t)) => {
                        let tc = chars_of(t.as_str());
                        if starts_with_exec(tc.as_slice(), chars_of("+").as_slice()) {
                            assert(object_types(ms@.subrange(0, i + 1)) =~= before);
                        } else {
                            insert_sorted_unique(&mut out, t.clone());
                            assert(object_types(ms@.subrange(0, i + 1)) =~= before.push(t@));
                            proof {
                                lemma_contains_push(before, t@);
                            }
                        }
                    },
                    _ => {
                        assert(object_types(ms@.subrange(0, i + 1)) =~= before);
                    },
                }
                i += 1;
            }
            assert(ms@.subrange(0, ms@.len() as int) =~= ms@);
        },
    }
    out
}

/// The URLs of the extensions the document declares (the keys of its
/// `extensions` object), in increasing order.
pub fn extract_extensions_from_data(data: &JsonValue) -> (r: Vec<String>)
    ensures
        is_sorted_set_of(texts(r@), extension_keys(*data)),
{
    let mut out: Vec<String> = Vec::new();
    assert(texts(out@) =~= Seq::<Seq<char>>::empty());
    match get(data, "extensions") {
        Some(JsonValue::Object(ms)) => {
            let mut i: usize = 0;
            assert(member_keys(ms@.subrange(0, 0)) =~= Seq::<Seq<char>>::empty());
            while i < ms.len()
                invariant
                    i <= ms@.len(),
                    extension_keys(*data) == member_keys(ms@),
                    strictly_sorted(texts(out@)),
                    forall|x: Seq<char>| texts(out@).contains(x) <==> member_keys(ms@.subrange(0, i as int)).contains(x),
                decreases ms.len() - i,
            {
                let ghost before = member_keys(ms@.subrange(0, i as int));
                insert_sorted_unique(&mut out, ms[i].key.clone());
                assert(member_keys(ms@.subrange(0, i + 1)) =~= before.push(ms@[i as int].key@));
                proof {
                    lemma_contains_push(before, ms@[i as int].key@);
                }
                i += 1;
            }
            assert(ms@.subrange(0, ms@.len() as int) =~= ms@);
        },
        _ => {
            assert(extension_keys(*data) =~= Seq::<Seq<char>>::empty());
        },
    }
    out
}

/// Whether some geometry of some city object has semantic surfaces (a
/// `semantics` member).
pub fn extract_semantic_surfaces_from_data(data: &JsonValue) -> (r: bool)
    ensures
        r == objects_have_semantics(city_objects(*data)),
{
    match city_objects_exec(data) {
        None => false,
        Some(ms) => {
            let mut i: usize = 0;
            while i < ms.len()
                invariant
                    i <= ms@.len(),
                    city_objects(*data) == ms@,
                    forall|k: int| 0 <= k < i ==> !geometries_have_semantics(geometries(#[trigger] ms@[k].value)),
                decreases ms.len() - i,
            {
                match geometries_exec(&ms[i].value) {
                    Some(gs) => {
                        let mut j: usize = 0;
                        while j < gs.len()
                            invariant
                                j <= gs@.len(),
                                i < ms@.len(),
                                city_objects(*data) == ms@,
                                gs@ == geometries(ms@[i as int].value),
                                forall|k: int| 0 <= k < j ==> json_get(#[trigger] gs@[k], "semantics"@) is None,
                            decreases gs.len() - j,
                        {
                            if get(&gs[j], "semantics").is_some() {
                                assert(json_get(gs@[j as int], "semantics"@) is Some);
                                assert(geometries_have_semantics(geometries(ms@[i as int].value)));
                                return true;
                            }
                            j += 1;
                        }
                    },
                    None => {},
                }
                i += 1;
            }
            false
        },
    }
}

/// Whether the document's `appearance` has a member `key`.
fn appearance_has_exec(data: &JsonValue, key: &str) -> (r: bool)
    ensures
        r == appearance_has(*data, key@),
{
    match get(data, "appearance") {
        Some(a) => get(a, key).is_some(),
        None => false,
    }
}

/// Whether the document has textures (an `appearance.textures` member).
pub fn extract_textures_from_data(data: &JsonValue) -> (r: bool)
    ensures
        r == appearance_has(*data, "textures"@),
{
    appearance_has_exec(data, "textures")
}

/// Whether the document has materials (an `appearance.materials` member).
pub fn extract_materials_from_data(data: &JsonValue) -> (r: bool)
    ensures
        r == appearance_has(*data, "materials"@),
{
    appearance_has_exec(data, "materials")
}

// ---------------------------------------------------------------------------
// Attributes
// ---------------------------------------------------------------------------

/// The kind of an attribute value (none for `null`).
pub open spec fn attr_kind(v: JsonValue) -> Option<AttributeType> {
    match v {
        JsonValue::Null => None,
        JsonValue::Bool(_) => Some(AttributeType::Boolean),
        JsonValue::Number(_) => Some(AttributeType::Number),
        JsonValue::String(_) => Some(AttributeType::String),
        JsonValue::Array(_) => Some(AttributeType::Array),
        JsonValue::Object(_) => Some(AttributeType::Object),
    }
}

/// The non-null attributes of one `attributes` object, with their kinds, in
/// order.
pub open spec fn member_attributes(ms: Seq<JsonMember>) -> Seq<(Seq<char>, AttributeType)>
    decreases ms.len(),
{
    if ms.len() == 0 {
        Seq::empty()
    } else {
        member_attributes(ms.drop_last()) + match attr_kind(ms.last().value) {
            Some(t) => seq![(ms.last().key@, t)],
            None => Seq::empty(),
        }
    }
}

/// The non-null attributes of a city object.
pub open spec fn object_attributes(obj: JsonValue) -> Seq<(Seq<char>, AttributeType)> {
    match as_members(json_get(obj, "attributes"@)) {
        Some(ms) => member_attributes(ms),
        None => Seq::empty(),
    }
}

/// Every non-null attribute of a list of city objects, with its kind, in
/// order.
pub open spec fn attribute_occurrences(ms: Seq<JsonMember>) -> Seq<(Seq<char>, AttributeType)>
    decreases ms.len(),
{
    if ms.len() == 0 {
        Seq::empty()
    } else {
        attribute_occurrences(ms.drop_last()) + object_attributes(ms.last().value)
    }
}

/// The kind an attribute takes when a value of kind `t` is seen after the
/// values seen so far: the same kind while all agree, `String` once two
/// disagree.
pub open spec fn combine_kind(prev: Option<AttributeType>, t: AttributeType) -> AttributeType {
    match prev {
        None => t,
        Some(p) => if p == t {
            p
        } else {
            AttributeType::String
        },
    }
}

/// The kind of the attribute `name` over all its occurrences: the common
/// kind when they all agree, `String` when they do not, none when it never
/// occurs.
pub open spec fn merged_kind(occ: Seq<(Seq<char>, AttributeType)>, name: Seq<char>) -> Option<AttributeType>
    decreases occ.len(),
{
    if occ.len() == 0 {
        None
    } else {
        let m = merged_kind(occ.drop_last(), name);
        if occ.last().0 == name {
            Some(combine_kind(m, occ.last().1))
        } else {
            m
        }
    }
}

/// The names of a list of attribute definitions.
pub open spec fn attr_names(v: Seq<AttributeDefinition>) -> Seq<Seq<char>> {
    v.map_values(|a: AttributeDefinition| a.name@)
}

/// The attribute definitions that describe the occurrences `occ`: one per
/// name, sorted by name, each with its merged kind.
pub open spec fn describes_attributes(v: Seq<AttributeDefinition>, occ: Seq<(Seq<char>, AttributeType)>) -> bool {
    &&& strictly_sorted(attr_names(v))
    &&& forall|x: Seq<char>| #[trigger] attr_names(v).contains(x) <==> merged_kind(occ, x) is Some
    &&& forall|k: int| 0 <= k < v.len() ==> merged_kind(occ, #[trigger] v[k].name@) == Some(v[k].attr_type)
}

/// The kind of an attribute value.
fn attr_kind_exec(v: &JsonValue) -> (r: Option<AttributeType>)
    ensures
        r == attr_kind(*v),
{
    match v {
        JsonValue::Null => None,
        JsonValue::Bool(_) => Some(AttributeType::Boolean),
        JsonValue::Number(_) => Some(AttributeType::Number),
        JsonValue::String(_) => Some(AttributeType::String),
        JsonValue::Array(_) => Some(AttributeType::Array),
        JsonValue::Object(_) => Some(AttributeType::Object),
    }
}

/// Records one more occurrence of the attribute `name` with kind `t`.
fn add_attribute_occurrence(
    out: &mut Vec<AttributeDefinition>,
    names: &mut Vec<String>,
    name: &String,
    t: AttributeType,
    Ghost(occ): Ghost<Seq<(Seq<char>, AttributeType)>>,
)
    requires
        describes_attributes(old(out)@, occ),
        texts(old(names)@) == attr_names(old(out)@),
    ensures
        describes_attributes(final(out)@, occ.push((name@, t))),
        texts(final(names)@) == attr_names(final(out)@),
{
    let ghost occ2 = occ.push((name@, t));
    let ghost t0 = texts(names@);
    assert(occ2.drop_last() =~= occ);
    let nc = chars_of(name.as_str());
    let (pos, found) = crate::sorted::sorted_position(names, nc.as_slice());
    if found {
        let old_t = out[pos].attr_type;
        let new_t = if old_t == t { old_t } else { AttributeType::String };
        let ghost out0 = out@;
        assert(attr_names(out0)[pos as int] == name@);
        out.set(pos, AttributeDefinition { name: name.clone(), attr_type: new_t });
        proof {
            assert(attr_names(out@) =~= attr_names(out0));
            assert forall|x: Seq<char>| #[trigger] attr_names(out@).contains(x) <==> merged_kind(occ2, x) is Some by {
                assert(attr_names(out0).contains(name@));
            }
            assert forall|k: int| 0 <= k < out@.len() implies merged_kind(occ2, #[trigger] out@[k].name@) == Some(out@[k].attr_type) by {
                if k == pos {
                    assert(merged_kind(occ, name@) == Some(old_t));
                } else {
                    assert(out@[k] == out0[k]);
                    assert(attr_names(out0)[k] == out0[k].name@);
                    assert(out0[k].name@ != name@) by {
                        crate::sorted::lemma_text_lt_irreflexive(name@);
                    }
                }
            }
        }
    } else {
        let ghost out0 = out@;
        names.insert(pos, name.clone());
        out.insert(pos, AttributeDefinition { name: name.clone(), attr_type: t });
        proof {
            assert(texts(names@) =~= t0.insert(pos as int, name@));
            assert(attr_names(out@) =~= attr_names(out0).insert(pos as int, name@));
            crate::sorted::lemma_insert_sorted(t0, pos as int, name@);
            assert(merged_kind(occ, name@) is None);
            assert forall|x: Seq<char>| #[trigger] attr_names(out@).contains(x) <==> merged_kind(occ2, x) is Some by {
                assert(t0.insert(pos as int, name@).contains(x) <==> (t0.contains(x) || x == name@));
            }
            assert forall|k: int| 0 <= k < out@.len() implies merged_kind(occ2, #[trigger] out@[k].name@) == Some(out@[k].attr_type) by {
                if k < pos {
                    assert(out@[k] == out0[k]);
                    assert(attr_names(out0)[k] == out0[k].name@);
                    assert(t0.contains(out0[k].name@));
                } else if k > pos {
                    assert(out@[k] == out0[k - 1]);
                    assert(attr_names(out0)[k - 1] == out0[k - 1].name@);
                    assert(t0.contains(out0[k - 1].name@));
                }
            }
        }
    }
}

/// The attributes of the city objects: one definition per attribute name,
/// sorted by name, whose kind is the kind of all its non-null values when
/// they agree and `String` when they do not.
pub fn extract_attributes_from_data(data: &JsonValue) -> (r: Vec<AttributeDefinition>)
    ensures
        describes_attributes(r@, attribute_occurrences(city_objects(*data))),
{
    let mut out: Vec<AttributeDefinition> = Vec::new();
    let mut names: Vec<String> = Vec::new();
    assert(attr_names(out@) =~= Seq::<Seq<char>>::empty());
    assert(texts(names@) =~= Seq::<Seq<char>>::empty());
    let ghost all = city_objects(*data);
    match city_objects_exec(data) {
        None => {
            assert(attribute_occurrences(all) =~= Seq::<(Seq<char>, AttributeType)>::empty());
        },
        Some(ms) => {
            let mut i: usize = 0;
            assert(ms@.subrange(0, 0) =~= Seq::<JsonMember>::empty());
            while i < ms.len()
                invariant
                    i <= ms@.len(),
                    all == ms@,
                    describes_attributes(out@, attribute_occurrences(ms@.subrange(0, i as int))),
                    texts(names@) == attr_names(out@),
                decreases ms.len() - i,
            {
                let ghost before = attribute_occurrences(ms@.subrange(0, i as int));
                assert(ms@.subrange(0, i + 1).drop_last() =~= ms@.subrange(0, i as int));
                assert(ms@.subrange(0, i + 1).last() == ms@[i as int]);
                match get(&ms[i].value, "attributes") {
                    Some(JsonValue::Object(attrs)) => {
                        let mut j: usize = 0;
                        assert(member_attributes(attrs@.subrange(0, 0)) =~= Seq::<(Seq<char>, AttributeType)>::empty());
                        assert(before + Seq::<(Seq<char>, AttributeType)>::empty() =~= before);
                        while j < attrs.len()
                            invariant
                                j <= attrs@.len(),
                                describes_attributes(out@, before + member_attributes(attrs@.subrange(0, j as int))),
                                texts(names@) == attr_names(out@),
                            decreases attrs.len() - j,
                        {
                            let ghost prev = before + member_attributes(attrs@.subrange(0, j as int));
                            assert(attrs@.subrange(0, j + 1).drop_last() =~= attrs@.subrange(0, j as int));
                            assert(attrs@.subrange(0, j + 1).last() == attrs@[j as int]);
                            match attr_kind_exec(&attrs[j].value) {
                                Some(t) => {
                                    add_attribute_occurrence(&mut out, &mut names, &attrs[j].key, t, Ghost(prev));
                                    assert(before + member_attributes(attrs@.subrange(0, j + 1)) =~= prev.push((attrs@[j as int].key@, t)));
                                },
                                None => {
                                    assert(before + member_attributes(attrs@.subrange(0, j + 1)) =~= prev);
                                },
                            }
                            j += 1;
                        }
                        assert(attrs@.subrange(0, attrs@.len() as int) =~= attrs@);
                        assert(attribute_occurrences(ms@.subrange(0, i + 1)) =~= before + member_attributes(attrs@));
                    },
                    _ => {
                        assert(attribute_occurrences(ms@.subrange(0, i + 1)) =~= before);
                    },
                }
                i += 1;
            }
            assert(ms@.subrange(0, ms@.len() as int) =~= ms@);
        },
    }
    out
}

// ---------------------------------------------------------------------------
// Coordinate reference system
// ---------------------------------------------------------------------------

/// The EPSG code at the end of a text that mentions `EPSG` (such as
/// `https://www.opengis.net/def/crs/EPSG/0/7415`): what follows its last
/// `/`, read as a `u32`.
pub open spec fn epsg_url_code(s: Seq<char>) -> Option<u32> {
    if contains_seq(s, "EPSG"@) {
        parse_u32(after_last(s, '/'))
    } else {
        None
    }
}

/// The EPSG code of a text of the form `EPSG:<code>`.
pub open spec fn epsg_name_code(s: Seq<char>) -> Option<u32> {
    match strip_prefix(s, "EPSG:"@) {
        Some(c) => parse_u32(c),
        None => None,
    }
}

/// The EPSG code of a `referenceSystem` value: a URL string, or an object
/// whose `code`, else `referenceSystemName` (`EPSG:<code>`), else
/// `base_url` gives it.
pub open spec fn reference_system_code(rs: JsonValue) -> Option<u32> {
    let from_text = match as_text(Some(rs)) {
        Some(s) => epsg_url_code(s),
        None => None,
    };
    if from_text is Some {
        from_text
    } else if as_members(Some(rs)) is Some {
        let from_code = match as_text(json_get(rs, "code"@)) {
            Some(c) => parse_u32(c),
            None => None,
        };
        let from_name = match as_text(json_get(rs, "referenceSystemName"@)) {
            Some(n) => epsg_name_code(n),
            None => None,
        };
        let from_base = match as_text(json_get(rs, "base_url"@)) {
            Some(b) => epsg_url_code(b),
            None => None,
        };
        if from_code is Some {
            from_code
        } else if from_name is Some {
            from_name
        } else {
            from_base
        }
    } else {
        None
    }
}

/// The EPSG code of a CityJSON 1.0 `CRS` string (`EPSG:<code>` or a URL
/// mentioning EPSG).
pub open spec fn crs_string_code(s: Seq<char>) -> Option<u32> {
    if epsg_name_code(s) is Some {
        epsg_name_code(s)
    } else {
        epsg_url_code(s)
    }
}

/// The EPSG code the document's metadata declares: from
/// `metadata.referenceSystem`, else from `metadata.CRS`.
pub open spec fn document_epsg(data: JsonValue) -> Option<u32> {
    match json_get(data, "metadata"@) {
        Some(md) => {
            let from_rs = match json_get(md, "referenceSystem"@) {
                Some(rs) => reference_system_code(rs),
                None => None,
            };
            if from_rs is Some {
                from_rs
            } else {
                match as_text(json_get(md, "CRS"@)) {
                    Some(c) => crs_string_code(c),
                    None => None,
                }
            }
        },
        None => None,
    }
}

/// The EPSG code at the end of a text that mentions `EPSG`.
fn epsg_url_code_exec(s: &String) -> (r: Option<u32>)
    ensures
        r == epsg_url_code(s@),
{
    let v = chars_of(s.as_str());
    if contains_exec(v.as_slice(), chars_of("EPSG").as_slice()) {
        let last = after_last_exec(v.as_slice(), '/');
        parse_u32_exec(last.as_slice())
    } else {
        None
    }
}

/// The EPSG code of a text of the form `EPSG:<code>`.
fn epsg_name_code_exec(s: &String) -> (r: Option<u32>)
    ensures
        r == epsg_name_code(s@),
{
    let v = chars_of(s.as_str());
    match strip_prefix_exec(v.as_slice(), chars_of("EPSG:").as_slice()) {
        Some(c) => parse_u32_exec(c.as_slice()),
        None => None,
    }
}

/// The EPSG code of a `referenceSystem` value.
fn reference_system_code_exec(rs: &JsonValue) -> (r: Option<u32>)
    ensures
        r == reference_system_code(*rs),
{
    let from_text = match rs {
        JsonValue::String(s) => epsg_url_code_exec(s),
        _ => None,
    };
    if from_text.is_some() {
        return from_text;
    }
    match rs {
        JsonValue::Object(_) => {
            let from_code = match get(rs, "code") {
                Some(JsonValue::String(c)) => parse_u32_exec(chars_of(c.as_str()).as_slice()),
                _ => None,
            };
            if from_code.is_some() {
                return from_code;
            }
            let from_name = match get(rs, "referenceSystemName") {
                Some(JsonValue::String(n)) => epsg_name_code_exec(n),
                _ => None,
            };
            if from_name.is_some() {
                return from_name;
            }
            match get(rs, "base_url") {
                Some(JsonValue::String(b)) => epsg_url_code_exec(b),
                _ => None,
            }
        },
        _ => None,
    }
}

/// The EPSG code the document's metadata declares.
fn document_epsg_exec(data: &JsonValue) -> (r: Option<u32>)
    ensures
        r == document_epsg(*data),
{
    match get(data, "metadata") {
        Some(md) => {
            let from_rs = match get(md, "referenceSystem") {
                Some(rs) => reference_system_code_exec(rs),
                None => None,
            };
            if from_rs.is_some() {
                return from_rs;
            }
            match get(md, "CRS") {
                Some(JsonValue::String(c)) => {
                    let n = epsg_name_code_exec(c);
                    if n.is_some() {
                        n
                    } else {
                        epsg_url_code_exec(c)
                    }
                },
                _ => None,
            }
        },
        None => None,
    }
}

/// The coordinate reference system the document declares; WGS84 (EPSG:4326)
/// when it declares none that gives an EPSG code.
pub fn extract_crs_from_data(data: &JsonValue) -> (r: CRS)
    ensures
        is_epsg_crs(r, match document_epsg(*data) {
            Some(code) => code,
            None => 4326,
        }),
{
    match document_epsg_exec(data) {
        Some(code) => CRS::from_epsg(code),
        None => CRS::default(),
    }
}

} // verus!
