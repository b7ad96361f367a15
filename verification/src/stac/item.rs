//! The STAC Item builder: an item's properties from what a reader reports,
//! its data asset and links, and the extensions it declares.

use vstd::prelude::*;
use crate::cli::{
    asset_href, data_file_name, data_file_name_of, encoding_media_type, encoding_suffix, format_suffix,
    item_stem, media_type_for_encoding, spec_asset_href, stem_of,
};
use crate::error::CityJsonStacError;
use crate::json::{
    JsonMember, JsonValue, distinct_keys, has_member, is_string_array, is_string_value, is_u64_number,
    member_updated, members_get, set_member, set_member_if, string_array, u64_number,
};
use crate::keyed::{distinct_names, entry_get, set_entry};
use crate::metadata::attributes::{AttributeDefinition, AttributeType};
use crate::reader::ModelFacts;
use crate::stac::collection::{city3d_schema, file_schema, is_lod_array, is_lod_value, projection_schema};
use crate::stac::models::{Asset, CityObjectsCount, Link, StacItem, is_json_link, is_utc_timestamp, json_link, now_rfc3339};
use crate::stac::accumulator::{attribute_type_of, bool_value, count_of_value, element_texts, text_value, texts_value};
use crate::text::{IntoText, chars_of, concat, opt_text, string_of, texts};

verus! {

/// The name a kind of attribute values is written with.
pub open spec fn attribute_type_name(t: AttributeType) -> Seq<char> {
    match t {
        AttributeType::String => "string"@,
        AttributeType::Number => "number"@,
        AttributeType::Boolean => "boolean"@,
        AttributeType::Array => "array"@,
        AttributeType::Object => "object"@,
    }
}

/// The kind name written for an attribute reads back as the same kind
/// (`string`, `number`, `boolean`, `array`, `object`), so different kinds
/// are written differently.
pub proof fn lemma_attribute_type_names_read_back(t: AttributeType, u: AttributeType)
    ensures
        attribute_type_of(attribute_type_name(t)) == Some(t),
        t != u ==> attribute_type_name(t) != attribute_type_name(u),
{
    reveal_strlit("string");
    reveal_strlit("number");
    reveal_strlit("boolean");
    reveal_strlit("array");
    reveal_strlit("object");
    assert("string"@[0] != "number"@[0] && "string"@[0] != "object"@[0] && "number"@[0] != "object"@[0]);
    assert("string"@.len() != "boolean"@.len() && "string"@.len() != "array"@.len());
    assert("number"@.len() != "boolean"@.len() && "number"@.len() != "array"@.len());
    assert("object"@.len() != "boolean"@.len() && "object"@.len() != "array"@.len());
    assert("boolean"@.len() != "array"@.len());
}

/// `v` is the JSON description of the attribute `a`:
/// `{"name": <name>, "type": <kind>}`.
pub open spec fn is_attribute_object(v: JsonValue, a: AttributeDefinition) -> bool {
    match v {
        JsonValue::Object(ms) => {
            &&& is_string_value_opt(members_get(ms@, "name"@), a.name@)
            &&& is_string_value_opt(members_get(ms@, "type"@), attribute_type_name(a.attr_type))
        },
        _ => false,
    }
}

/// `v` is the JSON string `s`.
pub open spec fn is_string_value_opt(v: Option<JsonValue>, s: Seq<char>) -> bool {
    match v {
        Some(x) => is_string_value(x, s),
        None => false,
    }
}

/// `v` is the array of the JSON descriptions of `attrs`.
pub open spec fn is_attribute_array(v: JsonValue, attrs: Seq<AttributeDefinition>) -> bool {
    match v {
        JsonValue::Array(xs) => {
            &&& xs@.len() == attrs.len()
            &&& forall|i: int| 0 <= i < attrs.len() ==> is_attribute_object(#[trigger] xs@[i], attrs[i])
        },
        _ => false,
    }
}

/// The JSON description of an attribute.
pub fn attribute_json(a: &AttributeDefinition) -> (r: JsonValue)
    ensures
        is_attribute_object(r, *a),
{
    let kind = match a.attr_type {
        AttributeType::String => "string",
        AttributeType::Number => "number",
        AttributeType::Boolean => "boolean",
        AttributeType::Array => "array",
        AttributeType::Object => "object",
    };
    let mut ms: Vec<JsonMember> = Vec::new();
    set_member(&mut ms, "name".to_string(), JsonValue::String(a.name.clone()));
    set_member(&mut ms, "type".to_string(), JsonValue::String(kind.to_string()));
    proof {
        reveal_strlit("name");
        reveal_strlit("type");
        assert("name"@[0] != "type"@[0]);
    }
    JsonValue::Object(ms)
}

/// The JSON descriptions of a list of attributes.
pub fn attributes_json(attrs: &Vec<AttributeDefinition>) -> (r: JsonValue)
    ensures
        is_attribute_array(r, attrs@),
{
    let mut xs: Vec<JsonValue> = Vec::new();
    let mut i: usize = 0;
    while i < attrs.len()
        invariant
            i <= attrs@.len(),
            xs@.len() == i,
            forall|j: int| 0 <= j < i ==> is_attribute_object(#[trigger] xs@[j], attrs@[j]),
        decreases attrs.len() - i,
    {
        xs.push(attribute_json(&attrs[i]));
        i += 1;
    }
    JsonValue::Array(xs)
}

/// The extensions an item declares: 3D city models always; the projection
/// extension with a `proj:epsg` property; the file extension once a file
/// size was set.
pub open spec fn item_extensions(has_epsg: bool, uses_file: bool) -> Seq<Seq<char>> {
    seq![city3d_schema()]
        + (if has_epsg { seq![projection_schema()] } else { seq![] })
        + (if uses_file { seq![file_schema()] } else { seq![] })
}

/// `hay` holds `needle` as a run of consecutive characters.
pub open spec fn contains_text(hay: Seq<char>, needle: Seq<char>) -> bool {
    exists|i: int| 0 <= i && i + needle.len() <= hay.len() && #[trigger] hay.subrange(i, i + needle.len()) == needle
}

/// A text without the letter `r` does not hold `projection`.
proof fn lemma_no_projection(hay: Seq<char>)
    requires
        forall|i: int| 0 <= i < hay.len() ==> hay[i] != 'r',
    ensures
        !contains_text(hay, "projection"@),
{
    reveal_strlit("projection");
    if contains_text(hay, "projection"@) {
        let i = choose|i: int| 0 <= i && i + "projection"@.len() <= hay.len()
            && #[trigger] hay.subrange(i, i + "projection"@.len()) == "projection"@;
        assert(hay.subrange(i, i + 10)[1] == 'r');
        assert(hay[i + 1] == 'r');
    }
}

/// Of the extensions an item declares, one names the projection extension
/// exactly when the item has a `proj:epsg` property, and the first is the
/// 3D city models extension (`stac-city3d`).
pub proof fn lemma_item_extensions_named(has_epsg: bool, uses_file: bool)
    ensures
        (exists|k: int| 0 <= k < item_extensions(has_epsg, uses_file).len()
            && contains_text(#[trigger] item_extensions(has_epsg, uses_file)[k], "projection"@)) <==> has_epsg,
        contains_text(item_extensions(has_epsg, uses_file)[0], "stac-city3d"@),
{
    let exts = item_extensions(has_epsg, uses_file);
    reveal_strlit("https://cityjson.github.io/stac-city3d/v0.1.0/schema.json");
    reveal_strlit("https://stac-extensions.github.io/projection/v2.0.0/schema.json");
    reveal_strlit("https://stac-extensions.github.io/file/v2.1.0/schema.json");
    reveal_strlit("projection");
    reveal_strlit("stac-city3d");
    let c = city3d_schema();
    let p = projection_schema();
    let f = file_schema();
    assert(c.subrange(27, 38) =~= "stac-city3d"@);
    assert(c.subrange(27, 27int + "stac-city3d"@.len()) == "stac-city3d"@);
    assert(contains_text(c, "stac-city3d"@));
    assert(p.subrange(34, 44) =~= "projection"@);
    assert(p.subrange(34, 34int + "projection"@.len()) == "projection"@);
    assert(contains_text(p, "projection"@));
    assert forall|i: int| 0 <= i < c.len() implies c[i] != 'r' by {}
    assert forall|i: int| 0 <= i < f.len() implies f[i] != 'r' by {}
    lemma_no_projection(c);
    lemma_no_projection(f);
    if has_epsg {
        assert(exts[1] == p);
        assert(contains_text(exts[1], "projection"@));
    } else {
        assert forall|k: int| 0 <= k < exts.len() implies !contains_text(#[trigger] exts[k], "projection"@) by {
            assert(exts[k] == c || exts[k] == f);
        }
    }
    assert(exts[0] == c);
}

/// `a` is the data asset of a file: at `href`, of media type `media_type`,
/// titled `CityJSON data file`, with the role `data`.
pub open spec fn is_data_asset(a: Asset, href: Seq<char>, media_type: Seq<char>) -> bool {
    &&& a.href@ == href
    &&& opt_text(a.media_type) == Some(media_type)
    &&& opt_text(a.title) == Some("CityJSON data file"@)
    &&& a.description is None
    &&& a.roles matches Some(roles) && texts(roles@) == seq!["data"@]
    &&& a.file_size is None
    &&& a.file_checksum is None
}

/// Builder for STAC Items. `B` is the bounding box and `G` the geometry.
pub struct StacItemBuilder<B, G> {
    pub id: String,
    pub bbox: Option<B>,
    pub geometry: Option<G>,
    pub properties: Vec<JsonMember>,
    pub assets: Vec<(String, Asset)>,
    pub links: Vec<Link>,
    /// Whether the File Extension is used (a file size was set).
    pub uses_file_extension: bool,
}

/// What reading a model's facts writes into an item's properties `new`,
/// from the properties `old`.
pub open spec fn metadata_properties<F: Fn(&String) -> JsonValue>(
    new: Seq<JsonMember>,
    old: Seq<JsonMember>,
    f: ModelFacts,
    lod_value: F,
) -> bool {
    &&& member_updated(new, old, "city3d:version"@, f.version is Some,
        |v: JsonValue| is_string_value(v, f.version.unwrap()@))
    &&& member_updated(new, old, "city3d:city_objects"@, f.city_object_count is Some,
        |v: JsonValue| v matches JsonValue::Number(n) && is_u64_number(n, f.city_object_count.unwrap()))
    &&& member_updated(new, old, "city3d:lods"@, f.lods matches Some(l) && l@.len() > 0,
        |v: JsonValue| is_lod_array(v, texts(f.lods.unwrap()@), lod_value))
    &&& member_updated(new, old, "city3d:co_types"@, f.city_object_types matches Some(t) && t@.len() > 0,
        |v: JsonValue| is_string_array(v, texts(f.city_object_types.unwrap()@)))
    &&& member_updated(new, old, "city3d:attributes"@, f.attributes matches Some(a) && a@.len() > 0,
        |v: JsonValue| is_attribute_array(v, f.attributes.unwrap()@))
    &&& member_updated(new, old, "city3d:semantic_surfaces"@, f.semantic_surfaces == Some(true),
        |v: JsonValue| v == JsonValue::Bool(true))
    &&& member_updated(new, old, "city3d:textures"@, f.textures == Some(true),
        |v: JsonValue| v == JsonValue::Bool(true))
    &&& member_updated(new, old, "city3d:materials"@, f.materials == Some(true),
        |v: JsonValue| v == JsonValue::Bool(true))
    &&& member_updated(new, old, "proj:epsg"@, f.crs matches Some(c) && c.epsg is Some,
        |v: JsonValue| v matches JsonValue::Number(n) && is_u64_number(n, f.crs.unwrap().epsg.unwrap() as u64))
    &&& forall|k: Seq<char>| !is_item_metadata_key(k) ==> #[trigger] members_get(new, k) == members_get(old, k)
}

/// The property keys that reading a model's facts writes.
pub open spec fn is_item_metadata_key(k: Seq<char>) -> bool {
    ||| k == "city3d:version"@
    ||| k == "city3d:city_objects"@
    ||| k == "city3d:lods"@
    ||| k == "city3d:co_types"@
    ||| k == "city3d:attributes"@
    ||| k == "city3d:semantic_surfaces"@
    ||| k == "city3d:textures"@
    ||| k == "city3d:materials"@
    ||| k == "proj:epsg"@
}

/// The property keys are different texts.
proof fn lemma_property_keys_distinct()
    ensures
        forall|a: int, b: int| 0 <= a < b < 9 ==> #[trigger] item_metadata_key(a) != #[trigger] item_metadata_key(b),
{
    reveal_strlit("city3d:version");
    reveal_strlit("city3d:city_objects");
    reveal_strlit("city3d:lods");
    reveal_strlit("city3d:co_types");
    reveal_strlit("city3d:attributes");
    reveal_strlit("city3d:semantic_surfaces");
    reveal_strlit("city3d:textures");
    reveal_strlit("city3d:materials");
    reveal_strlit("proj:epsg");
    assert("city3d:version"@.len() == 14);
    assert("city3d:city_objects"@.len() == 19);
    assert("city3d:lods"@.len() == 11);
    assert("city3d:co_types"@.len() == 15);
    assert("city3d:attributes"@.len() == 17);
    assert("city3d:semantic_surfaces"@.len() == 24);
    assert("city3d:textures"@.len() == 15);
    assert("city3d:materials"@.len() == 16);
    assert("proj:epsg"@.len() == 9);
    assert("city3d:co_types"@[7] != "city3d:textures"@[7]);
}

/// The property keys, numbered.
pub open spec fn item_metadata_key(i: int) -> Seq<char> {
    if i == 0 {
        "city3d:version"@
    } else if i == 1 {
        "city3d:city_objects"@
    } else if i == 2 {
        "city3d:lods"@
    } else if i == 3 {
        "city3d:co_types"@
    } else if i == 4 {
        "city3d:attributes"@
    } else if i == 5 {
        "city3d:semantic_surfaces"@
    } else if i == 6 {
        "city3d:textures"@
    } else if i == 7 {
        "city3d:materials"@
    } else {
        "proj:epsg"@
    }
}

impl<B, G> StacItemBuilder<B, G> {
    /// The properties and the assets are maps: no key twice.
    pub open spec fn wf(&self) -> bool {
        &&& distinct_keys(self.properties@)
        &&& distinct_names(self.assets@)
    }

    /// A builder of the item `id`, with the property `datetime` set to the
    /// current time (RFC 3339) and nothing else.
    pub fn new<I: IntoText>(id: I) -> (r: Self)
        ensures
            r.wf(),
            r.id@ == id.text(),
            r.bbox is None,
            r.geometry is None,
            r.properties@.len() == 1,
            r.properties@[0].key@ == "datetime"@,
            r.properties@[0].value matches JsonValue::String(t) && is_utc_timestamp(t@),
            r.assets@.len() == 0,
            r.links@.len() == 0,
            !r.uses_file_extension,
    {
        let mut properties: Vec<JsonMember> = Vec::new();
        properties.push(JsonMember { key: "datetime".to_string(), value: JsonValue::String(now_rfc3339()) });
        StacItemBuilder {
            id: id.into_text(),
            bbox: None,
            geometry: None,
            properties,
            assets: Vec::new(),
            links: Vec::new(),
            uses_file_extension: false,
        }
    }

    /// Sets the bounding box.
    pub fn bbox(self, bbox: B) -> (r: Self)
        ensures
            r == (StacItemBuilder { bbox: Some(bbox), ..self }),
    {
        let mut s = self;
        s.bbox = Some(bbox);
        s
    }

    /// Sets the geometry (the footprint).
    pub fn geometry(self, geometry: G) -> (r: Self)
        ensures
            r == (StacItemBuilder { geometry: Some(geometry), ..self }),
    {
        let mut s = self;
        s.geometry = Some(geometry);
        s
    }

    /// Sets the property `key` to `value`.
    pub fn property<K: IntoText>(self, key: K, value: JsonValue) -> (r: Self)
        requires
            self.wf(),
        ensures
            r.wf(),
            r == (StacItemBuilder { properties: r.properties, ..self }),
            members_get(r.properties@, key.text()) == Some(value),
            forall|k: Seq<char>| k != key.text() ==> #[trigger] members_get(r.properties@, k) == members_get(self.properties@, k),
    {
        let mut s = self;
        set_member(&mut s.properties, key.into_text(), value);
        s
    }

    /// Sets `datetime` to the given RFC 3339 date-time.
    pub fn datetime(self, rfc3339: String) -> (r: Self)
        requires
            self.wf(),
        ensures
            r.wf(),
            r == (StacItemBuilder { properties: r.properties, ..self }),
            members_get(r.properties@, "datetime"@) == Some(JsonValue::String(rfc3339)),
            forall|k: Seq<char>| k != "datetime"@ ==> #[trigger] members_get(r.properties@, k) == members_get(self.properties@, k),
    {
        self.property("datetime", JsonValue::String(rfc3339))
    }

    /// Sets the title.
    pub fn title<T: IntoText>(self, title: T) -> (r: Self)
        requires
            self.wf(),
        ensures
            r.wf(),
            r == (StacItemBuilder { properties: r.properties, ..self }),
            members_get(r.properties@, "title"@) matches Some(v) && is_string_value(v, title.text()),
            forall|k: Seq<char>| k != "title"@ ==> #[trigger] members_get(r.properties@, k) == members_get(self.properties@, k),
    {
        self.property("title", JsonValue::String(title.into_text()))
    }

    /// Sets the description.
    pub fn description<T: IntoText>(self, description: T) -> (r: Self)
        requires
            self.wf(),
        ensures
            r.wf(),
            r == (StacItemBuilder { properties: r.properties, ..self }),
            members_get(r.properties@, "description"@) matches Some(v) && is_string_value(v, description.text()),
            forall|k: Seq<char>| k != "description"@ ==> #[trigger] members_get(r.properties@, k) == members_get(self.properties@, k),
    {
        self.property("description", JsonValue::String(description.into_text()))
    }

    /// Adds the 3D city model properties of what a reader reports:
    /// `city3d:version`, `city3d:city_objects`, `city3d:lods` (each written
    /// as `lod_value` gives it), `city3d:co_types`, `city3d:attributes`
    /// (the last three when not empty), `city3d:semantic_surfaces`,
    /// `city3d:textures` and `city3d:materials` (when true), and
    /// `proj:epsg` (when the CRS has an EPSG code). A fact the reader could
    /// not tell is left out.
    pub fn cityjson_metadata<F: Fn(&String) -> JsonValue>(self, facts: &ModelFacts, lod_value: F) -> (r: Result<Self, CityJsonStacError>)
        requires
            self.wf(),
            forall|x: &String| call_requires(lod_value, (x,)),
        ensures
            r matches Ok(b) && {
                &&& b.wf()
                &&& b == (StacItemBuilder { properties: b.properties, ..self })
                &&& metadata_properties(b.properties@, self.properties@, *facts, lod_value)
            },
    {
        proof { lemma_property_keys_distinct(); }
        assert(item_metadata_key(0) != item_metadata_key(1));
        let mut s = self;
        let ghost p0 = s.properties@;
        let version = match &facts.version {
            Some(v) => JsonValue::String(v.clone()),
            None => JsonValue::Null,
        };
        set_member_if(&mut s.properties, "city3d:version", facts.version.is_some(), version);
        let count = match facts.city_object_count {
            Some(n) => u64_number(n),
            None => JsonValue::Null,
        };
        set_member_if(&mut s.properties, "city3d:city_objects", facts.city_object_count.is_some(), count);
        let (has_lods, lods) = match &facts.lods {
            Some(l) => (l.len() > 0, crate::stac::collection::lod_array(l, &lod_value)),
            None => (false, JsonValue::Null),
        };
        set_member_if(&mut s.properties, "city3d:lods", has_lods, lods);
        let (has_types, types) = match &facts.city_object_types {
            Some(t) => (t.len() > 0, string_array(t)),
            None => (false, JsonValue::Null),
        };
        set_member_if(&mut s.properties, "city3d:co_types", has_types, types);
        let (has_attrs, attrs) = match &facts.attributes {
            Some(a) => (a.len() > 0, attributes_json(a)),
            None => (false, JsonValue::Null),
        };
        set_member_if(&mut s.properties, "city3d:attributes", has_attrs, attrs);
        set_member_if(&mut s.properties, "city3d:semantic_surfaces", facts.semantic_surfaces == Some(true), JsonValue::Bool(true));
        set_member_if(&mut s.properties, "city3d:textures", facts.textures == Some(true), JsonValue::Bool(true));
        set_member_if(&mut s.properties, "city3d:materials", facts.materials == Some(true), JsonValue::Bool(true));
        let epsg: Option<u32> = match &facts.crs {
            Some(c) => c.to_stac_epsg(),
            None => None,
        };
        let epsg_value = match epsg {
            Some(code) => u64_number(code as u64),
            None => JsonValue::Null,
        };
        set_member_if(&mut s.properties, "proj:epsg", epsg.is_some(), epsg_value);
        proof {
            assert(item_metadata_key(0) != item_metadata_key(2));
            assert(item_metadata_key(0) != item_metadata_key(3));
            assert(item_metadata_key(0) != item_metadata_key(4));
            assert(item_metadata_key(0) != item_metadata_key(5));
            assert(item_metadata_key(0) != item_metadata_key(6));
            assert(item_metadata_key(0) != item_metadata_key(7));
            assert(item_metadata_key(0) != item_metadata_key(8));
            assert(item_metadata_key(1) != item_metadata_key(2));
            assert(item_metadata_key(1) != item_metadata_key(3));
            assert(item_metadata_key(1) != item_metadata_key(4));
            assert(item_metadata_key(1) != item_metadata_key(5));
            assert(item_metadata_key(1) != item_metadata_key(6));
            assert(item_metadata_key(1) != item_metadata_key(7));
            assert(item_metadata_key(1) != item_metadata_key(8));
            assert(item_metadata_key(2) != item_metadata_key(3));
            assert(item_metadata_key(2) != item_metadata_key(4));
            assert(item_metadata_key(2) != item_metadata_key(5));
            assert(item_metadata_key(2) != item_metadata_key(6));
            assert(item_metadata_key(2) != item_metadata_key(7));
            assert(item_metadata_key(2) != item_metadata_key(8));
            assert(item_metadata_key(3) != item_metadata_key(4));
            assert(item_metadata_key(3) != item_metadata_key(5));
            assert(item_metadata_key(3) != item_metadata_key(6));
            assert(item_metadata_key(3) != item_metadata_key(7));
            assert(item_metadata_key(3) != item_metadata_key(8));
            assert(item_metadata_key(4) != item_metadata_key(5));
            assert(item_metadata_key(4) != item_metadata_key(6));
            assert(item_metadata_key(4) != item_metadata_key(7));
            assert(item_metadata_key(4) != item_metadata_key(8));
            assert(item_metadata_key(5) != item_metadata_key(6));
            assert(item_metadata_key(5) != item_metadata_key(7));
            assert(item_metadata_key(5) != item_metadata_key(8));
            assert(item_metadata_key(6) != item_metadata_key(7));
            assert(item_metadata_key(6) != item_metadata_key(8));
            assert(item_metadata_key(7) != item_metadata_key(8));
        }
        Ok(s)
    }

    /// Sets `file:size` and marks the File Extension as used.
    pub fn file_size(self, size: u64) -> (r: Self)
        requires
            self.wf(),
        ensures
            r.wf(),
            r == (StacItemBuilder { properties: r.properties, uses_file_extension: true, ..self }),
            members_get(r.properties@, "file:size"@) matches Some(JsonValue::Number(n)) && is_u64_number(n, size),
            forall|k: Seq<char>| k != "file:size"@ ==> #[trigger] members_get(r.properties@, k) == members_get(self.properties@, k),
    {
        let mut s = self.property("file:size", u64_number(size));
        s.uses_file_extension = true;
        s
    }

    /// Sets the asset `data`: the data file at `href`, of type `media_type`,
    /// titled `CityJSON data file`, with the role `data`.
    pub fn data_asset<H: IntoText>(self, href: H, media_type: &str) -> (r: Self)
        requires
            self.wf(),
        ensures
            r.wf(),
            r == (StacItemBuilder { assets: r.assets, ..self }),
            entry_get(r.assets@, "data"@) matches Some(a) && is_data_asset(a, href.text(), media_type@),
            forall|k: Seq<char>| k != "data"@ ==> #[trigger] entry_get(r.assets@, k) == entry_get(self.assets@, k),
    {
        let roles: Vec<String> = vec!["data".to_string()];
        assert(texts(roles@) =~= seq!["data"@]);
        let asset = Asset::new(href).with_type(media_type).with_title("CityJSON data file").with_roles(roles);
        self.asset("data", asset)
    }

    /// Sets the asset `key`.
    pub fn asset<K: IntoText>(self, key: K, asset: Asset) -> (r: Self)
        requires
            self.wf(),
        ensures
            r.wf(),
            r == (StacItemBuilder { assets: r.assets, ..self }),
            entry_get(r.assets@, key.text()) == Some(asset),
            forall|k: Seq<char>| k != key.text() ==> #[trigger] entry_get(r.assets@, k) == entry_get(self.assets@, k),
    {
        let mut s = self;
        set_entry(&mut s.assets, key.into_text(), asset);
        s
    }

    /// Appends a link.
    pub fn link(self, link: Link) -> (r: Self)
        ensures
            r == (StacItemBuilder { links: r.links, ..self }),
            r.links@ == self.links@.push(link),
    {
        let mut s = self;
        s.links.push(link);
        s
    }

    /// Appends a link of relation `rel` to the JSON document `href`.
    fn json_rel_link(self, rel: &str, href: String) -> (r: Self)
        ensures
            r == (StacItemBuilder { links: r.links, ..self }),
            r.links@.len() == self.links@.len() + 1,
            r.links@.drop_last() == self.links@,
            is_json_link(r.links@.last(), rel@, href@, None),
    {
        let mut s = self;
        s.links.push(json_link(rel, href, None));
        assert(s.links@.drop_last() =~= self.links@);
        s
    }

    /// Appends a `self` link to the JSON document `href`.
    pub fn self_link<H: IntoText>(self, href: H) -> (r: Self)
        ensures
            r == (StacItemBuilder { links: r.links, ..self }),
            r.links@.len() == self.links@.len() + 1,
            r.links@.drop_last() == self.links@,
            is_json_link(r.links@.last(), "self"@, href.text(), None),
    {
        self.json_rel_link("self", href.into_text())
    }

    /// Appends a `parent` link to the JSON document `href`.
    pub fn parent_link<H: IntoText>(self, href: H) -> (r: Self)
        ensures
            r == (StacItemBuilder { links: r.links, ..self }),
            r.links@.len() == self.links@.len() + 1,
            r.links@.drop_last() == self.links@,
            is_json_link(r.links@.last(), "parent"@, href.text(), None),
    {
        self.json_rel_link("parent", href.into_text())
    }

    /// Appends a `collection` link to the JSON document `href`.
    pub fn collection_link<H: IntoText>(self, href: H) -> (r: Self)
        ensures
            r == (StacItemBuilder { links: r.links, ..self }),
            r.links@.len() == self.links@.len() + 1,
            r.links@.drop_last() == self.links@,
            is_json_link(r.links@.last(), "collection"@, href.text(), None),
    {
        self.json_rel_link("collection", href.into_text())
    }

    /// The item: STAC 1.1.0, of type `Feature`, declaring the extensions
    /// its properties call for. It never fails.
    pub fn build(self) -> (r: Result<StacItem<B, G>, CityJsonStacError>)
        requires
            self.wf(),
        ensures
            r matches Ok(item) && {
                &&& item.stac_version@ == "1.1.0"@
                &&& texts(item.stac_extensions@) == item_extensions(
                    members_get(self.properties@, "proj:epsg"@) is Some, self.uses_file_extension)
                &&& item.item_type@ == "Feature"@
                &&& item.id == self.id
                &&& item.bbox == self.bbox
                &&& item.geometry == self.geometry
                &&& item.properties == self.properties
                &&& item.assets == self.assets
                &&& item.links == self.links
            },
    {
        let has_epsg = has_member(&self.properties, "proj:epsg");
        let mut stac_extensions: Vec<String> = Vec::new();
        stac_extensions.push("https://cityjson.github.io/stac-city3d/v0.1.0/schema.json".to_string());
        if has_epsg {
            stac_extensions.push("https://stac-extensions.github.io/projection/v2.0.0/schema.json".to_string());
        }
        if self.uses_file_extension {
            stac_extensions.push("https://stac-extensions.github.io/file/v2.1.0/schema.json".to_string());
        }
        assert(texts(stac_extensions@) =~= item_extensions(has_epsg, self.uses_file_extension));
        Ok(StacItem {
            stac_version: "1.1.0".to_string(),
            stac_extensions,
            item_type: "Feature".to_string(),
            id: self.id,
            bbox: self.bbox,
            geometry: self.geometry,
            properties: self.properties,
            assets: self.assets,
            links: self.links,
        })
    }
}


/// The optional base URL as text.
pub open spec fn opt_str_text(o: Option<&str>) -> Option<Seq<char>> {
    match o {
        Some(s) => Some(s@),
        None => None,
    }
}

/// What an item built from a file is: the given id; the bounding box and
/// geometry where they could be located; the `datetime` of its creation,
/// the properties of the reader's facts, `file:size` where the size is
/// known, and `city3d:encoding`, the file's encoding; and one asset,
/// `data`, the file under `base_url`.
pub open spec fn is_file_item<B, G, F: Fn(&String) -> JsonValue>(
    b: StacItemBuilder<B, G>,
    id: Seq<char>,
    file_path: Seq<char>,
    facts: ModelFacts,
    encoding: Seq<char>,
    located: Option<(B, G)>,
    file_size: Option<u64>,
    base_url: Option<Seq<char>>,
    lod_value: F,
) -> bool {
    &&& b.wf()
    &&& b.id@ == id
    &&& b.bbox == (match located { Some(l) => Some(l.0), None => None })
    &&& b.geometry == (match located { Some(l) => Some(l.1), None => None })
    &&& exists|p0: Seq<JsonMember>, mid: Seq<JsonMember>| {
        &&& p0.len() == 1 && p0[0].key@ == "datetime"@
        &&& p0[0].value matches JsonValue::String(t) && is_utc_timestamp(t@)
        &&& metadata_properties(mid, p0, facts, lod_value)
        &&& member_updated(b.properties@, mid, "file:size"@, file_size is Some,
            |v: JsonValue| v matches JsonValue::Number(n) && is_u64_number(n, file_size.unwrap()))
        &&& members_get(b.properties@, "city3d:encoding"@) matches Some(JsonValue::String(e)) && e@ == encoding
        &&& forall|k: Seq<char>| k != "file:size"@ && k != "city3d:encoding"@
            ==> #[trigger] members_get(b.properties@, k) == members_get(mid, k)
    }
    &&& b.uses_file_extension == file_size is Some
    &&& entry_get(b.assets@, "data"@) matches Some(a)
        && is_data_asset(a, spec_asset_href(base_url, data_file_name_of(file_path)), encoding_media_type(encoding))
    &&& forall|k: Seq<char>| k != "data"@ ==> #[trigger] entry_get(b.assets@, k) is None
    &&& b.links@.len() == 0
}

impl<B, G> StacItemBuilder<B, G> {
    /// An item for a file, with the given id.
    pub fn from_file_with_id<F: Fn(&String) -> JsonValue>(
        id: String,
        file_path: &str,
        facts: &ModelFacts,
        encoding: &str,
        located: Option<(B, G)>,
        file_size: Option<u64>,
        base_url: Option<&str>,
        lod_value: F,
    ) -> (r: Result<Self, CityJsonStacError>)
        requires
            forall|x: &String| call_requires(lod_value, (x,)),
        ensures
            r matches Ok(b) && is_file_item(b, id@, file_path@, *facts, encoding@, located, file_size,
                opt_str_text(base_url), lod_value),
    {
        let ghost id_view = id@;
        let mut builder = Self::new(id);
        match located {
            Some((bbox, geometry)) => {
                builder = builder.bbox(bbox).geometry(geometry);
            },
            None => {},
        }
        let ghost p0 = builder.properties@;
        builder = match builder.cityjson_metadata(facts, lod_value) {
            Ok(b) => b,
            Err(e) => { return Err(e); },
        };
        let ghost mid = builder.properties@;
        match file_size {
            Some(size) => {
                builder = builder.file_size(size);
            },
            None => {},
        }
        let ghost sized = builder.properties@;
        builder = builder.property("city3d:encoding", JsonValue::String(encoding.to_string()));
        proof {
            reveal_strlit("city3d:encoding");
            reveal_strlit("file:size");
            assert("city3d:encoding"@.len() != "file:size"@.len());
            assert(members_get(builder.properties@, "file:size"@) == members_get(sized, "file:size"@));
        }
        let media_type = media_type_for_encoding(encoding);
        let name = data_file_name(file_path);
        let href = asset_href(base_url, name.as_str());
        let ghost before_assets = builder.assets@;
        builder = builder.data_asset(href, media_type);
        proof {
            assert(before_assets.len() == 0);
            assert forall|k: Seq<char>| k != "data"@ implies #[trigger] entry_get(builder.assets@, k) is None by {
                assert(entry_get(before_assets, k) is None);
            }
            assert(p0.len() == 1 && p0[0].key@ == "datetime"@);
        }
        Ok(builder)
    }

    /// An item for a city-model file: its id is the file's stem (or
    /// `unknown`); `located` is its bounding box and footprint in WGS84,
    /// where it has one; `file_size` the size of the file where known. The
    /// data asset points to the file's name under `base_url` when given,
    /// to the bare name otherwise, with the media type of `encoding`.
    pub fn from_file<F: Fn(&String) -> JsonValue>(
        file_path: &str,
        facts: &ModelFacts,
        encoding: &str,
        located: Option<(B, G)>,
        file_size: Option<u64>,
        base_url: Option<&str>,
        lod_value: F,
    ) -> (r: Result<Self, CityJsonStacError>)
        requires
            forall|x: &String| call_requires(lod_value, (x,)),
        ensures
            r matches Ok(b) && is_file_item(b, stem_of(file_path@), file_path@, *facts, encoding@, located,
                file_size, opt_str_text(base_url), lod_value),
    {
        let id = item_stem(file_path);
        Self::from_file_with_id(id, file_path, facts, encoding, located, file_size, base_url, lod_value)
    }

    /// As `from_file`, with the id made of the file's stem and the suffix
    /// of its encoding (`_cj`, `_cjseq`, `_fcb`), which tells apart files
    /// of the same stem in different formats.
    pub fn from_file_with_format_suffix<F: Fn(&String) -> JsonValue>(
        file_path: &str,
        facts: &ModelFacts,
        encoding: &str,
        located: Option<(B, G)>,
        file_size: Option<u64>,
        base_url: Option<&str>,
        lod_value: F,
    ) -> (r: Result<Self, CityJsonStacError>)
        requires
            forall|x: &String| call_requires(lod_value, (x,)),
        ensures
            r matches Ok(b) && is_file_item(b, stem_of(file_path@) + format_suffix(encoding@), file_path@,
                *facts, encoding@, located, file_size, opt_str_text(base_url), lod_value),
    {
        let stem = item_stem(file_path);
        let suffix = encoding_suffix(encoding);
        let all = concat(chars_of(stem.as_str()).as_slice(), chars_of(suffix).as_slice());
        let id = string_of(all.as_slice());
        Self::from_file_with_id(id, file_path, facts, encoding, located, file_size, base_url, lod_value)
    }
}


/// The texts read back from an array of strings are those strings.
proof fn lemma_element_texts_of_strings(xs: Seq<JsonValue>, items: Seq<Seq<char>>)
    requires
        xs.len() == items.len(),
        forall|i: int| 0 <= i < items.len() ==> is_string_value(#[trigger] xs[i], items[i]),
    ensures
        element_texts(xs) == items,
    decreases xs.len(),
{
    if xs.len() > 0 {
        let n = xs.len() - 1;
        assert(is_string_value(xs[n], items[n]));
        assert forall|i: int| 0 <= i < n implies is_string_value(#[trigger] xs.drop_last()[i], items.drop_last()[i]) by {
            assert(xs.drop_last()[i] == xs[i]);
            assert(is_string_value(xs[i], items[i]));
        }
        lemma_element_texts_of_strings(xs.drop_last(), items.drop_last());
        assert(items =~= items.drop_last().push(items[n]));
    }
}

/// What an item's properties record of a city model is what the metadata
/// of that item reads back: its version, its city-object count, its
/// city-object types (when there are any), and which of textures,
/// materials and semantic surfaces it has (a fact that is false or unknown
/// is not recorded, so it reads back as unknown).
pub proof fn lemma_item_metadata_round_trip<F: Fn(&String) -> JsonValue>(
    new: Seq<JsonMember>,
    old: Seq<JsonMember>,
    facts: ModelFacts,
    lod_value: F,
)
    requires
        metadata_properties(new, old, facts, lod_value),
        forall|k: Seq<char>| is_item_metadata_key(k) ==> #[trigger] members_get(old, k) is None,
    ensures
        text_value(members_get(new, "city3d:version"@)) == opt_text(facts.version),
        count_of_value(members_get(new, "city3d:city_objects"@)) == match facts.city_object_count {
            Some(n) => Some(CityObjectsCount::Integer(n)),
            None => None,
        },
        texts_value(members_get(new, "city3d:co_types"@)) == match facts.city_object_types {
            Some(t) => if t@.len() > 0 { Some(texts(t@)) } else { None },
            None => None,
        },
        bool_value(members_get(new, "city3d:textures"@)) == (if facts.textures == Some(true) { Some(true) } else { None }),
        bool_value(members_get(new, "city3d:materials"@)) == (if facts.materials == Some(true) { Some(true) } else { None }),
        bool_value(members_get(new, "city3d:semantic_surfaces"@)) == (if facts.semantic_surfaces == Some(true) { Some(true) } else { None }),
{
    assert(is_item_metadata_key("city3d:version"@));
    assert(is_item_metadata_key("city3d:city_objects"@));
    assert(is_item_metadata_key("city3d:co_types"@));
    assert(is_item_metadata_key("city3d:textures"@));
    assert(is_item_metadata_key("city3d:materials"@));
    assert(is_item_metadata_key("city3d:semantic_surfaces"@));
    match facts.city_object_types {
        Some(t) => {
            if t@.len() > 0 {
                let v = members_get(new, "city3d:co_types"@)->0;
                assert(is_string_array(v, texts(t@)));
                match v {
                    JsonValue::Array(xs) => {
                        lemma_element_texts_of_strings(xs@, texts(t@));
                    },
                    _ => {},
                }
            }
        },
        None => {},
    }
}

} // verus!
