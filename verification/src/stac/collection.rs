//! The STAC Collection builder: a collection's fields, the summaries it
//! gathers from its items, and the extensions it declares.

use vstd::prelude::*;
use crate::error::CityJsonStacError;
use crate::json::{
    JsonMember, JsonValue, bool_array, clone_json, distinct_keys, has_member, i64_number, is_i64_number,
    json_equal, json_same, member, member_updated, set_member_if, is_bool_array, is_string_array,
    is_u64_number, members_get, set_member, string_array, u64_number,
};
use crate::keyed::{distinct_names, entry_get, set_entry};
use crate::sorted::{is_sorted_set_of, is_increasing_set_of, insert_sorted_u64, lemma_contains_push_u64};
use crate::stac::accumulator::{ItemMetadata, bool_value, text_value, u64_value};
use crate::stac::models::{
    Asset, Extent, Link, Provider, SpatialExtent, StacCollection, StacItem, TemporalExtent, is_json_link,
    is_utc_timestamp, json_link,
};
use crate::stac::summaries::{
    bool_values, i64_ints, i64_stats, lemma_first_occurrences, prefix_sums_within, push_new,
    Flag, MetadataSummary, bool_set, opt_texts, counts_of, first_occurrences, flags_of, lods_of, seq_max,
    seq_min, seq_sum, summarize_metadata, types_of, u64_ints, u64_stats, versions_of,
};
use crate::text::{IntoText, clone_opt, clone_strings, opt_text, texts};
use crate::reader::ModelFacts;
use crate::decimal::decimal;
use crate::stac::models::CityObjectsCount;
use crate::sorted::{insert_sorted_unique, lemma_contains_push};

verus! {

/// The extension schema of 3D city models.
pub open spec fn city3d_schema() -> Seq<char> {
    "https://cityjson.github.io/stac-city3d/v0.1.0/schema.json"@
}

/// The extension schema of projections.
pub open spec fn projection_schema() -> Seq<char> {
    "https://stac-extensions.github.io/projection/v2.0.0/schema.json"@
}

/// The extension schema of statistics.
pub open spec fn stats_schema() -> Seq<char> {
    "https://stac-extensions.github.io/stats/v0.2.0/schema.json"@
}

/// The extension schema of item asset templates.
pub open spec fn item_assets_schema() -> Seq<char> {
    "https://stac-extensions.github.io/item-assets/v1.1.0/schema.json"@
}

/// The extension schema of file information.
pub open spec fn file_schema() -> Seq<char> {
    "https://stac-extensions.github.io/file/v2.1.0/schema.json"@
}

/// `v` is the JSON number of the unsigned integer `n`.
pub open spec fn is_u64_value(v: Option<JsonValue>, n: int) -> bool {
    match v {
        Some(JsonValue::Number(x)) => 0 <= n <= u64::MAX && is_u64_number(x, n as u64),
        _ => false,
    }
}

/// `v` is the object `{"min": min, "max": max, "total": total}`: exactly
/// these three members, in this order.
pub open spec fn is_stats_object(v: JsonValue, min: int, max: int, total: int) -> bool {
    match v {
        JsonValue::Object(ms) => {
            &&& ms@.len() == 3
            &&& ms@[0].key@ == "min"@ && is_u64_value(Some(ms@[0].value), min)
            &&& ms@[1].key@ == "max"@ && is_u64_value(Some(ms@[1].value), max)
            &&& ms@[2].key@ == "total"@ && is_u64_value(Some(ms@[2].value), total)
        },
        _ => false,
    }
}

/// `v` is what `lod_value` gives for a string with the text `lod`.
pub open spec fn is_lod_value<F: Fn(&String) -> JsonValue>(lod_value: F, lod: Seq<char>, v: JsonValue) -> bool {
    exists|l: String| #[trigger] call_ensures(lod_value, (&l,), v) && l@ == lod
}

/// `v` is the array of what `lod_value` gives for each of `lods`.
pub open spec fn is_lod_array<F: Fn(&String) -> JsonValue>(v: JsonValue, lods: Seq<Seq<char>>, lod_value: F) -> bool {
    match v {
        JsonValue::Array(xs) => {
            &&& xs@.len() == lods.len()
            &&& forall|i: int| 0 <= i < lods.len() ==> is_lod_value(lod_value, lods[i], #[trigger] xs@[i])
        },
        _ => false,
    }
}

/// `v` is the array of the distinct strings of `items`, sorted.
pub open spec fn is_sorted_string_set(v: JsonValue, items: Seq<Seq<char>>) -> bool {
    exists|t: Seq<Seq<char>>| #[trigger] is_sorted_set_of(t, items) && is_string_array(v, t)
}

/// The summary keys that aggregating city-model metadata writes.
pub open spec fn is_city3d_summary_key(k: Seq<char>) -> bool {
    ||| k == "city3d:version"@
    ||| k == "city3d:lods"@
    ||| k == "city3d:co_types"@
    ||| k == "city3d:city_objects"@
    ||| k == "city3d:semantic_surfaces"@
    ||| k == "city3d:textures"@
    ||| k == "city3d:materials"@
    ||| k == "proj:code"@
}

/// Builder for STAC Collections. `B` is the type of bounding boxes.
pub struct StacCollectionBuilder<B> {
    pub id: String,
    pub title: Option<String>,
    pub description: Option<String>,
    pub license: String,
    pub keywords: Option<Vec<String>>,
    pub providers: Option<Vec<Provider>>,
    pub extent: Extent<B>,
    pub summaries: Vec<JsonMember>,
    pub links: Vec<Link>,
    pub assets: Vec<(String, Asset)>,
    pub item_assets: Option<Vec<JsonMember>>,
}

impl<B> StacCollectionBuilder<B> {
    /// The summaries and the assets are maps: no key twice.
    pub open spec fn wf(&self) -> bool {
        &&& distinct_keys(self.summaries@)
        &&& distinct_names(self.assets@)
    }

    /// A builder with the given id, license `proprietary`, no spatial
    /// extent, a temporal extent starting now, and nothing else.
    pub fn new<I: IntoText>(id: I) -> (r: Self)
        ensures
            r.wf(),
            r.id@ == id.text(),
            r.title is None,
            r.description is None,
            r.license@ == "proprietary"@,
            r.keywords is None,
            r.providers is None,
            r.extent.spatial.bbox@.len() == 0,
            r.extent.temporal.interval@.len() == 1,
            r.extent.temporal.interval@[0]@.len() == 2,
            r.extent.temporal.interval@[0]@[0] matches Some(start) && is_utc_timestamp(start@),
            r.extent.temporal.interval@[0]@[1] is None,
            r.summaries@.len() == 0,
            r.links@.len() == 0,
            r.assets@.len() == 0,
            r.item_assets is None,
    {
        StacCollectionBuilder {
            id: id.into_text(),
            title: None,
            description: None,
            license: "proprietary".to_string(),
            keywords: None,
            providers: None,
            extent: Extent::default(),
            summaries: Vec::new(),
            links: Vec::new(),
            assets: Vec::new(),
            item_assets: None,
        }
    }

    /// Sets the title.
    pub fn title<T: IntoText>(self, title: T) -> (r: Self)
        ensures
            r == (StacCollectionBuilder { title: r.title, ..self }),
            opt_text(r.title) == Some(title.text()),
    {
        let mut s = self;
        s.title = Some(title.into_text());
        s
    }

    /// Sets the description.
    pub fn description<T: IntoText>(self, description: T) -> (r: Self)
        ensures
            r == (StacCollectionBuilder { description: r.description, ..self }),
            opt_text(r.description) == Some(description.text()),
    {
        let mut s = self;
        s.description = Some(description.into_text());
        s
    }

    /// Sets the license.
    pub fn license<T: IntoText>(self, license: T) -> (r: Self)
        ensures
            r == (StacCollectionBuilder { license: r.license, ..self }),
            r.license@ == license.text(),
    {
        let mut s = self;
        s.license = license.into_text();
        s
    }

    /// Sets the keywords.
    pub fn keywords(self, keywords: Vec<String>) -> (r: Self)
        ensures
            r == (StacCollectionBuilder { keywords: Some(keywords), ..self }),
    {
        let mut s = self;
        s.keywords = Some(keywords);
        s
    }

    /// Adds a provider after those already there.
    pub fn provider(self, provider: Provider) -> (r: Self)
        ensures
            r == (StacCollectionBuilder { providers: r.providers, ..self }),
            r.providers matches Some(ps) && ps@ == (match self.providers {
                Some(old) => old@,
                None => Seq::empty(),
            }).push(provider),
    {
        let mut s = self;
        let mut ps = match s.providers {
            Some(v) => v,
            None => Vec::new(),
        };
        ps.push(provider);
        s.providers = Some(ps);
        s
    }

    /// Adds a bounding box to the spatial extent.
    pub fn spatial_extent(self, bbox: B) -> (r: Self)
        ensures
            r == (StacCollectionBuilder { extent: r.extent, ..self }),
            r.extent.temporal == self.extent.temporal,
            r.extent.spatial.bbox@ == self.extent.spatial.bbox@.push(bbox),
    {
        let mut s = self;
        s.extent.spatial.bbox.push(bbox);
        s
    }

    /// Replaces the temporal extent by the single interval from `start` to
    /// `end` (RFC 3339 date-times; none for an open end).
    pub fn temporal_extent(self, start: Option<String>, end: Option<String>) -> (r: Self)
        ensures
            r == (StacCollectionBuilder { extent: r.extent, ..self }),
            r.extent.spatial == self.extent.spatial,
            r.extent.temporal.interval@.len() == 1,
            r.extent.temporal.interval@[0]@ == seq![start, end],
    {
        let mut s = self;
        let interval: Vec<Option<String>> = vec![start, end];
        s.extent.temporal = TemporalExtent { interval: vec![interval] };
        s
    }

    /// Sets the summary `key` to `value`.
    pub fn summary<K: IntoText>(self, key: K, value: JsonValue) -> (r: Self)
        requires
            self.wf(),
        ensures
            r.wf(),
            r == (StacCollectionBuilder { summaries: r.summaries, ..self }),
            members_get(r.summaries@, key.text()) == Some(value),
            forall|k: Seq<char>| k != key.text() ==> #[trigger] members_get(r.summaries@, k) == members_get(self.summaries@, k),
    {
        let mut s = self;
        set_member(&mut s.summaries, key.into_text(), value);
        s
    }

    /// Appends a link.
    pub fn link(self, link: Link) -> (r: Self)
        ensures
            r == (StacCollectionBuilder { links: r.links, ..self }),
            r.links@ == self.links@.push(link),
    {
        let mut s = self;
        s.links.push(link);
        s
    }

    /// Appends a `self` link to the JSON document `href`.
    pub fn self_link<H: IntoText>(self, href: H) -> (r: Self)
        ensures
            r == (StacCollectionBuilder { links: r.links, ..self }),
            r.links@.len() == self.links@.len() + 1,
            r.links@.drop_last() == self.links@,
            is_json_link(r.links@.last(), "self"@, href.text(), None),
    {
        let mut s = self;
        s.links.push(json_link("self", href.into_text(), None));
        assert(s.links@.drop_last() =~= self.links@);
        s
    }

    /// Appends an `item` link to the JSON document `href`, with the given
    /// title.
    pub fn item_link<H: IntoText>(self, href: H, title: Option<String>) -> (r: Self)
        ensures
            r == (StacCollectionBuilder { links: r.links, ..self }),
            r.links@.len() == self.links@.len() + 1,
            r.links@.drop_last() == self.links@,
            is_json_link(r.links@.last(), "item"@, href.text(), opt_text(title)),
    {
        let mut s = self;
        s.links.push(json_link("item", href.into_text(), title));
        assert(s.links@.drop_last() =~= self.links@);
        s
    }

    /// Sets the asset `key`.
    pub fn asset<K: IntoText>(self, key: K, asset: Asset) -> (r: Self)
        requires
            self.wf(),
        ensures
            r.wf(),
            r == (StacCollectionBuilder { assets: r.assets, ..self }),
            entry_get(r.assets@, key.text()) == Some(asset),
            forall|k: Seq<char>| k != key.text() ==> #[trigger] entry_get(r.assets@, k) == entry_get(self.assets@, k),
    {
        let mut s = self;
        set_entry(&mut s.assets, key.into_text(), asset);
        s
    }
}

// ---------------------------------------------------------------------------
// Writing summaries

/// The statistics object `{"min": .., "max": .., "total": ..}`.
fn stats_object(min: u64, max: u64, total: u64) -> (r: JsonValue)
    ensures
        is_stats_object(r, min as int, max as int, total as int),
{
    let mut ms: Vec<JsonMember> = Vec::new();
    ms.push(JsonMember { key: "min".to_string(), value: u64_number(min) });
    ms.push(JsonMember { key: "max".to_string(), value: u64_number(max) });
    ms.push(JsonMember { key: "total".to_string(), value: u64_number(total) });
    JsonValue::Object(ms)
}

/// The array of what `lod_value` gives for each of `lods`.
pub(crate) fn lod_array<F: Fn(&String) -> JsonValue>(lods: &Vec<String>, lod_value: &F) -> (r: JsonValue)
    requires
        forall|s: &String| call_requires(*lod_value, (s,)),
    ensures
        is_lod_array(r, texts(lods@), *lod_value),
{
    let mut xs: Vec<JsonValue> = Vec::new();
    let mut i: usize = 0;
    while i < lods.len()
        invariant
            i <= lods@.len(),
            forall|s: &String| call_requires(*lod_value, (s,)),
            xs@.len() == i,
            forall|j: int| 0 <= j < i ==> is_lod_value(*lod_value, lods@[j]@, #[trigger] xs@[j]),
        decreases lods.len() - i,
    {
        let v = lod_value(&lods[i]);
        let ghost l = lods@[i as int];
        assert(call_ensures(*lod_value, (&l,), v));
        assert(is_lod_value(*lod_value, lods@[i as int]@, v));
        let ghost xs_old = xs@;
        xs.push(v);
        assert forall|j: int| 0 <= j < i + 1 implies is_lod_value(*lod_value, lods@[j]@, #[trigger] xs@[j]) by {
            if j < i {
                assert(xs@[j] == xs_old[j]);
            }
        }
        i += 1;
    }
    proof {
        assert forall|j: int| 0 <= j < texts(lods@).len() implies is_lod_value(*lod_value, texts(lods@)[j], #[trigger] xs@[j]) by {
            assert(texts(lods@)[j] == lods@[j]@);
        }
    }
    JsonValue::Array(xs)
}

/// What aggregating items' metadata writes into the summaries `new`, from
/// the summaries `old`.
pub open spec fn metadata_summaries<B, F: Fn(&String) -> JsonValue>(
    new: Seq<JsonMember>,
    old: Seq<JsonMember>,
    ms: Seq<ItemMetadata<B>>,
    lod_value: F,
) -> bool {
    let versions = versions_of(ms);
    let lods = lods_of(ms);
    let types = types_of(ms);
    let counts = u64_ints(counts_of(ms));
    &&& member_updated(new, old, "city3d:version"@, versions.len() > 0,
        |v: JsonValue| is_string_array(v, first_occurrences(versions)))
    &&& member_updated(new, old, "city3d:lods"@, lods.len() > 0,
        |v: JsonValue| is_lod_array(v, first_occurrences(lods), lod_value))
    &&& member_updated(new, old, "city3d:co_types"@, types.len() > 0,
        |v: JsonValue| is_sorted_string_set(v, types))
    &&& member_updated(new, old, "city3d:city_objects"@, counts.len() > 0,
        |v: JsonValue| is_stats_object(v, seq_min(counts), seq_max(counts), seq_sum(counts)))
    &&& member_updated(new, old, "city3d:semantic_surfaces"@, flags_of(ms, Flag::SemanticSurfaces).len() > 0,
        |v: JsonValue| is_bool_array(v, bool_set(flags_of(ms, Flag::SemanticSurfaces))))
    &&& member_updated(new, old, "city3d:textures"@, flags_of(ms, Flag::Textures).len() > 0,
        |v: JsonValue| is_bool_array(v, bool_set(flags_of(ms, Flag::Textures))))
    &&& member_updated(new, old, "city3d:materials"@, flags_of(ms, Flag::Materials).len() > 0,
        |v: JsonValue| is_bool_array(v, bool_set(flags_of(ms, Flag::Materials))))
    &&& forall|k: Seq<char>| !is_city3d_summary_key(k) ==> #[trigger] members_get(new, k) == members_get(old, k)
    &&& members_get(new, "proj:code"@) == members_get(old, "proj:code"@)
}

/// The summary keys are different texts.
proof fn lemma_summary_keys_distinct()
    ensures
        "city3d:version"@ != "city3d:lods"@,
        "city3d:version"@ != "city3d:co_types"@,
        "city3d:version"@ != "city3d:city_objects"@,
        "city3d:version"@ != "city3d:semantic_surfaces"@,
        "city3d:version"@ != "city3d:textures"@,
        "city3d:version"@ != "city3d:materials"@,
        "city3d:version"@ != "proj:code"@,
        "city3d:lods"@ != "city3d:co_types"@,
        "city3d:lods"@ != "city3d:city_objects"@,
        "city3d:lods"@ != "city3d:semantic_surfaces"@,
        "city3d:lods"@ != "city3d:textures"@,
        "city3d:lods"@ != "city3d:materials"@,
        "city3d:lods"@ != "proj:code"@,
        "city3d:co_types"@ != "city3d:city_objects"@,
        "city3d:co_types"@ != "city3d:semantic_surfaces"@,
        "city3d:co_types"@ != "city3d:textures"@,
        "city3d:co_types"@ != "city3d:materials"@,
        "city3d:co_types"@ != "proj:code"@,
        "city3d:city_objects"@ != "city3d:semantic_surfaces"@,
        "city3d:city_objects"@ != "city3d:textures"@,
        "city3d:city_objects"@ != "city3d:materials"@,
        "city3d:city_objects"@ != "proj:code"@,
        "city3d:semantic_surfaces"@ != "city3d:textures"@,
        "city3d:semantic_surfaces"@ != "city3d:materials"@,
        "city3d:semantic_surfaces"@ != "proj:code"@,
        "city3d:textures"@ != "city3d:materials"@,
        "city3d:textures"@ != "proj:code"@,
        "city3d:materials"@ != "proj:code"@,
{
    reveal_strlit("city3d:version");
    reveal_strlit("city3d:lods");
    reveal_strlit("city3d:co_types");
    reveal_strlit("city3d:city_objects");
    reveal_strlit("city3d:semantic_surfaces");
    reveal_strlit("city3d:textures");
    reveal_strlit("city3d:materials");
    reveal_strlit("proj:code");
    assert("city3d:version"@.len() == 14);
    assert("city3d:lods"@.len() == 11);
    assert("city3d:co_types"@.len() == 15);
    assert("city3d:city_objects"@.len() == 19);
    assert("city3d:semantic_surfaces"@.len() == 24);
    assert("city3d:textures"@.len() == 15);
    assert("city3d:materials"@.len() == 16);
    assert("proj:code"@.len() == 9);
    assert("city3d:co_types"@[7] != "city3d:textures"@[7]);
}

/// Writes the summaries of a metadata summary.
fn write_metadata_summaries<B, F: Fn(&String) -> JsonValue>(
    summaries: &mut Vec<JsonMember>,
    s: &MetadataSummary,
    ms: Ghost<Seq<ItemMetadata<B>>>,
    lod_value: &F,
)
    requires
        distinct_keys(old(summaries)@),
        crate::stac::summaries::summarizes(*s, ms@),
        forall|x: &String| call_requires(*lod_value, (x,)),
        seq_sum(u64_ints(counts_of(ms@))) <= u64::MAX,
    ensures
        distinct_keys(final(summaries)@),
        metadata_summaries(final(summaries)@, old(summaries)@, ms@, *lod_value),
{
    let ghost s0 = summaries@;
    proof {
        crate::stac::summaries::lemma_first_occurrences(versions_of(ms@));
        crate::stac::summaries::lemma_first_occurrences(lods_of(ms@));
        lemma_summary_keys_distinct();
    }
    let versions = string_array(&s.versions);
    set_member_if(summaries, "city3d:version", s.versions.len() > 0, versions);
    let ghost s1 = summaries@;
    let lods = lod_array(&s.lods, lod_value);
    set_member_if(summaries, "city3d:lods", s.lods.len() > 0, lods);
    let ghost s2 = summaries@;
    let types = string_array(&s.co_types);
    set_member_if(summaries, "city3d:co_types", s.co_types.len() > 0, types);
    let ghost s3 = summaries@;
    let stats = u64_stats(&s.counts);
    match stats {
        Some((mn, mx, total)) => {
            set_member_if(summaries, "city3d:city_objects", true, stats_object(mn, mx, total));
        },
        None => {},
    }
    let ghost s4 = summaries@;
    let sem = bool_array(&s.semantic_surfaces);
    set_member_if(summaries, "city3d:semantic_surfaces", s.semantic_surfaces.len() > 0, sem);
    let ghost s5 = summaries@;
    let tex = bool_array(&s.textures);
    set_member_if(summaries, "city3d:textures", s.textures.len() > 0, tex);
    let ghost s6 = summaries@;
    let mat = bool_array(&s.materials);
    set_member_if(summaries, "city3d:materials", s.materials.len() > 0, mat);
    proof {
        let ghost versions_seq = versions_of(ms@);
        assert(versions_seq.len() > 0 <==> texts(s.versions@).len() > 0) by {
            if versions_seq.len() > 0 {
                assert(first_occurrences(versions_seq).contains(versions_seq[0]));
            }
        }
        assert(lods_of(ms@).len() > 0 <==> texts(s.lods@).len() > 0) by {
            if lods_of(ms@).len() > 0 {
                assert(first_occurrences(lods_of(ms@)).contains(lods_of(ms@)[0]));
            }
        }
        assert(types_of(ms@).len() > 0 <==> texts(s.co_types@).len() > 0) by {
            if types_of(ms@).len() > 0 {
                assert(types_of(ms@).contains(types_of(ms@)[0]));
                assert(texts(s.co_types@).contains(types_of(ms@)[0]));
            }
            if texts(s.co_types@).len() > 0 {
                assert(texts(s.co_types@).contains(texts(s.co_types@)[0]));
            }
        }
        assert(is_sorted_string_set(members_get(s3, "city3d:co_types"@).unwrap(), types_of(ms@)) || types_of(ms@).len() == 0);
        assert(flags_of(ms@, Flag::SemanticSurfaces).len() > 0 <==> s.semantic_surfaces@.len() > 0) by {
            let f = flags_of(ms@, Flag::SemanticSurfaces);
            if f.len() > 0 {
                if f[0] { assert(f.contains(true)); } else { assert(f.contains(false)); }
            }
        }
        assert(flags_of(ms@, Flag::Textures).len() > 0 <==> s.textures@.len() > 0) by {
            let f = flags_of(ms@, Flag::Textures);
            if f.len() > 0 {
                if f[0] { assert(f.contains(true)); } else { assert(f.contains(false)); }
            }
        }
        assert(flags_of(ms@, Flag::Materials).len() > 0 <==> s.materials@.len() > 0) by {
            let f = flags_of(ms@, Flag::Materials);
            if f.len() > 0 {
                if f[0] { assert(f.contains(true)); } else { assert(f.contains(false)); }
            }
        }
        assert(u64_ints(s.counts@).len() == s.counts@.len());
        let fin = summaries@;
        let old_s = s0;
        assert(member_updated(fin, old_s, "city3d:version"@, versions_of(ms@).len() > 0,
            |v: JsonValue| is_string_array(v, first_occurrences(versions_of(ms@)))));
        assert(member_updated(fin, old_s, "city3d:lods"@, lods_of(ms@).len() > 0,
            |v: JsonValue| is_lod_array(v, first_occurrences(lods_of(ms@)), *lod_value)));
        assert(member_updated(fin, old_s, "city3d:co_types"@, types_of(ms@).len() > 0,
            |v: JsonValue| is_sorted_string_set(v, types_of(ms@))));
        assert(member_updated(fin, old_s, "city3d:city_objects"@, u64_ints(counts_of(ms@)).len() > 0,
            |v: JsonValue| is_stats_object(v, seq_min(u64_ints(counts_of(ms@))), seq_max(u64_ints(counts_of(ms@))), seq_sum(u64_ints(counts_of(ms@))))));
        assert(member_updated(fin, old_s, "city3d:semantic_surfaces"@, flags_of(ms@, Flag::SemanticSurfaces).len() > 0,
            |v: JsonValue| is_bool_array(v, bool_set(flags_of(ms@, Flag::SemanticSurfaces)))));
        assert(member_updated(fin, old_s, "city3d:textures"@, flags_of(ms@, Flag::Textures).len() > 0,
            |v: JsonValue| is_bool_array(v, bool_set(flags_of(ms@, Flag::Textures)))));
        assert(member_updated(fin, old_s, "city3d:materials"@, flags_of(ms@, Flag::Materials).len() > 0,
            |v: JsonValue| is_bool_array(v, bool_set(flags_of(ms@, Flag::Materials)))));
        assert(forall|k: Seq<char>| !is_city3d_summary_key(k) ==> #[trigger] members_get(fin, k) == members_get(old_s, k));
        assert(members_get(fin, "proj:code"@) == members_get(old_s, "proj:code"@));
    }
}

impl<B> StacCollectionBuilder<B> {
    /// Gathers the city-model summaries of a collection from its items'
    /// metadata, and adds `merged_bbox`, the union of the items' bounding
    /// boxes, to the spatial extent.
    ///
    /// Versions and levels of detail are listed in order of first
    /// appearance, each once; a level of detail is written as `lod_value`
    /// gives it. City-object types are the sorted set of all types. The
    /// city-object count is summarised by minimum, maximum and total of the
    /// items' counts. Each boolean fact lists the values observed, `false`
    /// first. A summary is written only where some item reports it.
    pub fn aggregate_from_metadata<F: Fn(&String) -> JsonValue>(
        self,
        items_metadata: &Vec<ItemMetadata<B>>,
        merged_bbox: Option<B>,
        lod_value: F,
    ) -> (r: Result<Self, CityJsonStacError>)
        requires
            self.wf(),
            forall|x: &String| call_requires(lod_value, (x,)),
            seq_sum(u64_ints(counts_of(items_metadata@))) <= u64::MAX,
        ensures
            r matches Ok(b) && {
                &&& b.wf()
                &&& b == (StacCollectionBuilder { summaries: b.summaries, extent: b.extent, ..self })
                &&& b.extent.temporal == self.extent.temporal
                &&& b.extent.spatial.bbox@ == match merged_bbox {
                    Some(m) => self.extent.spatial.bbox@.push(m),
                    None => self.extent.spatial.bbox@,
                }
                &&& metadata_summaries(b.summaries@, self.summaries@, items_metadata@, lod_value)
            },
    {
        let mut s = self;
        let summary = summarize_metadata(items_metadata);
        write_metadata_summaries::<B, F>(&mut s.summaries, &summary, Ghost(items_metadata@), &lod_value);
        match merged_bbox {
            Some(m) => {
                s.extent.spatial.bbox.push(m);
            },
            None => {},
        }
        Ok(s)
    }
}


/// The extensions a collection declares: 3D city models always; the
/// projection extension with a `proj:code` summary; the statistics
/// extension with a `city3d:city_objects` summary; the item-assets
/// extension when it has item asset templates; the file extension always.
pub open spec fn collection_extensions(has_proj: bool, has_stats: bool, has_item_assets: bool) -> Seq<Seq<char>> {
    seq![city3d_schema()]
        + (if has_proj { seq![projection_schema()] } else { seq![] })
        + (if has_stats { seq![stats_schema()] } else { seq![] })
        + (if has_item_assets { seq![item_assets_schema()] } else { seq![] })
        + seq![file_schema()]
}

/// The item asset template a city-model collection gets when none was
/// given: `{"data": {"title": "3D City Model data file", "roles": ["data"]}}`.
pub open spec fn is_default_item_assets(ms: Seq<JsonMember>) -> bool {
    &&& ms.len() == 1
    &&& ms[0].key@ == "data"@
    &&& ms[0].value matches JsonValue::Object(fields) && {
        &&& fields@.len() == 2
        &&& fields@[0].key@ == "title"@
        &&& crate::json::is_string_value(fields@[0].value, "3D City Model data file"@)
        &&& fields@[1].key@ == "roles"@
        &&& is_string_array(fields@[1].value, seq!["data"@])
    }
}

/// The default item asset template.
fn default_item_assets() -> (r: Vec<JsonMember>)
    ensures
        is_default_item_assets(r@),
{
    let roles: Vec<String> = vec!["data".to_string()];
    let roles_value = string_array(&roles);
    assert(texts(roles@) =~= seq!["data"@]);
    let mut fields: Vec<JsonMember> = Vec::new();
    fields.push(JsonMember { key: "title".to_string(), value: JsonValue::String("3D City Model data file".to_string()) });
    fields.push(JsonMember { key: "roles".to_string(), value: roles_value });
    let mut r: Vec<JsonMember> = Vec::new();
    r.push(JsonMember { key: "data".to_string(), value: JsonValue::Object(fields) });
    r
}

/// The error of a collection without spatial extent.
pub open spec fn is_missing_extent_error(e: CityJsonStacError) -> bool {
    e matches CityJsonStacError::StacError(m) && m@ == "Spatial extent bbox is required"@
}

impl<B> StacCollectionBuilder<B> {
    /// The collection: STAC 1.0.0, with the extensions its summaries and
    /// item asset templates call for. Summaries and assets are left out
    /// when there are none. Without item asset templates, a collection
    /// with a `city3d:version` summary gets the default data template.
    /// Fails when the spatial extent has no bounding box.
    pub fn build(self) -> (r: Result<StacCollection<B>, CityJsonStacError>)
        requires
            self.wf(),
        ensures
            r is Err <==> self.extent.spatial.bbox@.len() == 0,
            r matches Err(e) ==> is_missing_extent_error(e),
            r matches Ok(c) ==> {
                let has_proj = members_get(self.summaries@, "proj:code"@) is Some;
                let has_stats = members_get(self.summaries@, "city3d:city_objects"@) is Some;
                let has_version = members_get(self.summaries@, "city3d:version"@) is Some;
                &&& c.stac_version@ == "1.0.0"@
                &&& texts(c.stac_extensions@) == collection_extensions(
                    has_proj, has_stats, self.item_assets is Some || has_version)
                &&& c.collection_type@ == "Collection"@
                &&& c.id == self.id
                &&& c.title == self.title
                &&& c.description == self.description
                &&& c.license == self.license
                &&& c.keywords == self.keywords
                &&& c.providers == self.providers
                &&& c.extent == self.extent
                &&& c.summaries == (if self.summaries@.len() == 0 { None } else { Some(self.summaries) })
                &&& c.links == self.links
                &&& c.assets == (if self.assets@.len() == 0 { None } else { Some(self.assets) })
                &&& match self.item_assets {
                    Some(ia) => c.item_assets == Some(ia),
                    None => if has_version {
                        c.item_assets matches Some(ia) && is_default_item_assets(ia@)
                    } else {
                        c.item_assets is None
                    },
                }
            },
    {
        if self.extent.spatial.bbox.len() == 0 {
            return Err(CityJsonStacError::StacError("Spatial extent bbox is required".to_string()));
        }
        let has_proj = has_member(&self.summaries, "proj:code");
        let has_stats = has_member(&self.summaries, "city3d:city_objects");
        let has_version = has_member(&self.summaries, "city3d:version");
        let mut stac_extensions: Vec<String> = Vec::new();
        stac_extensions.push("https://cityjson.github.io/stac-city3d/v0.1.0/schema.json".to_string());
        if has_proj {
            stac_extensions.push("https://stac-extensions.github.io/projection/v2.0.0/schema.json".to_string());
        }
        if has_stats {
            stac_extensions.push("https://stac-extensions.github.io/stats/v0.2.0/schema.json".to_string());
        }
        let item_assets = match self.item_assets {
            Some(ia) => {
                stac_extensions.push("https://stac-extensions.github.io/item-assets/v1.1.0/schema.json".to_string());
                Some(ia)
            },
            None => if has_version {
                stac_extensions.push("https://stac-extensions.github.io/item-assets/v1.1.0/schema.json".to_string());
                Some(default_item_assets())
            } else {
                None
            },
        };
        stac_extensions.push("https://stac-extensions.github.io/file/v2.1.0/schema.json".to_string());
        assert(texts(stac_extensions@) =~= collection_extensions(has_proj, has_stats, self.item_assets is Some || has_version));
        let summaries = if self.summaries.len() == 0 { None } else { Some(self.summaries) };
        let assets = if self.assets.len() == 0 { None } else { Some(self.assets) };
        Ok(StacCollection {
            stac_version: "1.0.0".to_string(),
            stac_extensions,
            collection_type: "Collection".to_string(),
            id: self.id,
            title: self.title,
            description: self.description,
            license: self.license,
            keywords: self.keywords,
            providers: self.providers,
            extent: self.extent,
            summaries,
            links: self.links,
            assets,
            item_assets,
        })
    }
}


/// `m` carries, as an item's metadata, the facts `f` a reader reports.
pub open spec fn carries_facts<B>(m: ItemMetadata<B>, f: ModelFacts) -> bool {
    &&& opt_text(m.city3d_version) == opt_text(f.version)
    &&& opt_texts(m.city3d_lods) == opt_texts(f.lods)
    &&& opt_texts(m.city3d_co_types) == opt_texts(f.city_object_types)
    &&& m.city3d_city_objects == (match f.city_object_count {
        Some(n) => Some(CityObjectsCount::Integer(n)),
        None => None,
    })
    &&& m.city3d_semantic_surfaces == f.semantic_surfaces
    &&& m.city3d_textures == f.textures
    &&& m.city3d_materials == f.materials
}

/// The `proj:code` of a reader's facts, where its CRS has an EPSG code.
pub open spec fn facts_proj_code(f: ModelFacts) -> Option<Seq<char>> {
    match f.crs {
        Some(c) => match c.epsg {
            Some(code) => Some("EPSG:"@ + decimal(code as nat)),
            None => None,
        },
        None => None,
    }
}

/// The `proj:code`s the readers report, reader by reader.
pub open spec fn proj_codes_of(fs: Seq<ModelFacts>) -> Seq<Seq<char>>
    decreases fs.len(),
{
    if fs.len() == 0 {
        seq![]
    } else {
        let rest = proj_codes_of(fs.drop_last());
        match facts_proj_code(fs.last()) {
            Some(c) => rest.push(c),
            None => rest,
        }
    }
}

/// A reader's facts as an item's metadata.
fn facts_metadata<B>(f: &ModelFacts) -> (m: ItemMetadata<B>)
    ensures
        carries_facts(m, *f),
        m.bbox is None,
{
    let lods = match &f.lods {
        Some(v) => Some(clone_strings(v)),
        None => None,
    };
    let types = match &f.city_object_types {
        Some(v) => Some(clone_strings(v)),
        None => None,
    };
    let count = match f.city_object_count {
        Some(n) => Some(CityObjectsCount::Integer(n)),
        None => None,
    };
    ItemMetadata {
        id: String::new(),
        bbox: None,
        city3d_version: clone_opt(&f.version),
        city3d_city_objects: count,
        city3d_lods: lods,
        city3d_co_types: types,
        city3d_attributes: None,
        city3d_semantic_surfaces: f.semantic_surfaces,
        city3d_textures: f.textures,
        city3d_materials: f.materials,
        proj_code: None,
    }
}

impl<B> StacCollectionBuilder<B> {
    /// Gathers the city-model summaries of a collection from what its
    /// readers report, and adds `merged_bbox`, the union of the readers'
    /// bounding boxes in WGS84, to the spatial extent.
    ///
    /// The summaries are those of `aggregate_from_metadata` for the readers'
    /// facts taken as items' metadata, and `proj:code` is the sorted set of
    /// the `EPSG:<code>` of each reader whose CRS has an EPSG code.
    pub fn aggregate_cityjson_metadata<F: Fn(&String) -> JsonValue>(
        self,
        readers: &Vec<ModelFacts>,
        merged_bbox: Option<B>,
        lod_value: F,
    ) -> (r: Result<Self, CityJsonStacError>)
        requires
            self.wf(),
            forall|x: &String| call_requires(lod_value, (x,)),
            seq_sum(reader_counts(readers@)) <= u64::MAX,
        ensures
            r matches Ok(b) && {
                &&& b.wf()
                &&& b == (StacCollectionBuilder { summaries: b.summaries, extent: b.extent, ..self })
                &&& b.extent.temporal == self.extent.temporal
                &&& b.extent.spatial.bbox@ == match merged_bbox {
                    Some(m) => self.extent.spatial.bbox@.push(m),
                    None => self.extent.spatial.bbox@,
                }
                &&& exists|mid: Seq<JsonMember>, ms: Seq<ItemMetadata<B>>| {
                    &&& ms.len() == readers@.len()
                    &&& forall|i: int| 0 <= i < ms.len() ==> carries_facts(#[trigger] ms[i], readers@[i])
                    &&& metadata_summaries(mid, self.summaries@, ms, lod_value)
                    &&& member_updated(b.summaries@, mid, "proj:code"@, proj_codes_of(readers@).len() > 0,
                        |v: JsonValue| is_sorted_string_set(v, proj_codes_of(readers@)))
                    &&& forall|k: Seq<char>| k != "proj:code"@ ==> #[trigger] members_get(b.summaries@, k) == members_get(mid, k)
                }
            },
    {
        let mut ms: Vec<ItemMetadata<B>> = Vec::new();
        let mut codes: Vec<String> = Vec::new();
        let mut i: usize = 0;
        while i < readers.len()
            invariant
                i <= readers@.len(),
                ms@.len() == i,
                forall|j: int| 0 <= j < i ==> carries_facts(#[trigger] ms@[j], readers@[j]),
                is_sorted_set_of(texts(codes@), proj_codes_of(readers@.take(i as int))),
            decreases readers.len() - i,
        {
            let f = &readers[i];
            ms.push(facts_metadata(f));
            let ghost p = readers@.take(i as int);
            assert(readers@.take(i + 1).drop_last() =~= p);
            assert(readers@.take(i + 1).last() == readers@[i as int]);
            let code = match &f.crs {
                Some(c) => c.to_stac_proj_code(),
                None => None,
            };
            match code {
                Some(c) => {
                    proof { lemma_contains_push(proj_codes_of(p), c@); }
                    insert_sorted_unique(&mut codes, c);
                },
                None => {},
            }
            i += 1;
        }
        assert(readers@.take(readers@.len() as int) =~= readers@);
        proof {
            lemma_reader_counts(ms@, readers@);
        }
        let ghost ms_view = ms@;
        let ghost old_summaries = self.summaries@;
        let r0 = self.aggregate_from_metadata(&ms, merged_bbox, lod_value);
        let mut s = match r0 {
            Ok(b) => b,
            Err(e) => { return Err(e); },
        };
        let ghost mid = s.summaries@;
        let value = string_array(&codes);
        set_member_if(&mut s.summaries, "proj:code", codes.len() > 0, value);
        proof {
            assert(proj_codes_of(readers@).len() > 0 <==> texts(codes@).len() > 0) by {
                let pc = proj_codes_of(readers@);
                if pc.len() > 0 {
                    assert(pc.contains(pc[0]));
                }
                if texts(codes@).len() > 0 {
                    assert(texts(codes@).contains(texts(codes@)[0]));
                }
            }
            if codes.len() > 0 {
                assert(is_sorted_string_set(members_get(s.summaries@, "proj:code"@).unwrap(), proj_codes_of(readers@)));
            }
            assert(metadata_summaries(mid, old_summaries, ms_view, lod_value));
        }
        Ok(s)
    }
}

/// The city-object counts the readers report, as integers.
pub open spec fn reader_counts(fs: Seq<ModelFacts>) -> Seq<int>
    decreases fs.len(),
{
    if fs.len() == 0 {
        seq![]
    } else {
        let rest = reader_counts(fs.drop_last());
        match fs.last().city_object_count {
            Some(n) => rest.push(n as int),
            None => rest,
        }
    }
}

/// The counts seen through items' metadata that carry the readers' facts
/// are the readers' counts.
proof fn lemma_reader_counts<B>(ms: Seq<ItemMetadata<B>>, fs: Seq<ModelFacts>)
    requires
        ms.len() == fs.len(),
        forall|i: int| 0 <= i < fs.len() ==> carries_facts(#[trigger] ms[i], fs[i]),
    ensures
        u64_ints(counts_of(ms)) == reader_counts(fs),
    decreases fs.len(),
{
    if fs.len() > 0 {
        let k = fs.len() - 1;
        assert(carries_facts(ms[k], fs[k]));
        assert forall|i: int| 0 <= i < k implies carries_facts(#[trigger] ms.drop_last()[i], fs.drop_last()[i]) by {
            assert(ms.drop_last()[i] == ms[i]);
            assert(fs.drop_last()[i] == fs[i]);
        }
        lemma_reader_counts(ms.drop_last(), fs.drop_last());
        assert(u64_ints(counts_of(ms)) =~= match ms.last().city3d_city_objects {
            Some(c) => u64_ints(counts_of(ms.drop_last())).push(crate::stac::summaries::count_value(c) as int),
            None => u64_ints(counts_of(ms.drop_last())),
        });
    }
}


// ---------------------------------------------------------------------------
// Summaries from STAC items

/// `v` is the JSON number of the signed integer `n`.
pub open spec fn is_i64_value(v: Option<JsonValue>, n: int) -> bool {
    match v {
        Some(JsonValue::Number(x)) => i64::MIN <= n <= i64::MAX && is_i64_number(x, n as i64),
        _ => false,
    }
}

/// `v` is the object `{"min": min, "max": max, "total": total}` of signed
/// numbers: exactly these three members, in this order.
pub open spec fn is_i64_stats_object(v: JsonValue, min: int, max: int, total: int) -> bool {
    match v {
        JsonValue::Object(ms) => {
            &&& ms@.len() == 3
            &&& ms@[0].key@ == "min"@ && is_i64_value(Some(ms@[0].value), min)
            &&& ms@[1].key@ == "max"@ && is_i64_value(Some(ms@[1].value), max)
            &&& ms@[2].key@ == "total"@ && is_i64_value(Some(ms@[2].value), total)
        },
        _ => false,
    }
}

/// The statistics object of signed counts.
fn i64_stats_object(min: i64, max: i64, total: i64) -> (r: JsonValue)
    ensures
        is_i64_stats_object(r, min as int, max as int, total as int),
{
    let mut ms: Vec<JsonMember> = Vec::new();
    ms.push(JsonMember { key: "min".to_string(), value: i64_number(min) });
    ms.push(JsonMember { key: "max".to_string(), value: i64_number(max) });
    ms.push(JsonMember { key: "total".to_string(), value: i64_number(total) });
    JsonValue::Object(ms)
}

/// The value of an item's property `key`.
pub open spec fn item_prop<B, G>(item: StacItem<B, G>, key: Seq<char>) -> Option<JsonValue> {
    members_get(item.properties@, key)
}

/// The `city3d:version` strings of the items, item by item.
pub open spec fn item_versions<B, G>(items: Seq<StacItem<B, G>>) -> Seq<Seq<char>>
    decreases items.len(),
{
    if items.len() == 0 {
        seq![]
    } else {
        let rest = item_versions(items.drop_last());
        match text_value(item_prop(items.last(), "city3d:version"@)) {
            Some(v) => rest.push(v),
            None => rest,
        }
    }
}

/// The elements of an array value; none for other values.
pub open spec fn array_elements(v: Option<JsonValue>) -> Seq<JsonValue> {
    match v {
        Some(JsonValue::Array(xs)) => xs@,
        _ => seq![],
    }
}

/// The elements of the items' `city3d:lods` arrays, item after item.
pub open spec fn item_lod_values<B, G>(items: Seq<StacItem<B, G>>) -> Seq<JsonValue>
    decreases items.len(),
{
    if items.len() == 0 {
        seq![]
    } else {
        item_lod_values(items.drop_last()) + array_elements(item_prop(items.last(), "city3d:lods"@))
    }
}

/// The strings of a list of values, in order; other values are skipped.
pub open spec fn string_elements(xs: Seq<JsonValue>) -> Seq<Seq<char>>
    decreases xs.len(),
{
    if xs.len() == 0 {
        seq![]
    } else {
        let rest = string_elements(xs.drop_last());
        match xs.last() {
            JsonValue::String(s) => rest.push(s@),
            _ => rest,
        }
    }
}

/// The strings of the items' `city3d:co_types` arrays, item after item.
pub open spec fn item_types<B, G>(items: Seq<StacItem<B, G>>) -> Seq<Seq<char>>
    decreases items.len(),
{
    if items.len() == 0 {
        seq![]
    } else {
        item_types(items.drop_last()) + string_elements(array_elements(item_prop(items.last(), "city3d:co_types"@)))
    }
}

/// The value of a number that is an `i64` (`Value::as_i64`).
pub open spec fn i64_value(v: Option<JsonValue>) -> Option<i64> {
    match v {
        Some(JsonValue::Number(n)) => n.as_i64,
        _ => None,
    }
}

/// The items' `city3d:city_objects` that are `i64` numbers, item by item.
pub open spec fn item_counts<B, G>(items: Seq<StacItem<B, G>>) -> Seq<int>
    decreases items.len(),
{
    if items.len() == 0 {
        seq![]
    } else {
        let rest = item_counts(items.drop_last());
        match i64_value(item_prop(items.last(), "city3d:city_objects"@)) {
            Some(n) => rest.push(n as int),
            None => rest,
        }
    }
}

/// The items' boolean property `key`, item by item.
pub open spec fn item_flags<B, G>(items: Seq<StacItem<B, G>>, key: Seq<char>) -> Seq<bool>
    decreases items.len(),
{
    if items.len() == 0 {
        seq![]
    } else {
        let rest = item_flags(items.drop_last(), key);
        match bool_value(item_prop(items.last(), key)) {
            Some(b) => rest.push(b),
            None => rest,
        }
    }
}

/// The items' `proj:code` strings, item by item.
pub open spec fn item_proj_codes<B, G>(items: Seq<StacItem<B, G>>) -> Seq<Seq<char>>
    decreases items.len(),
{
    if items.len() == 0 {
        seq![]
    } else {
        let rest = item_proj_codes(items.drop_last());
        match text_value(item_prop(items.last(), "proj:code"@)) {
            Some(c) => rest.push(c),
            None => rest,
        }
    }
}

/// The items' `proj:epsg` codes (unsigned integers), item by item.
pub open spec fn item_epsg_codes<B, G>(items: Seq<StacItem<B, G>>) -> Seq<u64>
    decreases items.len(),
{
    if items.len() == 0 {
        seq![]
    } else {
        let rest = item_epsg_codes(items.drop_last());
        match u64_value(item_prop(items.last(), "proj:epsg"@)) {
            Some(c) => rest.push(c),
            None => rest,
        }
    }
}

/// `v` is the array of the numbers `t`, in order.
pub open spec fn is_u64_array(v: JsonValue, t: Seq<u64>) -> bool {
    match v {
        JsonValue::Array(xs) => {
            &&& xs@.len() == t.len()
            &&& forall|i: int| 0 <= i < t.len() ==> is_u64_value(Some(#[trigger] xs@[i]), t[i] as int)
        },
        _ => false,
    }
}

/// `v` is the array of the distinct numbers of `items`, increasing.
pub open spec fn is_sorted_u64_set(v: JsonValue, items: Seq<u64>) -> bool {
    exists|t: Seq<u64>| #[trigger] is_increasing_set_of(t, items) && is_u64_array(v, t)
}

/// The array of the numbers.
fn u64_array(v: &Vec<u64>) -> (r: JsonValue)
    ensures
        is_u64_array(r, v@),
{
    let mut xs: Vec<JsonValue> = Vec::new();
    let mut i: usize = 0;
    while i < v.len()
        invariant
            i <= v@.len(),
            xs@.len() == i,
            forall|k: int| 0 <= k < i ==> is_u64_value(Some(#[trigger] xs@[k]), v@[k] as int),
        decreases v.len() - i,
    {
        xs.push(u64_number(v[i]));
        i += 1;
    }
    JsonValue::Array(xs)
}

/// "proj:epsg" is none of the other summary keys.
proof fn lemma_epsg_key_distinct()
    ensures
        "proj:epsg"@ != "city3d:version"@,
        "proj:epsg"@ != "city3d:lods"@,
        "proj:epsg"@ != "city3d:co_types"@,
        "proj:epsg"@ != "city3d:city_objects"@,
        "proj:epsg"@ != "city3d:semantic_surfaces"@,
        "proj:epsg"@ != "city3d:textures"@,
        "proj:epsg"@ != "city3d:materials"@,
        "proj:epsg"@ != "proj:code"@,
        !is_city3d_summary_key("proj:epsg"@),
{
    reveal_strlit("city3d:version");
    reveal_strlit("city3d:lods");
    reveal_strlit("city3d:co_types");
    reveal_strlit("city3d:city_objects");
    reveal_strlit("city3d:semantic_surfaces");
    reveal_strlit("city3d:textures");
    reveal_strlit("city3d:materials");
    reveal_strlit("proj:code");
    reveal_strlit("proj:epsg");
    assert("city3d:version"@.len() == 14);
    assert("city3d:lods"@.len() == 11);
    assert("city3d:co_types"@.len() == 15);
    assert("city3d:city_objects"@.len() == 19);
    assert("city3d:semantic_surfaces"@.len() == 24);
    assert("city3d:textures"@.len() == 15);
    assert("city3d:materials"@.len() == 16);
    assert("proj:epsg"@.len() == 9);
    assert("proj:epsg"@[5] != "proj:code"@[5]);
}

/// Some value of `r` is the same document as `x`.
pub open spec fn has_same(r: Seq<JsonValue>, x: JsonValue) -> bool {
    exists|j: int| 0 <= j < r.len() && #[trigger] json_same(r[j], x)
}

/// The values of `s` that are not the same document as an earlier one, in
/// order (distinct by JSON text).
pub open spec fn json_first_occurrences(s: Seq<JsonValue>) -> Seq<JsonValue>
    decreases s.len(),
{
    if s.len() == 0 {
        seq![]
    } else {
        let r = json_first_occurrences(s.drop_last());
        if has_same(r, s.last()) {
            r
        } else {
            r.push(s.last())
        }
    }
}

/// `v` is an array whose elements are, one by one, the same documents as
/// `xs`.
pub open spec fn is_same_array(v: JsonValue, xs: Seq<JsonValue>) -> bool {
    match v {
        JsonValue::Array(ys) => ys@.len() == xs.len() && forall|i: int| 0 <= i < xs.len() ==> #[trigger] json_same(xs[i], ys@[i]),
        _ => false,
    }
}

/// The values behind a list of references.
pub open spec fn deref_all(s: Seq<&JsonValue>) -> Seq<JsonValue> {
    s.map_values(|x: &JsonValue| *x)
}

/// Whether some value behind `chosen` is the same document as `x`.
fn has_same_value(chosen: &Vec<&JsonValue>, x: &JsonValue) -> (r: bool)
    ensures
        r == has_same(deref_all(chosen@), *x),
{
    let mut k: usize = 0;
    while k < chosen.len()
        invariant
            k <= chosen@.len(),
            forall|j: int| 0 <= j < k ==> !json_same(#[trigger] deref_all(chosen@)[j], *x),
        decreases chosen.len() - k,
    {
        if json_equal(chosen[k], x) {
            assert(json_same(deref_all(chosen@)[k as int], *x));
            return true;
        }
        k += 1;
    }
    false
}

/// The first occurrences of the items' level-of-detail values.
fn collect_item_lods<'a, B, G>(items: &'a Vec<StacItem<B, G>>) -> (r: Vec<&'a JsonValue>)
    ensures
        deref_all(r@) == json_first_occurrences(item_lod_values(items@)),
{
    let mut chosen: Vec<&'a JsonValue> = Vec::new();
    let mut i: usize = 0;
    while i < items.len()
        invariant
            i <= items@.len(),
            deref_all(chosen@) == json_first_occurrences(item_lod_values(items@.take(i as int))),
        decreases items.len() - i,
    {
        let ghost p = items@.take(i as int);
        assert(items@.take(i + 1).drop_last() =~= p);
        assert(items@.take(i + 1).last() == items@[i as int]);
        match member(&items[i].properties, "city3d:lods") {
            Some(JsonValue::Array(xs)) => {
                let mut j: usize = 0;
                assert(xs@.take(0) =~= seq![]);
                assert(item_lod_values(p) + xs@.take(0) =~= item_lod_values(p));
                while j < xs.len()
                    invariant
                        j <= xs@.len(),
                        deref_all(chosen@) == json_first_occurrences(item_lod_values(p) + xs@.take(j as int)),
                    decreases xs.len() - j,
                {
                    let ghost s = item_lod_values(p) + xs@.take(j as int);
                    assert((item_lod_values(p) + xs@.take(j + 1)).drop_last() =~= s);
                    assert((item_lod_values(p) + xs@.take(j + 1)).last() == xs@[j as int]);
                    let x: &'a JsonValue = &xs[j];
                    if !has_same_value(&chosen, x) {
                        let ghost before = deref_all(chosen@);
                        chosen.push(x);
                        assert(deref_all(chosen@) =~= before.push(*x));
                    }
                    j += 1;
                }
                assert(xs@.take(xs@.len() as int) =~= xs@);
            },
            _ => {
                assert(item_lod_values(items@.take(i + 1)) =~= item_lod_values(p));
            },
        }
        i += 1;
    }
    assert(items@.take(items@.len() as int) =~= items@);
    chosen
}

/// Copies of the values behind a list of references, as an array.
fn copy_values(chosen: &Vec<&JsonValue>) -> (r: JsonValue)
    ensures
        is_same_array(r, deref_all(chosen@)),
{
    let mut ys: Vec<JsonValue> = Vec::new();
    let mut k: usize = 0;
    while k < chosen.len()
        invariant
            k <= chosen@.len(),
            ys@.len() == k,
            forall|j: int| 0 <= j < k ==> #[trigger] json_same(deref_all(chosen@)[j], ys@[j]),
        decreases chosen.len() - k,
    {
        let y = clone_json(chosen[k]);
        ys.push(y);
        k += 1;
    }
    JsonValue::Array(ys)
}


/// What the items come to, before it is written as summaries.
struct ItemsSummary {
    versions: Vec<String>,
    co_types: Vec<String>,
    counts: Vec<i64>,
    semantic_surfaces: Vec<bool>,
    textures: Vec<bool>,
    materials: Vec<bool>,
    proj_codes: Vec<String>,
    epsg_codes: Vec<u64>,
}

/// `r` is what `items` come to.
spec fn summarizes_items<B, G>(r: ItemsSummary, items: Seq<StacItem<B, G>>) -> bool {
    &&& texts(r.versions@) == first_occurrences(item_versions(items))
    &&& is_sorted_set_of(texts(r.co_types@), item_types(items))
    &&& i64_ints(r.counts@) == item_counts(items)
    &&& r.semantic_surfaces@ == item_flags(items, "city3d:semantic_surfaces"@)
    &&& r.textures@ == item_flags(items, "city3d:textures"@)
    &&& r.materials@ == item_flags(items, "city3d:materials"@)
    &&& is_sorted_set_of(texts(r.proj_codes@), item_proj_codes(items))
    &&& is_increasing_set_of(r.epsg_codes@, item_epsg_codes(items))
}

/// Adds the strings of `xs` to the sorted set `acc`.
fn insert_strings(acc: &mut Vec<String>, xs: &Vec<JsonValue>, Ghost(before): Ghost<Seq<Seq<char>>>)
    requires
        is_sorted_set_of(texts(old(acc)@), before),
    ensures
        is_sorted_set_of(texts(final(acc)@), before + string_elements(xs@)),
{
    let mut j: usize = 0;
    assert(xs@.take(0) =~= seq![]);
    assert(before + string_elements(xs@.take(0)) =~= before);
    while j < xs.len()
        invariant
            j <= xs@.len(),
            is_sorted_set_of(texts(acc@), before + string_elements(xs@.take(j as int))),
        decreases xs.len() - j,
    {
        let ghost cur = before + string_elements(xs@.take(j as int));
        assert(xs@.take(j + 1).drop_last() =~= xs@.take(j as int));
        assert(xs@.take(j + 1).last() == xs@[j as int]);
        match &xs[j] {
            JsonValue::String(t) => {
                proof {
                    assert(before + string_elements(xs@.take(j + 1)) =~= cur.push(t@));
                    lemma_contains_push(cur, t@);
                }
                insert_sorted_unique(acc, t.clone());
            },
            _ => {
                assert(before + string_elements(xs@.take(j + 1)) =~= cur);
            },
        }
        j += 1;
    }
    assert(xs@.take(xs@.len() as int) =~= xs@);
}

/// Reads what the items come to.
fn summarize_items<B, G>(items: &Vec<StacItem<B, G>>) -> (r: ItemsSummary)
    ensures
        summarizes_items(r, items@),
{
    let mut versions: Vec<String> = Vec::new();
    let mut co_types: Vec<String> = Vec::new();
    let mut counts: Vec<i64> = Vec::new();
    let mut semantic_surfaces: Vec<bool> = Vec::new();
    let mut textures: Vec<bool> = Vec::new();
    let mut materials: Vec<bool> = Vec::new();
    let mut proj_codes: Vec<String> = Vec::new();
    let mut epsg_codes: Vec<u64> = Vec::new();
    let mut i: usize = 0;
    while i < items.len()
        invariant
            i <= items@.len(),
            texts(versions@) == first_occurrences(item_versions(items@.take(i as int))),
            is_sorted_set_of(texts(co_types@), item_types(items@.take(i as int))),
            i64_ints(counts@) == item_counts(items@.take(i as int)),
            semantic_surfaces@ == item_flags(items@.take(i as int), "city3d:semantic_surfaces"@),
            textures@ == item_flags(items@.take(i as int), "city3d:textures"@),
            materials@ == item_flags(items@.take(i as int), "city3d:materials"@),
            is_sorted_set_of(texts(proj_codes@), item_proj_codes(items@.take(i as int))),
            is_increasing_set_of(epsg_codes@, item_epsg_codes(items@.take(i as int))),
        decreases items.len() - i,
    {
        let ghost p = items@.take(i as int);
        let ghost q = items@.take(i + 1);
        assert(q.drop_last() =~= p);
        assert(q.last() == items@[i as int]);
        let ps = &items[i].properties;
        match member(ps, "city3d:version") {
            Some(JsonValue::String(v)) => {
                assert(item_versions(q).drop_last() =~= item_versions(p));
                push_new(&mut versions, v.clone());
            },
            _ => {},
        }
        match member(ps, "city3d:co_types") {
            Some(JsonValue::Array(xs)) => {
                insert_strings(&mut co_types, xs, Ghost(item_types(p)));
            },
            _ => {
                assert(item_types(q) =~= item_types(p));
            },
        }
        match member(ps, "city3d:city_objects") {
            Some(JsonValue::Number(n)) => match n.as_i64 {
                Some(c) => {
                    let ghost before = counts@;
                    counts.push(c);
                    assert(i64_ints(counts@) =~= i64_ints(before).push(c as int));
                },
                None => {},
            },
            _ => {},
        }
        match member(ps, "city3d:semantic_surfaces") {
            Some(JsonValue::Bool(b)) => semantic_surfaces.push(*b),
            _ => {},
        }
        match member(ps, "city3d:textures") {
            Some(JsonValue::Bool(b)) => textures.push(*b),
            _ => {},
        }
        match member(ps, "city3d:materials") {
            Some(JsonValue::Bool(b)) => materials.push(*b),
            _ => {},
        }
        match member(ps, "proj:code") {
            Some(JsonValue::String(c)) => {
                proof { lemma_contains_push(item_proj_codes(p), c@); }
                insert_sorted_unique(&mut proj_codes, c.clone());
            },
            _ => {},
        }
        match member(ps, "proj:epsg") {
            Some(JsonValue::Number(n)) => match n.as_u64 {
                Some(c) => {
                    proof { lemma_contains_push_u64(item_epsg_codes(p), c); }
                    insert_sorted_u64(&mut epsg_codes, c);
                },
                None => {},
            },
            _ => {},
        }
        i += 1;
    }
    assert(items@.take(items@.len() as int) =~= items@);
    ItemsSummary { versions, co_types, counts, semantic_surfaces, textures, materials, proj_codes, epsg_codes }
}

/// What aggregating STAC items writes into the summaries `new`, from the
/// summaries `old`.
pub open spec fn items_summaries<B, G>(new: Seq<JsonMember>, old: Seq<JsonMember>, items: Seq<StacItem<B, G>>) -> bool {
    let versions = item_versions(items);
    let lods = item_lod_values(items);
    let types = item_types(items);
    let counts = item_counts(items);
    let codes = item_proj_codes(items);
    &&& member_updated(new, old, "city3d:version"@, versions.len() > 0,
        |v: JsonValue| is_string_array(v, first_occurrences(versions)))
    &&& member_updated(new, old, "city3d:lods"@, lods.len() > 0,
        |v: JsonValue| is_same_array(v, json_first_occurrences(lods)))
    &&& member_updated(new, old, "city3d:co_types"@, types.len() > 0,
        |v: JsonValue| is_sorted_string_set(v, types))
    &&& member_updated(new, old, "city3d:city_objects"@, counts.len() > 0,
        |v: JsonValue| is_i64_stats_object(v, seq_min(counts), seq_max(counts), seq_sum(counts)))
    &&& member_updated(new, old, "city3d:semantic_surfaces"@, item_flags(items, "city3d:semantic_surfaces"@).len() > 0,
        |v: JsonValue| is_bool_array(v, bool_set(item_flags(items, "city3d:semantic_surfaces"@))))
    &&& member_updated(new, old, "city3d:textures"@, item_flags(items, "city3d:textures"@).len() > 0,
        |v: JsonValue| is_bool_array(v, bool_set(item_flags(items, "city3d:textures"@))))
    &&& member_updated(new, old, "city3d:materials"@, item_flags(items, "city3d:materials"@).len() > 0,
        |v: JsonValue| is_bool_array(v, bool_set(item_flags(items, "city3d:materials"@))))
    &&& member_updated(new, old, "proj:code"@, codes.len() > 0,
        |v: JsonValue| is_sorted_string_set(v, codes))
    &&& member_updated(new, old, "proj:epsg"@, item_epsg_codes(items).len() > 0,
        |v: JsonValue| is_sorted_u64_set(v, item_epsg_codes(items)))
    &&& forall|k: Seq<char>| !is_city3d_summary_key(k) && k != "proj:epsg"@
        ==> #[trigger] members_get(new, k) == members_get(old, k)
}

/// Writes the summaries of what the items come to.
fn write_items_summaries<B, G>(summaries: &mut Vec<JsonMember>, items: &Vec<StacItem<B, G>>)
    requires
        distinct_keys(old(summaries)@),
        prefix_sums_within(item_counts(items@), i64::MIN as int, i64::MAX as int),
    ensures
        distinct_keys(final(summaries)@),
        items_summaries(final(summaries)@, old(summaries)@, items@),
{
    let s = summarize_items(items);
    let chosen = collect_item_lods(items);
    proof {
        lemma_first_occurrences(item_versions(items@));
        lemma_summary_keys_distinct();
        assert(i64_ints(s.counts@) == item_counts(items@));
    }
    let ghost s0 = summaries@;
    set_member_if(summaries, "city3d:version", s.versions.len() > 0, string_array(&s.versions));
    set_member_if(summaries, "city3d:lods", chosen.len() > 0, copy_values(&chosen));
    set_member_if(summaries, "city3d:co_types", s.co_types.len() > 0, string_array(&s.co_types));
    let stats = i64_stats(&s.counts);
    match stats {
        Some((mn, mx, total)) => {
            set_member_if(summaries, "city3d:city_objects", true, i64_stats_object(mn, mx, total));
        },
        None => {},
    }
    set_member_if(summaries, "city3d:semantic_surfaces", s.semantic_surfaces.len() > 0, bool_array(&bool_values(&s.semantic_surfaces)));
    set_member_if(summaries, "city3d:textures", s.textures.len() > 0, bool_array(&bool_values(&s.textures)));
    set_member_if(summaries, "city3d:materials", s.materials.len() > 0, bool_array(&bool_values(&s.materials)));
    set_member_if(summaries, "proj:code", s.proj_codes.len() > 0, string_array(&s.proj_codes));
    proof { lemma_epsg_key_distinct(); }
    set_member_if(summaries, "proj:epsg", s.epsg_codes.len() > 0, u64_array(&s.epsg_codes));
    proof {
        let epsg = item_epsg_codes(items@);
        assert(epsg.len() > 0 <==> s.epsg_codes@.len() > 0) by {
            if epsg.len() > 0 {
                assert(epsg.contains(epsg[0]));
            }
            if s.epsg_codes@.len() > 0 {
                assert(s.epsg_codes@.contains(s.epsg_codes@[0]));
            }
        }
        let versions_seq = item_versions(items@);
        assert(versions_seq.len() > 0 <==> texts(s.versions@).len() > 0) by {
            if versions_seq.len() > 0 {
                assert(first_occurrences(versions_seq).contains(versions_seq[0]));
            }
        }
        let lods = item_lod_values(items@);
        assert(lods.len() > 0 <==> deref_all(chosen@).len() > 0) by {
            lemma_json_first_occurrences_nonempty(lods);
        }
        let types = item_types(items@);
        assert(types.len() > 0 <==> texts(s.co_types@).len() > 0) by {
            if types.len() > 0 {
                assert(types.contains(types[0]));
            }
            if texts(s.co_types@).len() > 0 {
                assert(texts(s.co_types@).contains(texts(s.co_types@)[0]));
            }
        }
        let codes = item_proj_codes(items@);
        assert(codes.len() > 0 <==> texts(s.proj_codes@).len() > 0) by {
            if codes.len() > 0 {
                assert(codes.contains(codes[0]));
            }
            if texts(s.proj_codes@).len() > 0 {
                assert(texts(s.proj_codes@).contains(texts(s.proj_codes@)[0]));
            }
        }
        assert(i64_ints(s.counts@).len() == s.counts@.len());
    }
}

/// The first occurrences of a non-empty list are not empty.
proof fn lemma_json_first_occurrences_nonempty(s: Seq<JsonValue>)
    ensures
        s.len() > 0 <==> json_first_occurrences(s).len() > 0,
    decreases s.len(),
{
    if s.len() > 0 {
        lemma_json_first_occurrences_nonempty(s.drop_last());
        let r = json_first_occurrences(s.drop_last());
        if has_same(r, s.last()) {
            let j = choose|j: int| 0 <= j < r.len() && #[trigger] json_same(r[j], s.last());
            assert(r.len() > 0);
        }
    }
}

impl<B> StacCollectionBuilder<B> {
    /// Gathers the city-model summaries of a collection from STAC items
    /// generated separately, and adds `merged_bbox`, the union of the
    /// items' bounding boxes, to the spatial extent.
    ///
    /// Versions are listed in order of first appearance; levels of detail
    /// are the items' values, each document once, in order of first
    /// appearance; city-object types are the sorted set of the strings of
    /// the items' type lists; the counts that are integers are summarised
    /// by minimum, maximum and total; each boolean fact lists the values
    /// observed, `false` first; `proj:code` is the sorted set of the items'
    /// codes, and `proj:epsg` the increasing set of their EPSG numbers.
    /// Every running total of the counts must fit in an `i64`.
    pub fn aggregate_from_items<G>(
        self,
        items: &Vec<StacItem<B, G>>,
        merged_bbox: Option<B>,
    ) -> (r: Result<Self, CityJsonStacError>)
        requires
            self.wf(),
            prefix_sums_within(item_counts(items@), i64::MIN as int, i64::MAX as int),
        ensures
            r matches Ok(b) && {
                &&& b.wf()
                &&& b == (StacCollectionBuilder { summaries: b.summaries, extent: b.extent, ..self })
                &&& b.extent.temporal == self.extent.temporal
                &&& b.extent.spatial.bbox@ == match merged_bbox {
                    Some(m) => self.extent.spatial.bbox@.push(m),
                    None => self.extent.spatial.bbox@,
                }
                &&& items_summaries(b.summaries@, self.summaries@, items@)
            },
    {
        let mut s = self;
        write_items_summaries(&mut s.summaries, items);
        match merged_bbox {
            Some(m) => {
                s.extent.spatial.bbox.push(m);
            },
            None => {},
        }
        Ok(s)
    }
}

} // verus!
