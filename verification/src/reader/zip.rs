//! ZIP archives of city-model files: what an archive reports is gathered
//! from what the readers of the files inside it report.

use vstd::prelude::*;
use crate::error::CityJsonStacError;
use crate::metadata::attributes::{AttributeDefinition, AttributeType};
use crate::metadata::crs::CRS;
use crate::reader::ModelFacts;
use crate::sorted::{
    insert_sorted_unique, is_sorted_set_of, lemma_contains_push, lemma_text_lt_asymmetric,
    lemma_text_lt_irreflexive, lemma_text_lt_total, lemma_text_lt_transitive, text_lt, text_lt_exec,
};
use crate::stac::collection::reader_counts;
use crate::stac::summaries::{opt_texts, seq_sum, lemma_prefix_sum_le};
use crate::text::{chars_of, same_chars, texts};

verus! {

/// The rank of a kind of attribute values in the order of its variants.
pub open spec fn kind_rank(t: AttributeType) -> int {
    match t {
        AttributeType::String => 0,
        AttributeType::Number => 1,
        AttributeType::Boolean => 2,
        AttributeType::Array => 3,
        AttributeType::Object => 4,
    }
}

/// The order of attributes: by name, then by kind.
pub open spec fn attr_lt(a: (Seq<char>, AttributeType), b: (Seq<char>, AttributeType)) -> bool {
    text_lt(a.0, b.0) || (a.0 == b.0 && kind_rank(a.1) < kind_rank(b.1))
}

/// An attribute as its name and kind.
pub open spec fn attr_key(a: AttributeDefinition) -> (Seq<char>, AttributeType) {
    (a.name@, a.attr_type)
}

/// The names and kinds of a list of attributes.
pub open spec fn attr_keys(v: Seq<AttributeDefinition>) -> Seq<(Seq<char>, AttributeType)> {
    v.map_values(|a: AttributeDefinition| attr_key(a))
}

/// The list is strictly increasing in the order of attributes.
pub open spec fn attrs_sorted(s: Seq<(Seq<char>, AttributeType)>) -> bool {
    forall|i: int, j: int| 0 <= i < j < s.len() ==> attr_lt(#[trigger] s[i], #[trigger] s[j])
}

/// The order of attributes is a strict total order.
proof fn lemma_attr_lt_order(a: (Seq<char>, AttributeType), b: (Seq<char>, AttributeType), c: (Seq<char>, AttributeType))
    ensures
        !attr_lt(a, a),
        attr_lt(a, b) && attr_lt(b, c) ==> attr_lt(a, c),
        a != b ==> attr_lt(a, b) || attr_lt(b, a),
        attr_lt(a, b) ==> !attr_lt(b, a),
{
    lemma_text_lt_irreflexive(a.0);
    if attr_lt(a, b) && attr_lt(b, c) {
        if text_lt(a.0, b.0) && text_lt(b.0, c.0) {
            lemma_text_lt_transitive(a.0, b.0, c.0);
        }
    }
    if a != b && a.0 != b.0 {
        lemma_text_lt_total(a.0, b.0);
    }
    if a != b && a.0 == b.0 {
        assert(a.1 != b.1);
    }
    if attr_lt(a, b) && text_lt(a.0, b.0) {
        lemma_text_lt_asymmetric(a.0, b.0);
    }
    if attr_lt(a, b) && a.0 == b.0 {
        lemma_text_lt_irreflexive(a.0);
    }
}

/// Whether attribute `a` comes strictly before attribute `b`.
fn attr_lt_exec(a: &AttributeDefinition, b: &AttributeDefinition) -> (r: bool)
    ensures
        r == attr_lt(attr_key(*a), attr_key(*b)),
{
    let an = chars_of(a.name.as_str());
    let bn = chars_of(b.name.as_str());
    if text_lt_exec(an.as_slice(), bn.as_slice()) {
        return true;
    }
    if !same_chars(an.as_slice(), bn.as_slice()) {
        return false;
    }
    rank_of(a.attr_type) < rank_of(b.attr_type)
}

/// The rank of a kind.
fn rank_of(t: AttributeType) -> (r: u8)
    ensures
        r as int == kind_rank(t),
{
    match t {
        AttributeType::String => 0,
        AttributeType::Number => 1,
        AttributeType::Boolean => 2,
        AttributeType::Array => 3,
        AttributeType::Object => 4,
    }
}

/// Adds `a` to the strictly sorted list of attributes `v`, unless an
/// attribute of the same name and kind is there (`BTreeSet::insert`).
fn insert_attribute(v: &mut Vec<AttributeDefinition>, a: AttributeDefinition)
    requires
        attrs_sorted(attr_keys(old(v)@)),
    ensures
        attrs_sorted(attr_keys(final(v)@)),
        forall|x: (Seq<char>, AttributeType)| #[trigger] attr_keys(final(v)@).contains(x)
            <==> (attr_keys(old(v)@).contains(x) || x == attr_key(a)),
{
    let ghost t = attr_keys(v@);
    let ghost x = attr_key(a);
    let mut i: usize = 0;
    let mut before = true;
    while before && i < v.len()
        invariant
            i <= v@.len(),
            t == attr_keys(v@),
            x == attr_key(a),
            attrs_sorted(t),
            forall|k: int| 0 <= k < i ==> attr_lt(#[trigger] t[k], x),
            !before ==> i < v@.len() && !attr_lt(t[i as int], x),
        decreases v.len() - i, if before { 1int } else { 0int },
    {
        if attr_lt_exec(&v[i], &a) {
            i += 1;
        } else {
            before = false;
        }
    }
    proof {
        assert forall|k: int| i <= k < t.len() implies !attr_lt(#[trigger] t[k], x) by {
            if k > i {
                lemma_attr_lt_order(t[i as int], t[k], x);
            }
        }
    }
    if i < v.len() {
        let same_name = same_chars(chars_of(v[i].name.as_str()).as_slice(), chars_of(a.name.as_str()).as_slice());
        if same_name && rank_of(v[i].attr_type) == rank_of(a.attr_type) {
            proof {
                assert(t[i as int] == x);
            }
            return;
        }
        proof {
            assert(t[i as int] != x);
        }
    }
    proof {
        assert forall|k: int| 0 <= k < t.len() implies #[trigger] t[k] != x by {
            lemma_attr_lt_order(t[k], x, x);
            if k > i {
                lemma_attr_lt_order(t[i as int], t[k], x);
            }
        }
    }
    v.insert(i, a);
    proof {
        let t2 = attr_keys(v@);
        assert(t2 =~= t.insert(i as int, x));
        assert forall|p: int, q: int| 0 <= p < q < t2.len() implies attr_lt(#[trigger] t2[p], #[trigger] t2[q]) by {
            if q < i {
                assert(t2[p] == t[p] && t2[q] == t[q]);
            } else if q == i {
                assert(t2[p] == t[p]);
            } else if p < i {
                assert(t2[p] == t[p] && t2[q] == t[q - 1]);
                lemma_attr_lt_order(t[q - 1], x, x);
                lemma_attr_lt_order(x, t[q - 1], x);
                lemma_attr_lt_order(t[p], x, t[q - 1]);
            } else if p == i {
                assert(t2[q] == t[q - 1]);
                lemma_attr_lt_order(x, t[q - 1], x);
            } else {
                assert(t2[p] == t[p - 1] && t2[q] == t[q - 1]);
            }
        }
        assert forall|y: (Seq<char>, AttributeType)| #[trigger] t2.contains(y) <==> (t.contains(y) || y == x) by {
            if t2.contains(y) {
                let k = choose|k: int| 0 <= k < t2.len() && t2[k] == y;
                if k < i {
                    assert(t[k] == y);
                } else if k > i {
                    assert(t[k - 1] == y);
                }
            }
            if t.contains(y) {
                let k = choose|k: int| 0 <= k < t.len() && t[k] == y;
                if k < i {
                    assert(t2[k] == y);
                } else {
                    assert(t2[k + 1] == y);
                }
            }
            if y == x {
                assert(t2[i as int] == y);
            }
        }
    }
}

/// The attributes the readers report, reader after reader.
pub open spec fn zip_attributes(fs: Seq<ModelFacts>) -> Seq<(Seq<char>, AttributeType)>
    decreases fs.len(),
{
    if fs.len() == 0 {
        seq![]
    } else {
        zip_attributes(fs.drop_last()) + match fs.last().attributes {
            Some(v) => attr_keys(v@),
            None => seq![],
        }
    }
}

/// The city-object types the readers report, reader after reader.
pub open spec fn zip_types(fs: Seq<ModelFacts>) -> Seq<Seq<char>>
    decreases fs.len(),
{
    if fs.len() == 0 {
        seq![]
    } else {
        zip_types(fs.drop_last()) + opt_texts(fs.last().city_object_types)
    }
}

/// The levels of detail the readers report, reader after reader.
pub open spec fn zip_lods(fs: Seq<ModelFacts>) -> Seq<Seq<char>>
    decreases fs.len(),
{
    if fs.len() == 0 {
        seq![]
    } else {
        zip_lods(fs.drop_last()) + opt_texts(fs.last().lods)
    }
}

/// The first version a reader reports that is not empty; empty when there
/// is none.
pub open spec fn zip_version(fs: Seq<ModelFacts>) -> Seq<char>
    decreases fs.len(),
{
    if fs.len() == 0 {
        seq![]
    } else {
        let earlier = zip_version(fs.drop_last());
        if earlier.len() > 0 {
            earlier
        } else {
            match fs.last().version {
                Some(v) => v@,
                None => earlier,
            }
        }
    }
}

/// The CRS of the first reader that reports one.
pub open spec fn zip_crs(fs: Seq<ModelFacts>) -> Option<CRS>
    decreases fs.len(),
{
    if fs.len() == 0 {
        None
    } else {
        match zip_crs(fs.drop_last()) {
            Some(c) => Some(c),
            None => fs.last().crs,
        }
    }
}

/// Some reader reports the boolean fact as true.
pub open spec fn any_true(fs: Seq<ModelFacts>, f: spec_fn(ModelFacts) -> Option<bool>) -> bool {
    exists|i: int| 0 <= i < fs.len() && f(#[trigger] fs[i]) == Some(true)
}

/// What a ZIP archive reports: the sum of the city-object counts, the
/// sorted sets of types, levels of detail and attributes, whether any file
/// has textures, materials or semantic surfaces, the first version and CRS
/// reported, and the encoding of its first file. `B` is the union of the
/// files' bounding boxes.
#[derive(Debug)]
pub struct ZipMetadata<B> {
    pub bbox: Option<B>,
    pub city_object_count: u64,
    pub city_object_types: Vec<String>,
    pub lods: Vec<String>,
    pub attributes: Vec<AttributeDefinition>,
    pub primary_encoding: String,
    pub version: String,
    pub crs: CRS,
    pub has_textures: bool,
    pub has_materials: bool,
    pub has_semantic_surfaces: bool,
}

/// An archive without a city-model file cannot be read.
pub fn require_inner_files(count: usize) -> (r: Result<(), CityJsonStacError>)
    ensures
        count > 0 <==> r is Ok,
        r matches Err(CityJsonStacError::InvalidCityJson(m)) ==> m@ == "No CityJSON/CityGML files found in ZIP"@,
{
    if count == 0 {
        Err(CityJsonStacError::InvalidCityJson("No CityJSON/CityGML files found in ZIP".to_string()))
    } else {
        Ok(())
    }
}

/// Adds each string of `xs` to the sorted set `acc`.
fn insert_all(acc: &mut Vec<String>, xs: &Vec<String>, Ghost(before): Ghost<Seq<Seq<char>>>)
    requires
        is_sorted_set_of(texts(old(acc)@), before),
    ensures
        is_sorted_set_of(texts(final(acc)@), before + texts(xs@)),
{
    let mut j: usize = 0;
    assert(before + texts(xs@).take(0) =~= before);
    while j < xs.len()
        invariant
            j <= xs@.len(),
            is_sorted_set_of(texts(acc@), before + texts(xs@).take(j as int)),
        decreases xs.len() - j,
    {
        let ghost cur = before + texts(xs@).take(j as int);
        proof {
            assert(before + texts(xs@).take(j + 1) =~= cur.push(xs@[j as int]@));
            lemma_contains_push(cur, xs@[j as int]@);
        }
        insert_sorted_unique(acc, xs[j].clone());
        j += 1;
    }
    assert(texts(xs@).take(xs@.len() as int) =~= texts(xs@));
}

/// Gathers what a ZIP archive reports from what the readers of its files
/// report. `first_encoding` is the encoding of its first file, if any;
/// `merged_bbox` the union of the files' bounding boxes. The total count
/// must fit in a `u64`.
pub fn aggregate_zip_metadata<B>(
    readers: &Vec<ModelFacts>,
    first_encoding: Option<String>,
    merged_bbox: Option<B>,
) -> (r: ZipMetadata<B>)
    requires
        seq_sum(reader_counts(readers@)) <= u64::MAX,
    ensures
        r.bbox == merged_bbox,
        r.city_object_count == seq_sum(reader_counts(readers@)),
        is_sorted_set_of(texts(r.city_object_types@), zip_types(readers@)),
        is_sorted_set_of(texts(r.lods@), zip_lods(readers@)),
        attrs_sorted(attr_keys(r.attributes@)),
        forall|x: (Seq<char>, AttributeType)| #[trigger] attr_keys(r.attributes@).contains(x)
            <==> zip_attributes(readers@).contains(x),
        r.primary_encoding@ == match first_encoding {
            Some(e) => e@,
            None => "CityJSON"@,
        },
        r.version@ == zip_version(readers@),
        zip_crs(readers@) matches Some(c) ==> r.crs == c,
        zip_crs(readers@) is None ==> r.crs.epsg == Some(4326u32),
        r.has_textures == any_true(readers@, |f: ModelFacts| f.textures),
        r.has_materials == any_true(readers@, |f: ModelFacts| f.materials),
        r.has_semantic_surfaces == any_true(readers@, |f: ModelFacts| f.semantic_surfaces),
{
    let mut count: u64 = 0;
    let mut types: Vec<String> = Vec::new();
    let mut lods: Vec<String> = Vec::new();
    let mut attributes: Vec<AttributeDefinition> = Vec::new();
    let mut has_textures = false;
    let mut has_materials = false;
    let mut has_semantic_surfaces = false;
    let mut version = String::new();
    let mut crs: Option<CRS> = None;
    let mut i: usize = 0;
    while i < readers.len()
        invariant
            i <= readers@.len(),
            seq_sum(reader_counts(readers@)) <= u64::MAX,
            count == seq_sum(reader_counts(readers@.take(i as int))),
            is_sorted_set_of(texts(types@), zip_types(readers@.take(i as int))),
            is_sorted_set_of(texts(lods@), zip_lods(readers@.take(i as int))),
            attrs_sorted(attr_keys(attributes@)),
            forall|x: (Seq<char>, AttributeType)| #[trigger] attr_keys(attributes@).contains(x)
                <==> zip_attributes(readers@.take(i as int)).contains(x),
            version@ == zip_version(readers@.take(i as int)),
            crs == zip_crs(readers@.take(i as int)),
            has_textures == any_true(readers@.take(i as int), |f: ModelFacts| f.textures),
            has_materials == any_true(readers@.take(i as int), |f: ModelFacts| f.materials),
            has_semantic_surfaces == any_true(readers@.take(i as int), |f: ModelFacts| f.semantic_surfaces),
        decreases readers.len() - i,
    {
        let ghost p = readers@.take(i as int);
        let ghost q = readers@.take(i + 1);
        assert(q.drop_last() =~= p);
        assert(q.last() == readers@[i as int]);
        let f = &readers[i];
        match f.city_object_count {
            Some(n) => {
                proof {
                    lemma_reader_counts_prefix(readers@, i + 1);
                    assert(reader_counts(q) == reader_counts(p).push(n as int));
                    assert(reader_counts(p).push(n as int).drop_last() =~= reader_counts(p));
                }
                count = count + n;
            },
            None => {},
        }
        match &f.city_object_types {
            Some(ts) => insert_all(&mut types, ts, Ghost(zip_types(p))),
            None => {
                assert(zip_types(q) =~= zip_types(p));
            },
        }
        match &f.lods {
            Some(ls) => insert_all(&mut lods, ls, Ghost(zip_lods(p))),
            None => {
                assert(zip_lods(q) =~= zip_lods(p));
            },
        }
        match &f.attributes {
            Some(attrs) => {
                let mut j: usize = 0;
                let ghost base = zip_attributes(p);
                assert(base + attr_keys(attrs@).take(0) =~= base);
                while j < attrs.len()
                    invariant
                        j <= attrs@.len(),
                        attrs_sorted(attr_keys(attributes@)),
                        forall|x: (Seq<char>, AttributeType)| #[trigger] attr_keys(attributes@).contains(x)
                            <==> (base + attr_keys(attrs@).take(j as int)).contains(x),
                    decreases attrs.len() - j,
                {
                    let ghost cur = base + attr_keys(attrs@).take(j as int);
                    proof {
                        assert(base + attr_keys(attrs@).take(j + 1) =~= cur.push(attr_key(attrs@[j as int])));
                        assert forall|y: (Seq<char>, AttributeType)| #[trigger] cur.push(attr_key(attrs@[j as int])).contains(y)
                            <==> (cur.contains(y) || y == attr_key(attrs@[j as int])) by {
                            let c2 = cur.push(attr_key(attrs@[j as int]));
                            if c2.contains(y) {
                                let k = choose|k: int| 0 <= k < c2.len() && c2[k] == y;
                                if k < cur.len() {
                                    assert(cur[k] == y);
                                }
                            }
                            if cur.contains(y) {
                                let k = choose|k: int| 0 <= k < cur.len() && cur[k] == y;
                                assert(c2[k] == y);
                            }
                            if y == attr_key(attrs@[j as int]) {
                                assert(c2[cur.len() as int] == y);
                            }
                        }
                    }
                    let a = AttributeDefinition { name: attrs[j].name.clone(), attr_type: attrs[j].attr_type };
                    insert_attribute(&mut attributes, a);
                    j += 1;
                }
                assert(attr_keys(attrs@).take(attrs@.len() as int) =~= attr_keys(attrs@));
            },
            None => {
                assert(zip_attributes(q) =~= zip_attributes(p));
            },
        }
        proof {
            lemma_any_true_push(p, readers@[i as int], |f: ModelFacts| f.textures);
            lemma_any_true_push(p, readers@[i as int], |f: ModelFacts| f.materials);
            lemma_any_true_push(p, readers@[i as int], |f: ModelFacts| f.semantic_surfaces);
            assert(q =~= p.push(readers@[i as int]));
        }
        if f.textures == Some(true) {
            has_textures = true;
        }
        if f.materials == Some(true) {
            has_materials = true;
        }
        if f.semantic_surfaces == Some(true) {
            has_semantic_surfaces = true;
        }
        if version.as_str().unicode_len() == 0 {
            match &f.version {
                Some(v) => {
                    version = v.clone();
                },
                None => {},
            }
        }
        if crs.is_none() {
            crs = match &f.crs {
                Some(c) => Some(c.copy()),
                None => None,
            };
        }
        i += 1;
    }
    assert(readers@.take(readers@.len() as int) =~= readers@);
    let primary_encoding = match first_encoding {
        Some(e) => e,
        None => "CityJSON".to_string(),
    };
    let crs = match crs {
        Some(c) => c,
        None => CRS::default(),
    };
    ZipMetadata {
        bbox: merged_bbox,
        city_object_count: count,
        city_object_types: types,
        lods,
        attributes,
        primary_encoding,
        version,
        crs,
        has_textures,
        has_materials,
        has_semantic_surfaces,
    }
}

/// Whether some of `p.push(x)` reports the fact as true.
proof fn lemma_any_true_push(p: Seq<ModelFacts>, x: ModelFacts, f: spec_fn(ModelFacts) -> Option<bool>)
    ensures
        any_true(p.push(x), f) == (any_true(p, f) || f(x) == Some(true)),
{
    let q = p.push(x);
    if any_true(q, f) {
        let k = choose|k: int| 0 <= k < q.len() && f(#[trigger] q[k]) == Some(true);
        if k < p.len() {
            assert(q[k] == p[k]);
        }
    }
    if any_true(p, f) {
        let k = choose|k: int| 0 <= k < p.len() && f(#[trigger] p[k]) == Some(true);
        assert(q[k] == p[k]);
    }
    if f(x) == Some(true) {
        assert(q[p.len() as int] == x);
    }
}

/// The counts of a prefix of the readers sum to at most the whole sum.
proof fn lemma_reader_counts_prefix(fs: Seq<ModelFacts>, k: int)
    requires
        0 <= k <= fs.len(),
    ensures
        seq_sum(reader_counts(fs.take(k))) <= seq_sum(reader_counts(fs)),
    decreases fs.len(),
{
    lemma_reader_counts_nonneg(fs);
    if k < fs.len() {
        assert(fs.drop_last().take(k) =~= fs.take(k));
        lemma_reader_counts_prefix(fs.drop_last(), k);
        lemma_reader_counts_nonneg(fs.drop_last());
        let r = reader_counts(fs.drop_last());
        match fs.last().city_object_count {
            Some(n) => {
                assert(reader_counts(fs) == r.push(n as int));
                assert(r.push(n as int).drop_last() =~= r);
            },
            None => {},
        }
    } else {
        assert(fs.take(k) =~= fs);
    }
}

/// Counts are not negative.
proof fn lemma_reader_counts_nonneg(fs: Seq<ModelFacts>)
    ensures
        forall|i: int| 0 <= i < reader_counts(fs).len() ==> #[trigger] reader_counts(fs)[i] >= 0,
        seq_sum(reader_counts(fs)) >= 0,
    decreases fs.len(),
{
    if fs.len() > 0 {
        lemma_reader_counts_nonneg(fs.drop_last());
        let r = reader_counts(fs.drop_last());
        assert forall|i: int| 0 <= i < reader_counts(fs).len() implies #[trigger] reader_counts(fs)[i] >= 0 by {
            if i < r.len() {
                assert(reader_counts(fs)[i] == r[i]);
            }
        }
    }
    crate::stac::summaries::lemma_element_le_sum(reader_counts(fs));
}

} // verus!
