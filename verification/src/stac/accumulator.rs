//! Accumulating what is needed to build a collection while its items are
//! processed one by one: each item's metadata and link, and each failure.

use vstd::prelude::*;
use crate::metadata::attributes::{AttributeDefinition, AttributeType};
use crate::stac::models::{CityObjectsCount, StacItem};
use crate::json::{JsonMember, JsonValue, member, members_get};
use crate::text::{chars_of, concat, opt_text, same_chars, string_of, texts};
use crate::error::CityJsonStacError;
use crate::decimal::{decimal, decimal_exec};

verus! {

/// What a collection's summaries need of one item. `B` is the item's
/// bounding box, which the library carries without reading it.
#[derive(Debug, Clone)]
pub struct ItemMetadata<B> {
    pub id: String,
    pub bbox: Option<B>,
    pub city3d_version: Option<String>,
    pub city3d_city_objects: Option<CityObjectsCount>,
    pub city3d_lods: Option<Vec<String>>,
    pub city3d_co_types: Option<Vec<String>>,
    pub city3d_attributes: Option<Vec<AttributeDefinition>>,
    pub city3d_semantic_surfaces: Option<bool>,
    pub city3d_textures: Option<bool>,
    pub city3d_materials: Option<bool>,
    /// Projection code (such as `EPSG:7415`).
    pub proj_code: Option<String>,
}

/// The text of a string value.
pub open spec fn text_value(v: Option<JsonValue>) -> Option<Seq<char>> {
    match v {
        Some(JsonValue::String(s)) => Some(s@),
        _ => None,
    }
}

/// The boolean of a boolean value.
pub open spec fn bool_value(v: Option<JsonValue>) -> Option<bool> {
    match v {
        Some(JsonValue::Bool(b)) => Some(b),
        _ => None,
    }
}

/// The value of a number that is a `u64` (`Value::as_u64`).
pub open spec fn u64_value(v: Option<JsonValue>) -> Option<u64> {
    match v {
        Some(JsonValue::Number(n)) => n.as_u64,
        _ => None,
    }
}

/// The texts of the strings and numbers of a list, in order; other values
/// are skipped.
pub open spec fn element_texts(xs: Seq<JsonValue>) -> Seq<Seq<char>>
    decreases xs.len(),
{
    if xs.len() == 0 {
        seq![]
    } else {
        let rest = element_texts(xs.drop_last());
        match xs.last() {
            JsonValue::String(s) => rest.push(s@),
            JsonValue::Number(n) => rest.push(n.text@),
            _ => rest,
        }
    }
}

/// The texts of an array value's strings and numbers; none for a value
/// that is not an array.
pub open spec fn texts_value(v: Option<JsonValue>) -> Option<Seq<Seq<char>>> {
    match v {
        Some(JsonValue::Array(xs)) => Some(element_texts(xs@)),
        _ => None,
    }
}

/// The city-object count of a value: a `u64` number, or an object whose
/// `min`, `max` and `total` are `u64` numbers.
pub open spec fn count_of_value(v: Option<JsonValue>) -> Option<CityObjectsCount> {
    match u64_value(v) {
        Some(n) => Some(CityObjectsCount::Integer(n)),
        None => match v {
            Some(JsonValue::Object(ms)) => {
                match (u64_value(members_get(ms@, "min"@)), u64_value(members_get(ms@, "max"@)), u64_value(members_get(ms@, "total"@))) {
                    (Some(min), Some(max), Some(total)) => Some(CityObjectsCount::Statistics { min, max, total }),
                    _ => None,
                }
            },
            _ => None,
        },
    }
}

/// The kind of attribute values a name denotes (`string`, `number`,
/// `boolean`, `array`, `object`).
pub open spec fn attribute_type_of(name: Seq<char>) -> Option<AttributeType> {
    if name == "string"@ {
        Some(AttributeType::String)
    } else if name == "number"@ {
        Some(AttributeType::Number)
    } else if name == "boolean"@ {
        Some(AttributeType::Boolean)
    } else if name == "array"@ {
        Some(AttributeType::Array)
    } else if name == "object"@ {
        Some(AttributeType::Object)
    } else {
        None
    }
}

/// The attribute a JSON value describes: an object with a string `name`
/// and a `type` naming a kind, or the list `[name, type]`.
pub open spec fn attribute_of_value(v: JsonValue) -> Option<(Seq<char>, AttributeType)> {
    match v {
        JsonValue::Object(ms) => match (text_value(members_get(ms@, "name"@)), text_value(members_get(ms@, "type"@))) {
            (Some(n), Some(t)) => match attribute_type_of(t) {
                Some(k) => Some((n, k)),
                None => None,
            },
            _ => None,
        },
        JsonValue::Array(xs) => if xs@.len() == 2 {
            match (text_value(Some(xs@[0])), text_value(Some(xs@[1]))) {
                (Some(n), Some(t)) => match attribute_type_of(t) {
                    Some(k) => Some((n, k)),
                    None => None,
                },
                _ => None,
            }
        } else {
            None
        },
        _ => None,
    }
}

/// The attributes the values of a list describe, in order; other values
/// are skipped.
pub open spec fn attributes_of(xs: Seq<JsonValue>) -> Seq<(Seq<char>, AttributeType)>
    decreases xs.len(),
{
    if xs.len() == 0 {
        seq![]
    } else {
        let rest = attributes_of(xs.drop_last());
        match attribute_of_value(xs.last()) {
            Some(a) => rest.push(a),
            None => rest,
        }
    }
}

/// An attribute as its name and kind.
pub open spec fn attribute_pair(a: AttributeDefinition) -> (Seq<char>, AttributeType) {
    (a.name@, a.attr_type)
}

/// The attributes an item's `city3d:attributes` describes; none when it is
/// not an array.
pub open spec fn attributes_value(v: Option<JsonValue>) -> Option<Seq<(Seq<char>, AttributeType)>> {
    match v {
        Some(JsonValue::Array(xs)) => Some(attributes_of(xs@)),
        _ => None,
    }
}

/// The names and kinds of an optional list of attributes.
pub open spec fn opt_attribute_pairs(o: Option<Vec<AttributeDefinition>>) -> Option<Seq<(Seq<char>, AttributeType)>> {
    match o {
        Some(v) => Some(v@.map_values(|a: AttributeDefinition| attribute_pair(a))),
        None => None,
    }
}

/// The strings of an optional list.
pub open spec fn opt_list_texts(o: Option<Vec<String>>) -> Option<Seq<Seq<char>>> {
    match o {
        Some(v) => Some(texts(v@)),
        None => None,
    }
}

/// `m` is what an item with the given id, bounding box and properties
/// comes to: each field read from its property as `from_item` reads it.
pub open spec fn reads_item<B>(m: ItemMetadata<B>, id: Seq<char>, ps: Seq<JsonMember>) -> bool {
    &&& m.id@ == id
    &&& opt_text(m.city3d_version) == text_value(members_get(ps, "city3d:version"@))
    &&& m.city3d_city_objects == count_of_value(members_get(ps, "city3d:city_objects"@))
    &&& opt_list_texts(m.city3d_lods) == texts_value(members_get(ps, "city3d:lods"@))
    &&& opt_list_texts(m.city3d_co_types) == texts_value(members_get(ps, "city3d:co_types"@))
    &&& opt_attribute_pairs(m.city3d_attributes) == attributes_value(members_get(ps, "city3d:attributes"@))
    &&& m.city3d_semantic_surfaces == bool_value(members_get(ps, "city3d:semantic_surfaces"@))
    &&& m.city3d_textures == bool_value(members_get(ps, "city3d:textures"@))
    &&& m.city3d_materials == bool_value(members_get(ps, "city3d:materials"@))
    &&& opt_text(m.proj_code) == text_value(members_get(ps, "proj:code"@))
}

/// The text of a string value.
fn read_text(v: Option<&JsonValue>) -> (r: Option<String>)
    ensures
        opt_text(r) == text_value(match v { Some(x) => Some(*x), None => None }),
{
    match v {
        Some(JsonValue::String(s)) => Some(s.clone()),
        _ => None,
    }
}

/// The boolean of a boolean value.
fn read_bool(v: Option<&JsonValue>) -> (r: Option<bool>)
    ensures
        r == bool_value(match v { Some(x) => Some(*x), None => None }),
{
    match v {
        Some(JsonValue::Bool(b)) => Some(*b),
        _ => None,
    }
}

/// The value of a number that is a `u64`.
fn read_u64(v: Option<&JsonValue>) -> (r: Option<u64>)
    ensures
        r == u64_value(match v { Some(x) => Some(*x), None => None }),
{
    match v {
        Some(JsonValue::Number(n)) => n.as_u64,
        _ => None,
    }
}

/// The texts of an array value's strings and numbers.
fn read_texts(v: Option<&JsonValue>) -> (r: Option<Vec<String>>)
    ensures
        opt_list_texts(r) == texts_value(match v { Some(x) => Some(*x), None => None }),
{
    match v {
        Some(JsonValue::Array(xs)) => {
            let mut out: Vec<String> = Vec::new();
            let mut i: usize = 0;
            while i < xs.len()
                invariant
                    i <= xs@.len(),
                    texts(out@) == element_texts(xs@.take(i as int)),
                decreases xs.len() - i,
            {
                assert(xs@.take(i + 1).drop_last() =~= xs@.take(i as int));
                assert(xs@.take(i + 1).last() == xs@[i as int]);
                let ghost before = texts(out@);
                match &xs[i] {
                    JsonValue::String(s) => {
                        out.push(s.clone());
                        assert(texts(out@) =~= before.push(s@));
                    },
                    JsonValue::Number(n) => {
                        out.push(n.text.clone());
                        assert(texts(out@) =~= before.push(n.text@));
                    },
                    _ => {},
                }
                i += 1;
            }
            assert(xs@.take(xs@.len() as int) =~= xs@);
            Some(out)
        },
        _ => None,
    }
}

/// The kind a name denotes.
fn read_attribute_type(name: &str) -> (r: Option<AttributeType>)
    ensures
        r == attribute_type_of(name@),
{
    let c = chars_of(name);
    if same_chars(c.as_slice(), chars_of("string").as_slice()) {
        Some(AttributeType::String)
    } else if same_chars(c.as_slice(), chars_of("number").as_slice()) {
        Some(AttributeType::Number)
    } else if same_chars(c.as_slice(), chars_of("boolean").as_slice()) {
        Some(AttributeType::Boolean)
    } else if same_chars(c.as_slice(), chars_of("array").as_slice()) {
        Some(AttributeType::Array)
    } else if same_chars(c.as_slice(), chars_of("object").as_slice()) {
        Some(AttributeType::Object)
    } else {
        None
    }
}

/// The attribute a JSON value describes.
fn read_attribute(v: &JsonValue) -> (r: Option<AttributeDefinition>)
    ensures
        match r {
            Some(a) => attribute_of_value(*v) == Some(attribute_pair(a)),
            None => attribute_of_value(*v) is None,
        },
{
    let (name, kind) = match v {
        JsonValue::Object(ms) => (read_text(member(ms, "name")), read_text(member(ms, "type"))),
        JsonValue::Array(xs) => if xs.len() == 2 {
            (read_text(Some(&xs[0])), read_text(Some(&xs[1])))
        } else {
            (None, None)
        },
        _ => (None, None),
    };
    match (name, kind) {
        (Some(n), Some(t)) => match read_attribute_type(t.as_str()) {
            Some(k) => Some(AttributeDefinition { name: n, attr_type: k }),
            None => None,
        },
        _ => None,
    }
}

/// The attributes an array value describes.
fn read_attributes(v: Option<&JsonValue>) -> (r: Option<Vec<AttributeDefinition>>)
    ensures
        opt_attribute_pairs(r) == attributes_value(match v { Some(x) => Some(*x), None => None }),
{
    match v {
        Some(JsonValue::Array(xs)) => {
            let mut out: Vec<AttributeDefinition> = Vec::new();
            let mut i: usize = 0;
            while i < xs.len()
                invariant
                    i <= xs@.len(),
                    out@.map_values(|a: AttributeDefinition| attribute_pair(a)) == attributes_of(xs@.take(i as int)),
                decreases xs.len() - i,
            {
                assert(xs@.take(i + 1).drop_last() =~= xs@.take(i as int));
                assert(xs@.take(i + 1).last() == xs@[i as int]);
                let ghost before = out@;
                match read_attribute(&xs[i]) {
                    Some(a) => {
                        out.push(a);
                        assert(out@.map_values(|a: AttributeDefinition| attribute_pair(a))
                            =~= before.map_values(|a: AttributeDefinition| attribute_pair(a)).push(attribute_pair(a)));
                    },
                    None => {},
                }
                i += 1;
            }
            assert(xs@.take(xs@.len() as int) =~= xs@);
            Some(out)
        },
        _ => None,
    }
}

/// The city-object count of a value.
fn read_count(v: Option<&JsonValue>) -> (r: Option<CityObjectsCount>)
    ensures
        r == count_of_value(match v { Some(x) => Some(*x), None => None }),
{
    match read_u64(v) {
        Some(n) => Some(CityObjectsCount::Integer(n)),
        None => match v {
            Some(JsonValue::Object(ms)) => {
                let min = read_u64(member(ms, "min"));
                let max = read_u64(member(ms, "max"));
                let total = read_u64(member(ms, "total"));
                match (min, max, total) {
                    (Some(a), Some(b), Some(c)) => Some(CityObjectsCount::Statistics { min: a, max: b, total: c }),
                    _ => None,
                }
            },
            _ => None,
        },
    }
}

impl<B: Clone> ItemMetadata<B> {
    /// What a collection needs of an item: its id, a copy of its bounding
    /// box, and the 3D city model properties it has of the expected type
    /// (`city3d:lods` and `city3d:co_types` read as the texts of their
    /// strings and numbers; `city3d:attributes` as the attributes its
    /// elements describe; `city3d:city_objects` as a number or statistics).
    pub fn from_item<G>(item: &StacItem<B, G>) -> (r: Self)
        ensures
            reads_item(r, item.id@, item.properties@),
            match (item.bbox, r.bbox) {
                (Some(a), Some(b)) => cloned(a, b),
                (None, None) => true,
                _ => false,
            },
    {
        let ps = &item.properties;
        let bbox = match &item.bbox {
            Some(b) => Some(b.clone()),
            None => None,
        };
        ItemMetadata {
            id: item.id.clone(),
            bbox,
            city3d_version: read_text(member(ps, "city3d:version")),
            city3d_city_objects: read_count(member(ps, "city3d:city_objects")),
            city3d_lods: read_texts(member(ps, "city3d:lods")),
            city3d_co_types: read_texts(member(ps, "city3d:co_types")),
            city3d_attributes: read_attributes(member(ps, "city3d:attributes")),
            city3d_semantic_surfaces: read_bool(member(ps, "city3d:semantic_surfaces")),
            city3d_textures: read_bool(member(ps, "city3d:textures")),
            city3d_materials: read_bool(member(ps, "city3d:materials")),
            proj_code: read_text(member(ps, "proj:code")),
        }
    }
}

/// What has been gathered so far: the metadata of each item processed, the
/// link (href and title) to each, and each failure (source and message).
/// `Meta` is the per-item metadata kept for the collection's summaries.
#[derive(Debug, Clone)]
pub struct CollectionAccumulator<Meta> {
    pub items_metadata: Vec<Meta>,
    pub item_links: Vec<(String, Option<String>)>,
    pub errors: Vec<(String, String)>,
}

impl<Meta> CollectionAccumulator<Meta> {
    /// Items and links are recorded together, so there are as many links as
    /// items.
    pub open spec fn wf(&self) -> bool {
        self.items_metadata@.len() == self.item_links@.len()
    }

    /// Nothing gathered yet.
    pub fn new() -> (r: Self)
        ensures
            r.items_metadata@.len() == 0,
            r.item_links@.len() == 0,
            r.errors@.len() == 0,
            r.wf(),
    {
        CollectionAccumulator { items_metadata: Vec::new(), item_links: Vec::new(), errors: Vec::new() }
    }

    /// Records a processed item: its metadata and the link to it.
    pub fn add_item(&mut self, metadata: Meta, href: String, title: Option<String>)
        ensures
            final(self).items_metadata@ == old(self).items_metadata@.push(metadata),
            final(self).item_links@ == old(self).item_links@.push((href, title)),
            final(self).errors@ == old(self).errors@,
            old(self).wf() ==> final(self).wf(),
    {
        self.items_metadata.push(metadata);
        self.item_links.push((href, title));
    }

    /// Records a failure.
    pub fn add_error(&mut self, source: String, error: String)
        ensures
            final(self).items_metadata@ == old(self).items_metadata@,
            final(self).item_links@ == old(self).item_links@,
            final(self).errors@ == old(self).errors@.push((source, error)),
            old(self).wf() ==> final(self).wf(),
    {
        self.errors.push((source, error));
    }

    /// Whether any failure was recorded.
    pub fn has_errors(&self) -> (r: bool)
        ensures
            r == (self.errors@.len() > 0),
    {
        self.errors.len() > 0
    }

    /// The number of items recorded.
    pub fn successful_count(&self) -> (r: usize)
        ensures
            r == self.items_metadata@.len(),
    {
        self.items_metadata.len()
    }

    /// The number of failures recorded.
    pub fn error_count(&self) -> (r: usize)
        ensures
            r == self.errors@.len(),
    {
        self.errors.len()
    }
}

/// What became of one input while a collection was being built.
pub enum ItemOutcome<Meta> {
    /// Its item was written, or an existing item was read: the item's
    /// metadata, the href of the item file and the link title.
    Recorded { metadata: Meta, href: String, title: Option<String> },
    /// It failed: a description of the input and the error message.
    Failed { source: String, message: String },
}

/// Whether to go on with the next input.
#[derive(Debug, Clone, Copy, PartialEq, Eq, Structural)]
pub enum Next {
    Continue,
    Stop,
}

/// What recording `outcome` does (see `CollectionAccumulator::record`):
/// `after` is the accumulator that comes of `before`, and `next` the answer.
pub open spec fn records<Meta>(
    before: CollectionAccumulator<Meta>,
    outcome: ItemOutcome<Meta>,
    skip_errors: bool,
    after: CollectionAccumulator<Meta>,
    next: Next,
) -> bool {
    match outcome {
        ItemOutcome::Recorded { metadata, href, title } => {
            &&& next == Next::Continue
            &&& after.items_metadata@ == before.items_metadata@.push(metadata)
            &&& after.item_links@ == before.item_links@.push((href, title))
            &&& after.errors@ == before.errors@
        },
        ItemOutcome::Failed { source, message } => {
            &&& after.items_metadata@ == before.items_metadata@
            &&& after.item_links@ == before.item_links@
            &&& if skip_errors {
                next == Next::Continue && after.errors@ == before.errors@.push((source, message))
            } else {
                next == Next::Stop && after.errors@ == before.errors@
            }
        },
    }
}

/// The text of the error that stops a collection after `n` failures.
pub open spec fn failure_text(n: nat) -> Seq<char> {
    decimal(n) + " item(s) failed to process"@
}

/// The number of failures among the outcomes.
pub open spec fn failures<Meta>(outcomes: Seq<ItemOutcome<Meta>>) -> nat
    decreases outcomes.len(),
{
    if outcomes.len() == 0 {
        0
    } else {
        failures(outcomes.drop_last()) + (if outcomes.last() is Failed { 1nat } else { 0nat })
    }
}

/// A run over the inputs of a collection: `states[0]` is the accumulator
/// before the first input, and `states[i + 1]` and `nexts[i]` what
/// recording `outcomes[i]` gave.
pub open spec fn is_run<Meta>(
    states: Seq<CollectionAccumulator<Meta>>,
    outcomes: Seq<ItemOutcome<Meta>>,
    nexts: Seq<Next>,
    skip_errors: bool,
) -> bool {
    &&& states.len() == outcomes.len() + 1
    &&& nexts.len() == outcomes.len()
    &&& forall|i: int| 0 <= i < outcomes.len()
        ==> #[trigger] records(states[i], outcomes[i], skip_errors, states[i + 1], nexts[i])
}

/// What a run that starts with no errors comes to. With errors skipped,
/// every input is gone through and every failure recorded, so the run ends
/// with as many errors as inputs failed: it fails with
/// `<n> item(s) failed to process` exactly when some input failed (see
/// `failure`). Without skipping, nothing is recorded of a failure and the
/// answer is `Stop` exactly after an input that failed.
pub proof fn lemma_collection_run<Meta>(
    states: Seq<CollectionAccumulator<Meta>>,
    outcomes: Seq<ItemOutcome<Meta>>,
    nexts: Seq<Next>,
    skip_errors: bool,
)
    requires
        is_run(states, outcomes, nexts, skip_errors),
        states[0].errors@.len() == 0,
    ensures
        skip_errors ==> states.last().errors@.len() == failures(outcomes),
        skip_errors ==> forall|i: int| 0 <= i < nexts.len() ==> #[trigger] nexts[i] == Next::Continue,
        !skip_errors ==> states.last().errors@.len() == 0,
        !skip_errors ==> forall|i: int| 0 <= i < nexts.len()
            ==> (#[trigger] nexts[i] == Next::Stop <==> outcomes[i] is Failed),
        states.last().items_metadata@.len() == states[0].items_metadata@.len() + outcomes.len() - failures(outcomes),
    decreases outcomes.len(),
{
    let n = outcomes.len();
    if n > 0 {
        let k = n - 1;
        assert(records(states[k], outcomes[k], skip_errors, states[k + 1], nexts[k]));
        assert(is_run(states.drop_last(), outcomes.drop_last(), nexts.drop_last(), skip_errors)) by {
            assert forall|i: int| 0 <= i < outcomes.drop_last().len() implies
                #[trigger] records(states.drop_last()[i], outcomes.drop_last()[i], skip_errors,
                    states.drop_last()[i + 1], nexts.drop_last()[i]) by {
                assert(records(states[i], outcomes[i], skip_errors, states[i + 1], nexts[i]));
            }
        }
        lemma_collection_run(states.drop_last(), outcomes.drop_last(), nexts.drop_last(), skip_errors);
        assert(states.drop_last().last() == states[k]);
        assert forall|i: int| 0 <= i < nexts.len() implies
            (skip_errors ==> #[trigger] nexts[i] == Next::Continue)
            && (!skip_errors ==> (nexts[i] == Next::Stop <==> outcomes[i] is Failed)) by {
            assert(records(states[i], outcomes[i], skip_errors, states[i + 1], nexts[i]));
        }
    }
}

impl<Meta> CollectionAccumulator<Meta> {
    /// Records what became of one input: an item is added; a failure is
    /// recorded and passed over when errors are skipped, and stops the run
    /// (with nothing recorded) otherwise.
    pub fn record(&mut self, outcome: ItemOutcome<Meta>, skip_errors: bool) -> (r: Next)
        requires
            old(self).wf(),
        ensures
            final(self).wf(),
            records(*old(self), outcome, skip_errors, *final(self), r),
    {
        match outcome {
            ItemOutcome::Recorded { metadata, href, title } => {
                self.add_item(metadata, href, title);
                Next::Continue
            },
            ItemOutcome::Failed { source, message } => {
                if skip_errors {
                    self.add_error(source, message);
                    Next::Continue
                } else {
                    Next::Stop
                }
            },
        }
    }

    /// The error that stops a collection from being written: none when no
    /// input failed, otherwise a STAC error saying how many did
    /// (`<n> item(s) failed to process`).
    pub fn failure(&self) -> (r: Option<CityJsonStacError>)
        ensures
            self.errors@.len() == 0 <==> r is None,
            r matches Some(e) ==> e matches CityJsonStacError::StacError(m)
                && m@ == failure_text(self.errors@.len()),
    {
        if self.errors.len() == 0 {
            return None;
        }
        let n = decimal_exec(self.errors.len() as u64);
        let all = concat(n.as_slice(), chars_of(" item(s) failed to process").as_slice());
        Some(CityJsonStacError::StacError(string_of(all.as_slice())))
    }
}

impl<Meta> Default for CollectionAccumulator<Meta> {
    /// Nothing gathered yet.
    fn default() -> (r: Self)
        ensures
            r.items_metadata@.len() == 0,
            r.item_links@.len() == 0,
            r.errors@.len() == 0,
    {
        CollectionAccumulator::new()
    }
}

/// Each recorded item adds one to the successful count and leaves the error
/// count as it was; each recorded failure adds one to the error count and
/// leaves the successful count as it was.
pub proof fn lemma_counts_follow_records<Meta>(
    before: CollectionAccumulator<Meta>,
    after_item: CollectionAccumulator<Meta>,
    after_error: CollectionAccumulator<Meta>,
    metadata: Meta,
    href: String,
    title: Option<String>,
    source: String,
    error: String,
)
    requires
        after_item.items_metadata@ == before.items_metadata@.push(metadata),
        after_item.item_links@ == before.item_links@.push((href, title)),
        after_item.errors@ == before.errors@,
        after_error.items_metadata@ == before.items_metadata@,
        after_error.item_links@ == before.item_links@,
        after_error.errors@ == before.errors@.push((source, error)),
    ensures
        after_item.items_metadata@.len() == before.items_metadata@.len() + 1,
        after_item.errors@.len() == before.errors@.len(),
        after_error.items_metadata@.len() == before.items_metadata@.len(),
        after_error.errors@.len() == before.errors@.len() + 1,
        after_error.errors@.len() > 0,
{
}

} // verus!
