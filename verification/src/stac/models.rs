//! STAC data models: links, assets, checksums, providers, temporal extents
//! and city-object counts.

use vstd::prelude::*;
use crate::text::{IntoText, opt_text, texts};
use crate::json::JsonMember;

verus! {

/// City object count: a single number (an Item) or statistics over several
/// datasets (a Collection).
#[derive(Debug, Clone, Copy, PartialEq, Eq, Structural)]
pub enum CityObjectsCount {
    Integer(u64),
    Statistics { min: u64, max: u64, total: u64 },
}

impl From<u64> for CityObjectsCount {
    fn from(value: u64) -> (r: Self) {
        CityObjectsCount::Integer(value)
    }
}

impl vstd::std_specs::convert::FromSpecImpl<u64> for CityObjectsCount {
    open spec fn obeys_from_spec() -> bool {
        true
    }

    open spec fn from_spec(v: u64) -> Self {
        CityObjectsCount::Integer(v)
    }
}

impl From<(u64, u64, u64)> for CityObjectsCount {
    fn from(value: (u64, u64, u64)) -> (r: Self) {
        CityObjectsCount::Statistics { min: value.0, max: value.1, total: value.2 }
    }
}

impl vstd::std_specs::convert::FromSpecImpl<(u64, u64, u64)> for CityObjectsCount {
    open spec fn obeys_from_spec() -> bool {
        true
    }

    open spec fn from_spec(v: (u64, u64, u64)) -> Self {
        CityObjectsCount::Statistics { min: v.0, max: v.1, total: v.2 }
    }
}

/// STAC Link.
#[derive(Debug, Clone, PartialEq, Eq)]
pub struct Link {
    pub rel: String,
    pub href: String,
    /// Media type of the target (`type` in JSON).
    pub link_type: Option<String>,
    pub title: Option<String>,
}

impl Link {
    /// A link of relation `rel` to `href`, with no type and no title.
    pub fn new<R: IntoText, H: IntoText>(rel: R, href: H) -> (r: Self)
        ensures
            r.rel@ == rel.text(),
            r.href@ == href.text(),
            r.link_type is None,
            r.title is None,
    {
        Link { rel: rel.into_text(), href: href.into_text(), link_type: None, title: None }
    }

    /// The link with its media type set.
    pub fn with_type<T: IntoText>(self, link_type: T) -> (r: Self)
        ensures
            r.rel == self.rel,
            r.href == self.href,
            opt_text(r.link_type) == Some(link_type.text()),
            r.title == self.title,
    {
        let mut s = self;
        s.link_type = Some(link_type.into_text());
        s
    }

    /// The link with its title set.
    pub fn with_title<T: IntoText>(self, title: T) -> (r: Self)
        ensures
            r.rel == self.rel,
            r.href == self.href,
            r.link_type == self.link_type,
            opt_text(r.title) == Some(title.text()),
    {
        let mut s = self;
        s.title = Some(title.into_text());
        s
    }
}

/// A link to a JSON document: relation `rel`, target `href`, media type
/// `application/json`, and the given title.
pub open spec fn is_json_link(l: Link, rel: Seq<char>, href: Seq<char>, title: Option<Seq<char>>) -> bool {
    &&& l.rel@ == rel
    &&& l.href@ == href
    &&& opt_text(l.link_type) == Some("application/json"@)
    &&& opt_text(l.title) == title
}

/// A link of relation `rel` to the JSON document `href`.
pub fn json_link(rel: &str, href: String, title: Option<String>) -> (r: Link)
    ensures
        is_json_link(r, rel@, href@, opt_text(title)),
{
    let l = Link::new(rel, href).with_type("application/json");
    match title {
        Some(t) => l.with_title(t),
        None => l,
    }
}

/// File checksum (File Extension).
#[derive(Debug, Clone, PartialEq, Eq)]
pub struct Checksum {
    /// The multihash checksum value.
    pub value: String,
    /// The checksum algorithm namespace (e.g. "md5", "sha256").
    pub namespace: Option<String>,
}

/// STAC Asset, with the File Extension fields `file:size` and
/// `file:checksum`.
#[derive(Debug, Clone, PartialEq, Eq)]
pub struct Asset {
    pub href: String,
    /// Media type (`type` in JSON).
    pub media_type: Option<String>,
    pub title: Option<String>,
    pub description: Option<String>,
    pub roles: Option<Vec<String>>,
    /// Size of the file in bytes.
    pub file_size: Option<u64>,
    /// Checksum of the file.
    pub file_checksum: Option<Checksum>,
}

impl Asset {
    /// An asset at `href` with no other field set.
    pub fn new<H: IntoText>(href: H) -> (r: Self)
        ensures
            r.href@ == href.text(),
            r.media_type is None,
            r.title is None,
            r.description is None,
            r.roles is None,
            r.file_size is None,
            r.file_checksum is None,
    {
        Asset {
            href: href.into_text(),
            media_type: None,
            title: None,
            description: None,
            roles: None,
            file_size: None,
            file_checksum: None,
        }
    }

    /// The asset with its media type set.
    pub fn with_type<T: IntoText>(self, media_type: T) -> (r: Self)
        ensures
            r == (Asset { media_type: r.media_type, ..self }),
            opt_text(r.media_type) == Some(media_type.text()),
    {
        let mut s = self;
        s.media_type = Some(media_type.into_text());
        s
    }

    /// The asset with its title set.
    pub fn with_title<T: IntoText>(self, title: T) -> (r: Self)
        ensures
            r == (Asset { title: r.title, ..self }),
            opt_text(r.title) == Some(title.text()),
    {
        let mut s = self;
        s.title = Some(title.into_text());
        s
    }

    /// The asset with its roles set.
    pub fn with_roles(self, roles: Vec<String>) -> (r: Self)
        ensures
            r == (Asset { roles: Some(roles), ..self }),
    {
        let mut s = self;
        s.roles = Some(roles);
        s
    }

    /// The asset with its file size set (File Extension).
    pub fn with_file_size(self, size: u64) -> (r: Self)
        ensures
            r == (Asset { file_size: Some(size), ..self }),
    {
        let mut s = self;
        s.file_size = Some(size);
        s
    }

    /// The asset with its file checksum set (File Extension).
    pub fn with_file_checksum(self, checksum: Checksum) -> (r: Self)
        ensures
            r == (Asset { file_checksum: Some(checksum), ..self }),
    {
        let mut s = self;
        s.file_checksum = Some(checksum);
        s
    }
}

/// Temporal extent: a list of `[start, end]` intervals, each bound an RFC
/// 3339 date-time or open.
#[derive(Debug, Clone, PartialEq, Eq)]
pub struct TemporalExtent {
    pub interval: Vec<Vec<Option<String>>>,
}

/// A UTC date-time as RFC 3339 writes it: the date and time in full (at
/// least `YYYY-MM-DDTHH:MM:SS`, 19 characters) followed by the offset
/// `+00:00`.
pub open spec fn is_utc_timestamp(t: Seq<char>) -> bool {
    &&& t.len() >= 25
    &&& t.subrange(t.len() - 6, t.len() as int) == "+00:00"@
}

/// The current time in RFC 3339 format (`chrono::Utc::now().to_rfc3339()`).
/// It depends on the clock; what holds of every such text is that it is a
/// UTC date-time written out in full (see `is_utc_timestamp`).
#[verifier::external_body]
pub(crate) fn now_rfc3339() -> (r: String)
    ensures
        is_utc_timestamp(r@),
{
    chrono::Utc::now().to_rfc3339()
}

impl Default for TemporalExtent {
    /// One interval, open-ended, starting now (the current UTC date-time).
    fn default() -> (r: Self)
        ensures
            r.interval@.len() == 1,
            r.interval@[0]@.len() == 2,
            r.interval@[0]@[0] matches Some(start) && is_utc_timestamp(start@),
            r.interval@[0]@[1] is None,
    {
        let start = now_rfc3339();
        let first: Vec<Option<String>> = vec![Some(start), None];
        TemporalExtent { interval: vec![first] }
    }
}

/// Provider information.
#[derive(Debug, Clone, PartialEq, Eq)]
pub struct Provider {
    pub name: String,
    pub description: Option<String>,
    pub roles: Option<Vec<String>>,
    pub url: Option<String>,
}

/// The GeoParquet asset of a collection: `./items.parquet`, of type
/// `application/vnd.apache.parquet`, with the role `collection-mirror`.
pub fn make_geoparquet_asset() -> (r: Asset)
    ensures
        r.href@ == "./items.parquet"@,
        opt_text(r.media_type) == Some("application/vnd.apache.parquet"@),
        r.roles matches Some(roles) && texts(roles@) == seq!["collection-mirror"@],
        r.title is None,
        r.description is None,
        r.file_size is None,
        r.file_checksum is None,
{
    let roles: Vec<String> = vec!["collection-mirror".to_string()];
    assert(texts(roles@) =~= seq!["collection-mirror"@]);
    Asset::new("./items.parquet").with_type("application/vnd.apache.parquet").with_roles(roles)
}


/// Spatial extent: bounding boxes, each of type `B`, which the library
/// carries without reading.
#[derive(Debug, Clone)]
pub struct SpatialExtent<B> {
    pub bbox: Vec<B>,
}

/// STAC Extent: where and when.
#[derive(Debug, Clone)]
pub struct Extent<B> {
    pub spatial: SpatialExtent<B>,
    pub temporal: TemporalExtent,
}

impl<B> Default for Extent<B> {
    /// No bounding box; one open interval starting now.
    fn default() -> (r: Self)
        ensures
            r.spatial.bbox@.len() == 0,
            r.temporal.interval@.len() == 1,
            r.temporal.interval@[0]@.len() == 2,
            r.temporal.interval@[0]@[0] matches Some(start) && is_utc_timestamp(start@),
            r.temporal.interval@[0]@[1] is None,
    {
        Extent { spatial: SpatialExtent { bbox: Vec::new() }, temporal: TemporalExtent::default() }
    }
}

/// STAC Item. `B` is the bounding box and `G` the geometry, both carried
/// without being read.
#[derive(Debug, Clone)]
pub struct StacItem<B, G> {
    pub stac_version: String,
    pub stac_extensions: Vec<String>,
    /// Always `Feature` (`type` in JSON).
    pub item_type: String,
    pub id: String,
    pub bbox: Option<B>,
    pub geometry: Option<G>,
    pub properties: Vec<JsonMember>,
    pub assets: Vec<(String, Asset)>,
    pub links: Vec<Link>,
}

/// STAC Collection. `B` is the type of its bounding boxes.
#[derive(Debug, Clone)]
pub struct StacCollection<B> {
    pub stac_version: String,
    pub stac_extensions: Vec<String>,
    /// Always `Collection` (`type` in JSON).
    pub collection_type: String,
    pub id: String,
    pub title: Option<String>,
    pub description: Option<String>,
    pub license: String,
    pub keywords: Option<Vec<String>>,
    pub providers: Option<Vec<Provider>>,
    pub extent: Extent<B>,
    pub summaries: Option<Vec<JsonMember>>,
    pub links: Vec<Link>,
    pub assets: Option<Vec<(String, Asset)>>,
    pub item_assets: Option<Vec<JsonMember>>,
}

} // verus!
