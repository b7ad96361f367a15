//! STAC Catalog and its builder.

use vstd::prelude::*;
use crate::stac::models::{Link, is_json_link, json_link};
use crate::text::{IntoText, opt_text};

verus! {

/// STAC Catalog.
#[derive(Debug, Clone, PartialEq, Eq)]
pub struct StacCatalog {
    pub stac_version: String,
    pub stac_extensions: Vec<String>,
    /// Always `Catalog` (`type` in JSON).
    pub catalog_type: String,
    pub id: String,
    pub title: Option<String>,
    pub description: String,
    pub links: Vec<Link>,
}

/// The STAC version that catalogs are written with.
pub open spec fn catalog_stac_version() -> Seq<char> {
    "1.0.0"@
}

impl StacCatalog {
    /// An empty catalog with the given id and description.
    pub fn new<I: IntoText, D: IntoText>(id: I, description: D) -> (r: Self)
        ensures
            r.stac_version@ == catalog_stac_version(),
            r.stac_extensions@.len() == 0,
            r.catalog_type@ == "Catalog"@,
            r.id@ == id.text(),
            r.title is None,
            r.description@ == description.text(),
            r.links@.len() == 0,
    {
        StacCatalog {
            stac_version: "1.0.0".to_string(),
            stac_extensions: Vec::new(),
            catalog_type: "Catalog".to_string(),
            id: id.into_text(),
            title: None,
            description: description.into_text(),
            links: Vec::new(),
        }
    }
}

/// Builder for STAC Catalogs.
pub struct StacCatalogBuilder {
    catalog: StacCatalog,
}

impl StacCatalogBuilder {
    /// The catalog being built.
    pub closed spec fn catalog(&self) -> StacCatalog {
        self.catalog
    }

    /// A builder of an empty catalog with the given id and description.
    pub fn new<I: IntoText, D: IntoText>(id: I, description: D) -> (r: Self)
        ensures
            r.catalog().stac_version@ == catalog_stac_version(),
            r.catalog().stac_extensions@.len() == 0,
            r.catalog().catalog_type@ == "Catalog"@,
            r.catalog().id@ == id.text(),
            r.catalog().title is None,
            r.catalog().description@ == description.text(),
            r.catalog().links@.len() == 0,
    {
        StacCatalogBuilder { catalog: StacCatalog::new(id, description) }
    }

    /// Sets the title.
    pub fn title<T: IntoText>(self, title: T) -> (r: Self)
        ensures
            r.catalog() == (StacCatalog { title: r.catalog().title, ..self.catalog() }),
            opt_text(r.catalog().title) == Some(title.text()),
    {
        let mut s = self;
        s.catalog.title = Some(title.into_text());
        s
    }

    /// Appends a link.
    pub fn add_link(self, link: Link) -> (r: Self)
        ensures
            r.catalog() == (StacCatalog { links: r.catalog().links, ..self.catalog() }),
            r.catalog().links@ == self.catalog().links@.push(link),
    {
        let mut s = self;
        s.catalog.links.push(link);
        s
    }

    /// Appends a `child` link to the JSON document `href`, with the given
    /// title.
    pub fn child_link<H: IntoText>(self, href: H, title: Option<String>) -> (r: Self)
        ensures
            r.catalog() == (StacCatalog { links: r.catalog().links, ..self.catalog() }),
            r.catalog().links@.len() == self.catalog().links@.len() + 1,
            r.catalog().links@.drop_last() == self.catalog().links@,
            is_json_link(r.catalog().links@.last(), "child"@, href.text(), opt_text(title)),
    {
        let mut s = self;
        let link = json_link("child", href.into_text(), title);
        s.catalog.links.push(link);
        assert(s.catalog.links@.drop_last() =~= self.catalog().links@);
        s
    }

    /// Appends a `self` link to the JSON document `href`.
    pub fn self_link<H: IntoText>(self, href: H) -> (r: Self)
        ensures
            r.catalog() == (StacCatalog { links: r.catalog().links, ..self.catalog() }),
            r.catalog().links@.len() == self.catalog().links@.len() + 1,
            r.catalog().links@.drop_last() == self.catalog().links@,
            is_json_link(r.catalog().links@.last(), "self"@, href.text(), None),
    {
        let mut s = self;
        let link = json_link("self", href.into_text(), None);
        s.catalog.links.push(link);
        assert(s.catalog.links@.drop_last() =~= self.catalog().links@);
        s
    }

    /// Appends a `root` link to the JSON document `href`.
    pub fn root_link<H: IntoText>(self, href: H) -> (r: Self)
        ensures
            r.catalog() == (StacCatalog { links: r.catalog().links, ..self.catalog() }),
            r.catalog().links@.len() == self.catalog().links@.len() + 1,
            r.catalog().links@.drop_last() == self.catalog().links@,
            is_json_link(r.catalog().links@.last(), "root"@, href.text(), None),
    {
        let mut s = self;
        let link = json_link("root", href.into_text(), None);
        s.catalog.links.push(link);
        assert(s.catalog.links@.drop_last() =~= self.catalog().links@);
        s
    }

    /// The catalog.
    pub fn build(self) -> (r: StacCatalog)
        ensures
            r == self.catalog(),
    {
        self.catalog
    }
}

/// The catalog of the collections a catalog run generated: the given id,
/// description and title; a `child` link per collection (its href and
/// title), in order; then `self` and `root` links to `./catalog.json`.
pub fn catalog_of_collections(
    id: String,
    description: String,
    title: Option<String>,
    children: &Vec<(String, String)>,
) -> (r: StacCatalog)
    ensures
        r.stac_version@ == catalog_stac_version(),
        r.stac_extensions@.len() == 0,
        r.catalog_type@ == "Catalog"@,
        r.id@ == id@,
        r.description@ == description@,
        opt_text(r.title) == opt_text(title),
        r.links@.len() == children@.len() + 2,
        forall|i: int| 0 <= i < children@.len()
            ==> is_json_link(#[trigger] r.links@[i], "child"@, children@[i].0@, Some(children@[i].1@)),
        is_json_link(r.links@[children@.len() as int], "self"@, "./catalog.json"@, None),
        is_json_link(r.links@[children@.len() as int + 1], "root"@, "./catalog.json"@, None),
{
    let ghost title_text = opt_text(title);
    let mut b = StacCatalogBuilder::new(id, description);
    match title {
        Some(t) => {
            b = b.title(t);
        },
        None => {},
    }
    let mut i: usize = 0;
    while i < children.len()
        invariant
            i <= children@.len(),
            b.catalog().stac_version@ == catalog_stac_version(),
            b.catalog().stac_extensions@.len() == 0,
            b.catalog().catalog_type@ == "Catalog"@,
            b.catalog().id@ == id@,
            b.catalog().description@ == description@,
            opt_text(b.catalog().title) == title_text,
            b.catalog().links@.len() == i,
            forall|k: int| 0 <= k < i
                ==> is_json_link(#[trigger] b.catalog().links@[k], "child"@, children@[k].0@, Some(children@[k].1@)),
        decreases children.len() - i,
    {
        let ghost before = b.catalog().links@;
        let href = children[i].0.clone();
        let t = children[i].1.clone();
        b = b.child_link(href, Some(t));
        proof {
            assert forall|k: int| 0 <= k < i + 1 implies
                is_json_link(#[trigger] b.catalog().links@[k], "child"@, children@[k].0@, Some(children@[k].1@)) by {
                if k < i {
                    assert(b.catalog().links@[k] == b.catalog().links@.drop_last()[k]);
                }
            }
        }
        i += 1;
    }
    let ghost n = b.catalog().links@.len();
    let ghost before = b.catalog().links@;
    b = b.self_link("./catalog.json");
    let ghost mid = b.catalog().links@;
    b = b.root_link("./catalog.json");
    proof {
        assert forall|k: int| 0 <= k < children@.len() implies
            is_json_link(#[trigger] b.catalog().links@[k], "child"@, children@[k].0@, Some(children@[k].1@)) by {
            assert(b.catalog().links@[k] == mid[k]);
            assert(mid[k] == before[k]);
        }
        assert(b.catalog().links@[n as int] == mid[n as int]);
    }
    b.build()
}

} // verus!
