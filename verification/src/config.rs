//! Collection configuration (as read from a YAML file) and how command-line
//! arguments override it.

use vstd::prelude::*;
use crate::stac::models::Provider;
use crate::text::{opt_text, texts};

verus! {

/// Provider configuration.
#[derive(Debug, Clone, PartialEq, Eq)]
pub struct ProviderConfig {
    /// Provider name.
    pub name: String,
    /// Provider URL.
    pub url: Option<String>,
    /// Provider roles (producer, licensor, processor, host).
    pub roles: Option<Vec<String>>,
    /// Provider description.
    pub description: Option<String>,
}

impl From<ProviderConfig> for Provider {
    /// The provider with the configured name, description, roles and URL.
    fn from(config: ProviderConfig) -> (r: Provider) {
        Provider { name: config.name, description: config.description, roles: config.roles, url: config.url }
    }
}

impl vstd::std_specs::convert::FromSpecImpl<ProviderConfig> for Provider {
    open spec fn obeys_from_spec() -> bool {
        true
    }

    open spec fn from_spec(v: ProviderConfig) -> Provider {
        Provider { name: v.name, description: v.description, roles: v.roles, url: v.url }
    }
}

/// Temporal extent configuration.
#[derive(Debug, Clone, PartialEq, Eq)]
pub struct TemporalExtentConfig {
    /// Start date-time (RFC 3339).
    pub start: Option<String>,
    /// End date-time (RFC 3339); none for an open end.
    pub end: Option<String>,
}

/// Link configuration.
#[derive(Debug, Clone, PartialEq, Eq)]
pub struct LinkConfig {
    /// Link relation type.
    pub rel: String,
    /// Link href.
    pub href: String,
    /// Link media type (`type` in YAML).
    pub link_type: Option<String>,
    /// Link title.
    pub title: Option<String>,
}

/// Command-line arguments that override the configuration.
#[derive(Debug, Clone, PartialEq, Eq)]
pub struct CollectionCliArgs {
    pub id: Option<String>,
    pub title: Option<String>,
    pub description: Option<String>,
    pub license: Option<String>,
}

impl Default for CollectionCliArgs {
    /// No overrides.
    fn default() -> (r: Self)
        ensures
            r.id is None,
            r.title is None,
            r.description is None,
            r.license is None,
    {
        CollectionCliArgs { id: None, title: None, description: None, license: None }
    }
}

/// Collection configuration. The spatial and temporal extent (`Extent`) and
/// the custom summaries (`Summaries`) are carried as they were read.
#[derive(Debug)]
pub struct CollectionConfigFile<Extent, Summaries> {
    /// Collection ID.
    pub id: Option<String>,
    /// Collection title.
    pub title: Option<String>,
    /// Collection description.
    pub description: Option<String>,
    /// Data license (SPDX identifier).
    pub license: Option<String>,
    /// Keywords.
    pub keywords: Option<Vec<String>>,
    /// Providers.
    pub providers: Option<Vec<ProviderConfig>>,
    /// Custom extent (overrides the detected one).
    pub extent: Option<Extent>,
    /// Custom summaries (merged with the detected ones).
    pub summaries: Option<Summaries>,
    /// Links to add.
    pub links: Option<Vec<LinkConfig>>,
    /// Input paths (files, directories or glob patterns).
    pub inputs: Option<Vec<String>>,
}

impl<Extent, Summaries> Default for CollectionConfigFile<Extent, Summaries> {
    /// An empty configuration.
    fn default() -> (r: Self)
        ensures
            r.id is None,
            r.title is None,
            r.description is None,
            r.license is None,
            r.keywords is None,
            r.providers is None,
            r.extent is None,
            r.summaries is None,
            r.links is None,
            r.inputs is None,
    {
        CollectionConfigFile {
            id: None,
            title: None,
            description: None,
            license: None,
            keywords: None,
            providers: None,
            extent: None,
            summaries: None,
            links: None,
            inputs: None,
        }
    }
}

/// The value the command line gives, if any, else the configured one.
pub open spec fn overridden(cli: Option<String>, file: Option<String>) -> Option<Seq<char>> {
    match cli {
        Some(c) => Some(c@),
        None => opt_text(file),
    }
}

/// The command-line value when there is one, else the configured value.
fn prefer_cli(cli: &Option<String>, file: Option<String>) -> (r: Option<String>)
    ensures
        opt_text(r) == overridden(*cli, file),
{
    match cli {
        Some(c) => Some(c.clone()),
        None => file,
    }
}

impl<Extent, Summaries> CollectionConfigFile<Extent, Summaries> {
    /// The configuration with the command line's ID, title, description and
    /// license taking precedence over the configured ones; everything else
    /// is kept.
    pub fn merge_with_cli(self, cli_args: &CollectionCliArgs) -> (r: Self)
        ensures
            opt_text(r.id) == overridden(cli_args.id, self.id),
            opt_text(r.title) == overridden(cli_args.title, self.title),
            opt_text(r.description) == overridden(cli_args.description, self.description),
            opt_text(r.license) == overridden(cli_args.license, self.license),
            r.keywords == self.keywords,
            r.providers == self.providers,
            r.extent == self.extent,
            r.summaries == self.summaries,
            r.links == self.links,
            r.inputs == self.inputs,
    {
        CollectionConfigFile {
            id: prefer_cli(&cli_args.id, self.id),
            title: prefer_cli(&cli_args.title, self.title),
            description: prefer_cli(&cli_args.description, self.description),
            license: prefer_cli(&cli_args.license, self.license),
            keywords: self.keywords,
            providers: self.providers,
            extent: self.extent,
            summaries: self.summaries,
            links: self.links,
            inputs: self.inputs,
        }
    }
}

/// Merging with a command line that overrides nothing keeps the
/// configuration's ID, title, description and license.
pub proof fn lemma_merge_without_overrides(file: Option<String>)
    ensures
        overridden(None, file) == opt_text(file),
{
}

/// A value the command line gives always wins, whatever is configured.
pub proof fn lemma_cli_takes_precedence(cli: String, file: Option<String>)
    ensures
        overridden(Some(cli), file) == Some(cli@),
{
}

/// Merging with the same command line twice gives what merging once gave.
pub proof fn lemma_merge_idempotent(cli: Option<String>, file: Option<String>, merged: Option<String>)
    requires
        opt_text(merged) == overridden(cli, file),
    ensures
        overridden(cli, merged) == overridden(cli, file),
{
}

/// Catalog configuration.
#[derive(Debug, Clone, PartialEq, Eq)]
pub struct CatalogConfigFile {
    /// Catalog ID.
    pub id: Option<String>,
    /// Catalog title.
    pub title: Option<String>,
    /// Catalog description.
    pub description: Option<String>,
    /// Base URL for the catalog's child links.
    pub base_url: Option<String>,
    /// The collections of the catalog: directories, or collection
    /// configuration files, relative to the configuration file.
    pub collections: Option<Vec<String>>,
}

/// Command-line arguments that override the catalog configuration.
#[derive(Debug, Clone, PartialEq, Eq)]
pub struct CatalogCliArgs {
    pub id: Option<String>,
    pub title: Option<String>,
    pub description: Option<String>,
    pub base_url: Option<String>,
}

impl Default for CatalogConfigFile {
    /// An empty configuration.
    fn default() -> (r: Self)
        ensures
            r.id is None,
            r.title is None,
            r.description is None,
            r.base_url is None,
            r.collections is None,
    {
        CatalogConfigFile { id: None, title: None, description: None, base_url: None, collections: None }
    }
}

/// The character is white space: it has Unicode's White_Space property,
/// which the characters U+0009 to U+000D, U+0020, U+0085, U+00A0, U+1680,
/// U+2000 to U+200A, U+2028, U+2029, U+202F, U+205F and U+3000 have (what
/// `char::is_whitespace` answers).
pub open spec fn char_is_whitespace(c: char) -> bool {
    ||| '\u{9}' <= c && c <= '\u{d}'
    ||| c == ' '
    ||| c == '\u{85}'
    ||| c == '\u{a0}'
    ||| c == '\u{1680}'
    ||| '\u{2000}' <= c && c <= '\u{200a}'
    ||| c == '\u{2028}'
    ||| c == '\u{2029}'
    ||| c == '\u{202f}'
    ||| c == '\u{205f}'
    ||| c == '\u{3000}'
}

/// Whether the character is white space (see `char_is_whitespace`).
fn is_whitespace(c: char) -> (r: bool)
    ensures
        r == char_is_whitespace(c),
{
    ('\u{9}' <= c && c <= '\u{d}')
        || c == ' '
        || c == '\u{85}'
        || c == '\u{a0}'
        || c == '\u{1680}'
        || ('\u{2000}' <= c && c <= '\u{200a}')
        || c == '\u{2028}'
        || c == '\u{2029}'
        || c == '\u{202f}'
        || c == '\u{205f}'
        || c == '\u{3000}'
}

/// Every character of `s` is white space (so `s` trims to nothing).
pub open spec fn is_blank(s: Seq<char>) -> bool {
    forall|i: int| 0 <= i < s.len() ==> char_is_whitespace(#[trigger] s[i])
}

/// A configured text that is absent or blank.
pub open spec fn is_missing(o: Option<String>) -> bool {
    match o {
        Some(s) => is_blank(s@),
        None => true,
    }
}

/// Whether a configured text is absent or blank.
pub fn is_missing_text(o: &Option<String>) -> (r: bool)
    ensures
        r == is_missing(*o),
{
    match o {
        None => true,
        Some(s) => {
            let v = crate::text::chars_of(s.as_str());
            let mut i: usize = 0;
            while i < v.len()
                invariant
                    i <= v@.len(),
                    v@ == s@,
                    *o == Some(*s),
                    forall|k: int| 0 <= k < i ==> char_is_whitespace(#[trigger] s@[k]),
                decreases v.len() - i,
            {
                if !is_whitespace(v[i]) {
                    assert(!char_is_whitespace(s@[i as int]));
                    assert(!is_blank(s@));
                    return false;
                }
                i += 1;
            }
            assert(is_blank(s@));
            true
        },
    }
}

/// The problems a catalog configuration is reported with, in order: a
/// missing ID, then a missing title, then a missing description.
pub open spec fn catalog_problems(c: CatalogConfigFile) -> Seq<Seq<char>> {
    let a: Seq<Seq<char>> = if is_missing(c.id) { seq!["Missing required field: 'id'"@] } else { seq![] };
    let b: Seq<Seq<char>> = if is_missing(c.title) { seq!["Missing recommended field: 'title'"@] } else { seq![] };
    let d: Seq<Seq<char>> = if is_missing(c.description) { seq!["Missing recommended field: 'description'"@] } else { seq![] };
    a + b + d
}

impl CatalogConfigFile {
    /// The configuration with the command line's ID, title, description and
    /// base URL taking precedence over the configured ones; the collections
    /// are kept.
    pub fn merge_with_cli(self, cli_args: &CatalogCliArgs) -> (r: Self)
        ensures
            opt_text(r.id) == overridden(cli_args.id, self.id),
            opt_text(r.title) == overridden(cli_args.title, self.title),
            opt_text(r.description) == overridden(cli_args.description, self.description),
            opt_text(r.base_url) == overridden(cli_args.base_url, self.base_url),
            r.collections == self.collections,
    {
        CatalogConfigFile {
            id: prefer_cli(&cli_args.id, self.id),
            title: prefer_cli(&cli_args.title, self.title),
            description: prefer_cli(&cli_args.description, self.description),
            base_url: prefer_cli(&cli_args.base_url, self.base_url),
            collections: self.collections,
        }
    }

    /// What a dry run reports of the configuration: the ID is required, the
    /// title and description recommended; each that is absent or blank is
    /// one message.
    pub fn problems(&self) -> (r: Vec<String>)
        ensures
            texts(r@) == catalog_problems(*self),
    {
        let mut out: Vec<String> = Vec::new();
        if is_missing_text(&self.id) {
            out.push("Missing required field: 'id'".to_string());
        }
        if is_missing_text(&self.title) {
            out.push("Missing recommended field: 'title'".to_string());
        }
        if is_missing_text(&self.description) {
            out.push("Missing recommended field: 'description'".to_string());
        }
        assert(texts(out@) =~= catalog_problems(*self));
        out
    }
}

} // verus!
