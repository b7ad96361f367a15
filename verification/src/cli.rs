//! The naming rules of the command-line workflows: folder names for
//! collections in a catalog, item IDs and file names, asset and link hrefs,
//! and which inputs share a file stem.

use vstd::prelude::*;
use crate::error::CityJsonStacError;
use crate::path::{extension, extension_exec, file_name, file_name_exec, file_stem, file_stem_exec, with_extension, with_extension_exec};
use crate::text::{
    after_last, after_last_exec, before_first, before_first_exec, chars_of, concat, ends_with, ends_with_exec,
    same_chars, slice_of, string_of, texts,
};

verus! {

// ---------------------------------------------------------------------------
// Folder names
// ---------------------------------------------------------------------------

/// The character is alphanumeric as `char::is_alphanumeric` says (Unicode's
/// Alphabetic or Numeric property).
pub uninterp spec fn char_is_alphanumeric(c: char) -> bool;

/// An ASCII letter or digit.
pub open spec fn is_ascii_alphanumeric(c: char) -> bool {
    ||| 'a' <= c && c <= 'z'
    ||| 'A' <= c && c <= 'Z'
    ||| '0' <= c && c <= '9'
}

/// A letter of which Unicode's Alphabetic property is known here: the
/// Latin-1 letters (U+00C0 to U+00FF but for U+00D7 and U+00F7) and the
/// CJK unified ideographs (U+4E00 to U+9FFF).
pub open spec fn is_known_letter(c: char) -> bool {
    ||| '\u{c0}' <= c && c <= '\u{ff}' && c != '\u{d7}' && c != '\u{f7}'
    ||| '\u{4e00}' <= c && c <= '\u{9fff}'
}

/// Whether the character is alphanumeric: among ASCII characters exactly
/// the letters and digits are; the known letters are; of other characters
/// Unicode's properties decide.
pub open spec fn alphanumeric(c: char) -> bool {
    if (c as u32) < 128 {
        is_ascii_alphanumeric(c)
    } else if is_known_letter(c) {
        true
    } else {
        char_is_alphanumeric(c)
    }
}

/// `char::is_alphanumeric`. Its result is named by `char_is_alphanumeric`;
/// the Unicode property tables are not written out, except that among
/// ASCII characters exactly the letters and digits are alphanumeric, and
/// that the Latin-1 letters and CJK unified ideographs are.
#[verifier::external_body]
fn is_alphanumeric(c: char) -> (r: bool)
    ensures
        r == char_is_alphanumeric(c),
        (c as u32) < 128 ==> (r <==> is_ascii_alphanumeric(c)),
        is_known_letter(c) ==> r,
{
    c.is_alphanumeric()
}

/// A character that may stay in a folder name: alphanumeric, `-`, `_` or
/// `.`.
pub open spec fn is_folder_char(c: char) -> bool {
    alphanumeric(c) || c == '-' || c == '_' || c == '.'
}

/// `s` with every character that may not stay in a folder name replaced by
/// `_`.
pub open spec fn sanitized(s: Seq<char>) -> Seq<char> {
    s.map_values(|c: char| if is_folder_char(c) { c } else { '_' })
}

/// The name made safe as a folder name: every character other than
/// alphanumerics, `-`, `_` and `.` becomes `_`.
pub fn sanitize_folder_name(name: &str) -> (r: String)
    ensures
        r@ == sanitized(name@),
{
    let v = chars_of(name);
    let mut out: Vec<char> = Vec::new();
    let mut i: usize = 0;
    while i < v.len()
        invariant
            i <= v@.len(),
            out@ == sanitized(v@.subrange(0, i as int)),
        decreases v.len() - i,
    {
        let c = v[i];
        let keep = is_alphanumeric(c) || c == '-' || c == '_' || c == '.';
        out.push(if keep { c } else { '_' });
        assert(sanitized(v@.subrange(0, i + 1)) =~= sanitized(v@.subrange(0, i as int)).push(
            if is_folder_char(c) { c } else { '_' },
        ));
        i += 1;
    }
    assert(v@.subrange(0, v@.len() as int) =~= v@);
    string_of(out.as_slice())
}

/// Sanitizing is idempotent: a sanitized name is left as it is.
pub proof fn lemma_sanitize_idempotent(s: Seq<char>)
    ensures
        sanitized(sanitized(s)) == sanitized(s),
{
    let t = sanitized(s);
    assert forall|i: int| 0 <= i < t.len() implies is_folder_char(#[trigger] t[i]) by {
        let c = s[i];
        if !is_folder_char(c) {
            assert(t[i] == '_');
        }
    }
    assert(sanitized(t) =~= t);
}

/// The folder name taken from a path: its final component's name, or
/// `collection` when it has none.
pub open spec fn folder_name_of(path: Seq<char>) -> Seq<char> {
    match file_name(path) {
        Some(n) => n,
        None => "collection"@,
    }
}

/// The name of the path's final component, or `collection` when it has
/// none.
pub fn fallback_folder_name(path_str: &str) -> (r: String)
    ensures
        r@ == folder_name_of(path_str@),
{
    let v = chars_of(path_str);
    match file_name_exec(v.as_slice()) {
        Some(n) => string_of(n.as_slice()),
        None => "collection".to_string(),
    }
}

// ---------------------------------------------------------------------------
// Items
// ---------------------------------------------------------------------------

/// The suffix that tells apart items of the same stem in different formats.
pub open spec fn format_suffix(encoding: Seq<char>) -> Seq<char> {
    if encoding == "CityJSON"@ {
        "_cj"@
    } else if encoding == "CityJSONSeq"@ {
        "_cjseq"@
    } else if encoding == "FlatCityBuf"@ {
        "_fcb"@
    } else {
        ""@
    }
}

/// Whether `v` is the text `lit`.
fn is_text(v: &str, lit: &str) -> (r: bool)
    ensures
        r == (v@ == lit@),
{
    let a = chars_of(v);
    let b = chars_of(lit);
    same_chars(a.as_slice(), b.as_slice())
}

/// The ID suffix for an encoding: `_cj` for CityJSON, `_cjseq` for
/// CityJSONSeq, `_fcb` for FlatCityBuf, none otherwise.
pub fn encoding_suffix(encoding: &str) -> (r: &'static str)
    ensures
        r@ == format_suffix(encoding@),
{
    if is_text(encoding, "CityJSON") {
        "_cj"
    } else if is_text(encoding, "CityJSONSeq") {
        "_cjseq"
    } else if is_text(encoding, "FlatCityBuf") {
        "_fcb"
    } else {
        ""
    }
}

/// The media type of a data asset in an encoding.
pub open spec fn encoding_media_type(encoding: Seq<char>) -> Seq<char> {
    if encoding == "CityJSON"@ {
        "application/json"@
    } else if encoding == "CityJSONSeq"@ {
        "application/json-seq"@
    } else {
        "application/octet-stream"@
    }
}

/// The media type of a data file in an encoding: `application/json` for
/// CityJSON, `application/json-seq` for CityJSONSeq, and
/// `application/octet-stream` for everything else.
pub fn media_type_for_encoding(encoding: &str) -> (r: &'static str)
    ensures
        r@ == encoding_media_type(encoding@),
{
    if is_text(encoding, "CityJSON") {
        "application/json"
    } else if is_text(encoding, "CityJSONSeq") {
        "application/json-seq"
    } else {
        "application/octet-stream"
    }
}

/// The stem an item ID is made from: the path's file stem, or `unknown`.
pub open spec fn stem_of(path: Seq<char>) -> Seq<char> {
    match file_stem(path) {
        Some(s) => s,
        None => "unknown"@,
    }
}

/// The file stem of a path, or `unknown` when it has none.
pub fn item_stem(path: &str) -> (r: String)
    ensures
        r@ == stem_of(path@),
{
    let v = chars_of(path);
    match file_stem_exec(v.as_slice()) {
        Some(s) => string_of(s.as_slice()),
        None => "unknown".to_string(),
    }
}

/// The ID of the item for a file: its stem, followed by the format suffix
/// when another input has the same stem.
pub fn item_id(stem: &str, encoding: &str, has_collision: bool) -> (r: String)
    ensures
        r@ == if has_collision {
            stem@ + format_suffix(encoding@)
        } else {
            stem@
        },
{
    if has_collision {
        let a = chars_of(stem);
        let b = chars_of(encoding_suffix(encoding));
        let all = concat(a.as_slice(), b.as_slice());
        string_of(all.as_slice())
    } else {
        stem.to_string()
    }
}

/// The name of an item's JSON file: `<id>_item.json`.
pub fn item_file_name(id: &str) -> (r: String)
    ensures
        r@ == id@ + "_item.json"@,
{
    let all = concat(chars_of(id).as_slice(), chars_of("_item.json").as_slice());
    string_of(all.as_slice())
}

/// The href of an item file from its collection: `./items/<file name>`.
pub fn item_href(item_file_name: &str) -> (r: String)
    ensures
        r@ == "./items/"@ + item_file_name@,
{
    let all = concat(chars_of("./items/").as_slice(), chars_of(item_file_name).as_slice());
    string_of(all.as_slice())
}

/// How many of the stems equal `stem`.
pub open spec fn stem_count(stems: Seq<Seq<char>>, stem: Seq<char>) -> nat
    decreases stems.len(),
{
    if stems.len() == 0 {
        0
    } else {
        stem_count(stems.drop_last(), stem) + if stems.last() == stem {
            1nat
        } else {
            0nat
        }
    }
}

/// Whether more than one of the inputs has the stem `stem`.
pub fn has_stem_collision(stems: &Vec<String>, stem: &str) -> (r: bool)
    ensures
        r == (stem_count(texts(stems@), stem@) > 1),
{
    let s = chars_of(stem);
    let mut count: usize = 0;
    let mut i: usize = 0;
    assert(texts(stems@).subrange(0, 0) =~= Seq::<Seq<char>>::empty());
    while i < stems.len()
        invariant
            i <= stems@.len(),
            count == stem_count(texts(stems@).subrange(0, i as int), stem@),
            count <= i,
            s@ == stem@,
        decreases stems.len() - i,
    {
        let x = chars_of(stems[i].as_str());
        assert(texts(stems@).subrange(0, i + 1).drop_last() =~= texts(stems@).subrange(0, i as int));
        assert(texts(stems@)[i as int] == stems@[i as int]@);
        assert(texts(stems@).subrange(0, i + 1).last() == x@);
        assert(stem_count(texts(stems@).subrange(0, i + 1), stem@) == stem_count(texts(stems@).subrange(0, i as int), stem@)
            + if x@ == stem@ { 1nat } else { 0nat });
        if same_chars(x.as_slice(), s.as_slice()) {
            count += 1;
        }
        i += 1;
    }
    assert(texts(stems@).subrange(0, stems@.len() as int) =~= texts(stems@));
    count > 1
}

// ---------------------------------------------------------------------------
// Hrefs
// ---------------------------------------------------------------------------

/// A base URL ending with `/`: the URL itself when it does, the URL with `/`
/// appended otherwise.
pub open spec fn with_trailing_slash(base: Seq<char>) -> Seq<char> {
    if ends_with(base, "/"@) {
        base
    } else {
        base + "/"@
    }
}

/// The base URL ending with `/`.
pub fn normalize_base_url(base: &str) -> (r: String)
    ensures
        r@ == with_trailing_slash(base@),
{
    let v = chars_of(base);
    if ends_with_exec(v.as_slice(), chars_of("/").as_slice()) {
        base.to_string()
    } else {
        let all = concat(v.as_slice(), chars_of("/").as_slice());
        string_of(all.as_slice())
    }
}

/// The href of a file: the file name under the base URL (made to end with
/// `/`) when there is one, the bare file name otherwise.
pub open spec fn spec_asset_href(base_url: Option<Seq<char>>, name: Seq<char>) -> Seq<char> {
    match base_url {
        Some(base) => with_trailing_slash(base) + name,
        None => name,
    }
}

/// The href of a data file `name`, absolute under `base_url` when one is
/// given, relative (the bare name) otherwise.
pub fn asset_href(base_url: Option<&str>, name: &str) -> (r: String)
    ensures
        r@ == spec_asset_href(match base_url {
            Some(b) => Some(b@),
            None => None,
        }, name@),
{
    match base_url {
        Some(base) => {
            let b = normalize_base_url(base);
            let all = concat(chars_of(b.as_str()).as_slice(), chars_of(name).as_slice());
            string_of(all.as_slice())
        },
        None => name.to_string(),
    }
}

/// The name of the file a data asset points to: the path's final component,
/// or `data`.
pub open spec fn data_file_name_of(path: Seq<char>) -> Seq<char> {
    match file_name(path) {
        Some(n) => n,
        None => "data"@,
    }
}

/// The name of the file a data asset points to.
pub fn data_file_name(path: &str) -> (r: String)
    ensures
        r@ == data_file_name_of(path@),
{
    let v = chars_of(path);
    match file_name_exec(v.as_slice()) {
        Some(n) => string_of(n.as_slice()),
        None => "data".to_string(),
    }
}

/// The href of a collection in a catalog: `<base>/<folder>/collection.json`
/// under the catalog's base URL (made to end with `/`), or
/// `./<folder>/collection.json` without one.
pub fn catalog_child_href(base_url: Option<&str>, folder: &str) -> (r: String)
    ensures
        r@ == match base_url {
            Some(b) => with_trailing_slash(b@) + folder@ + "/collection.json"@,
            None => "./"@ + folder@ + "/collection.json"@,
        },
{
    let head = match base_url {
        Some(b) => normalize_base_url(b),
        None => "./".to_string(),
    };
    let a = concat(chars_of(head.as_str()).as_slice(), chars_of(folder).as_slice());
    let all = concat(a.as_slice(), chars_of("/collection.json").as_slice());
    string_of(all.as_slice())
}

/// The base URL of a collection's assets in a catalog: the catalog's base
/// URL followed by the collection's folder and `/`.
pub fn collection_base_url(catalog_base: Option<&str>, folder: &str) -> (r: Option<String>)
    ensures
        match catalog_base {
            Some(b) => r matches Some(u) && u@ == b@ + folder@ + "/"@,
            None => r is None,
        },
{
    match catalog_base {
        Some(b) => {
            let a = concat(chars_of(b).as_slice(), chars_of(folder).as_slice());
            let all = concat(a.as_slice(), chars_of("/").as_slice());
            Some(string_of(all.as_slice()))
        },
        None => None,
    }
}

/// The href of an item file in a collection built from existing items: the
/// item's file name under the items' base URL (made to end with `/`), or
/// `./<file name>` without one.
pub fn item_link_href(items_base_url: Option<&str>, item_file: &str) -> (r: String)
    ensures
        r@ == match items_base_url {
            Some(b) => with_trailing_slash(b@) + item_file@,
            None => "./"@ + item_file@,
        },
{
    let head = match items_base_url {
        Some(b) => normalize_base_url(b),
        None => "./".to_string(),
    };
    let all = concat(chars_of(head.as_str()).as_slice(), chars_of(item_file).as_slice());
    string_of(all.as_slice())
}

/// The license a command line gives a collection: none when it is the
/// default `proprietary`, so that a configured license is kept.
pub fn cli_license_override(license: &str) -> (r: Option<String>)
    ensures
        if license@ == "proprietary"@ {
            r is None
        } else {
            r matches Some(l) && l@ == license@
        },
{
    if is_text(license, "proprietary") {
        None
    } else {
        Some(license.to_string())
    }
}


// ---------------------------------------------------------------------------
// Output files and default names
// ---------------------------------------------------------------------------

/// The item file written next to a local input: the input's path with its
/// extension replaced by `item.json`.
pub fn local_item_output(path: &str) -> (r: String)
    ensures
        r@ == with_extension(path@, "item.json"@),
{
    let v = chars_of(path);
    let e = chars_of("item.json");
    string_of(with_extension_exec(v.as_slice(), e.as_slice()).as_slice())
}

/// `s` without every trailing repetition of `p` (`str::trim_end_matches`).
pub open spec fn trim_end_all(s: Seq<char>, p: Seq<char>) -> Seq<char>
    decreases s.len(),
{
    if p.len() > 0 && ends_with(s, p) {
        trim_end_all(s.subrange(0, s.len() - p.len()), p)
    } else {
        s
    }
}

/// The item file written for a remote input: the URL's last segment,
/// without its query and without trailing `.json`s, followed by `.json`.
pub open spec fn remote_item_name(url: Seq<char>) -> Seq<char> {
    trim_end_all(before_first(after_last(url, '/'), '?'), ".json"@) + ".json"@
}

/// The name of the item file written for a remote input.
pub fn remote_item_output(url: &str) -> (r: String)
    ensures
        r@ == remote_item_name(url@),
{
    let v = chars_of(url);
    let seg = after_last_exec(v.as_slice(), '/');
    let mut name = before_first_exec(seg.as_slice(), '?');
    let suffix = chars_of(".json");
    proof {
        reveal_strlit(".json");
    }
    let ghost start = name@;
    assert(trim_end_all(start, ".json"@) == trim_end_all(name@, ".json"@));
    while ends_with_exec(name.as_slice(), suffix.as_slice())
        invariant
            suffix@ == ".json"@,
            suffix@.len() == 5,
            trim_end_all(start, ".json"@) == trim_end_all(name@, ".json"@),
        decreases name@.len(),
    {
        let cut = name.len() - suffix.len();
        name = slice_of(name.as_slice(), 0, cut);
    }
    let all = concat(name.as_slice(), suffix.as_slice());
    string_of(all.as_slice())
}

/// The id of a collection: the configured one, else the name of the first
/// input's final component, else `collection`.
pub fn collection_id_for(configured: Option<String>, first_input: Option<&str>) -> (r: String)
    ensures
        r@ == match configured {
            Some(id) => id@,
            None => match first_input {
                Some(p) => folder_name_of(p@),
                None => "collection"@,
            },
        },
{
    match configured {
        Some(id) => id,
        None => match first_input {
            Some(p) => fallback_folder_name(p),
            None => "collection".to_string(),
        },
    }
}

/// The id of a collection built from existing items: the configured one,
/// else the stem of its output file, else `collection`.
pub fn aggregate_collection_id(configured: Option<String>, output: &str) -> (r: String)
    ensures
        r@ == match configured {
            Some(id) => id@,
            None => match file_stem(output@) {
                Some(s) => s,
                None => "collection"@,
            },
        },
{
    match configured {
        Some(id) => id,
        None => match file_stem_exec(chars_of(output).as_slice()) {
            Some(s) => string_of(s.as_slice()),
            None => "collection".to_string(),
        },
    }
}

/// The id of a catalog: the configured one, else the name of its output
/// directory, else `catalog`.
pub fn catalog_id_for(configured: Option<String>, output_dir: &str) -> (r: String)
    ensures
        r@ == match configured {
            Some(id) => id@,
            None => match file_name(output_dir@) {
                Some(n) => n,
                None => "catalog"@,
            },
        },
{
    match configured {
        Some(id) => id,
        None => match file_name_exec(chars_of(output_dir).as_slice()) {
            Some(n) => string_of(n.as_slice()),
            None => "catalog".to_string(),
        },
    }
}

/// The description of a catalog: the configured one, else `Root catalog`.
pub fn catalog_description(configured: Option<String>) -> (r: String)
    ensures
        r@ == match configured {
            Some(d) => d@,
            None => "Root catalog"@,
        },
{
    match configured {
        Some(d) => d,
        None => "Root catalog".to_string(),
    }
}

/// The file an item link points to: the item file's name, else
/// `<item id>.json`.
pub fn linked_item_file(item_path: &str, item_id: &str) -> (r: String)
    ensures
        r@ == match file_name(item_path@) {
            Some(n) => n,
            None => item_id@ + ".json"@,
        },
{
    match file_name_exec(chars_of(item_path).as_slice()) {
        Some(n) => string_of(n.as_slice()),
        None => {
            let all = concat(chars_of(item_id).as_slice(), chars_of(".json").as_slice());
            string_of(all.as_slice())
        },
    }
}

/// A collection configuration file: its extension is `toml`, `yaml` or
/// `yml`.
pub open spec fn is_config_extension(e: Seq<char>) -> bool {
    e == "toml"@ || e == "yaml"@ || e == "yml"@
}

/// Whether the path names a collection configuration file.
pub fn is_config_file(path: &str) -> (r: bool)
    ensures
        r == match extension(path@) {
            Some(e) => is_config_extension(e),
            None => false,
        },
{
    match extension_exec(chars_of(path).as_slice()) {
        Some(e) => {
            let t = string_of(e.as_slice());
            is_text(t.as_str(), "toml") || is_text(t.as_str(), "yaml") || is_text(t.as_str(), "yml")
        },
        None => false,
    }
}

/// The folder of a collection configured by a file in a catalog: its id
/// made safe as a folder name, else the file's name.
pub fn config_folder_name(path: &str, configured_id: Option<String>) -> (r: String)
    ensures
        r@ == match configured_id {
            Some(id) => sanitized(id@),
            None => folder_name_of(path@),
        },
{
    match configured_id {
        Some(id) => sanitize_folder_name(id.as_str()),
        None => fallback_folder_name(path),
    }
}

/// Aggregating items needs item files: a STAC error ("No STAC item files
/// provided") when none is given.
pub fn require_item_files(count: usize) -> (r: Result<(), CityJsonStacError>)
    ensures
        count > 0 <==> r is Ok,
        r matches Err(e) ==> e matches CityJsonStacError::StacError(m) && m@ == "No STAC item files provided"@,
{
    if count == 0 {
        Err(CityJsonStacError::StacError("No STAC item files provided".to_string()))
    } else {
        Ok(())
    }
}

/// Aggregating items needs some item that could be read: a STAC error ("No
/// valid STAC items could be parsed") when none could.
pub fn require_parsed_items(count: usize) -> (r: Result<(), CityJsonStacError>)
    ensures
        count > 0 <==> r is Ok,
        r matches Err(e) ==> e matches CityJsonStacError::StacError(m) && m@ == "No valid STAC items could be parsed"@,
{
    if count == 0 {
        Err(CityJsonStacError::StacError("No valid STAC items could be parsed".to_string()))
    } else {
        Ok(())
    }
}

/// The exit code of a dry run: 0 when nothing is wrong; 2 when inputs are
/// missing but the configuration and the URL are fine; 1 when the
/// configuration or the URL is in error.
pub open spec fn spec_dry_run_exit_code(config_error: bool, missing_inputs: nat, url_error: bool) -> i32 {
    if !config_error && !url_error {
        if missing_inputs == 0 { 0 } else { 2 }
    } else {
        1
    }
}

/// The exit code of a dry run (see `spec_dry_run_exit_code`).
pub fn dry_run_exit_code(config_error: bool, missing_inputs: usize, url_error: bool) -> (r: i32)
    ensures
        r == spec_dry_run_exit_code(config_error, missing_inputs as nat, url_error),
{
    if !config_error && !url_error {
        if missing_inputs == 0 { 0 } else { 2 }
    } else {
        1
    }
}

/// Where a generated document for an input goes: in `output_dir`, named
/// after the input's stem and the kind of document (`<stem>_<kind>.json`).
pub open spec fn output_path_of(input: Seq<char>, output_dir: Seq<char>, kind: Seq<char>) -> Seq<char> {
    let name = stem_of(input) + "_"@ + kind + ".json"@;
    if output_dir.len() == 0 {
        name
    } else if output_dir.last() == '/' {
        output_dir + name
    } else {
        output_dir + "/"@ + name
    }
}

/// The path of the document of the kind `kind` generated for `input` in
/// `output_dir` (see `output_path_of`).
pub fn generate_output_path(input: &str, output_dir: &str, kind: &str) -> (r: String)
    ensures
        r@ == output_path_of(input@, output_dir@, kind@),
{
    let stem = item_stem(input);
    let n1 = concat(chars_of(stem.as_str()).as_slice(), chars_of("_").as_slice());
    let n2 = concat(n1.as_slice(), chars_of(kind).as_slice());
    let name = concat(n2.as_slice(), chars_of(".json").as_slice());
    let dir = chars_of(output_dir);
    if dir.len() == 0 {
        string_of(name.as_slice())
    } else if dir[dir.len() - 1] == '/' {
        let all = concat(dir.as_slice(), name.as_slice());
        string_of(all.as_slice())
    } else {
        let d = concat(dir.as_slice(), chars_of("/").as_slice());
        let all = concat(d.as_slice(), name.as_slice());
        proof {
            assert(all@ =~= output_dir@ + "/"@ + (stem@ + "_"@ + kind@ + ".json"@));
        }
        string_of(all.as_slice())
    }
}

} // verus!
