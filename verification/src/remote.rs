//! Remote inputs: which inputs are URLs, and what file name and extension a
//! URL stands for (from its path, or from a `file=` style query parameter),
//! and the `s3://` form of S3 HTTPS URLs.

use vstd::prelude::*;
use crate::error::CityJsonStacError;
use crate::text::{
    ascii_lower, after_first, after_first_exec, after_last, after_last_exec, before_first, before_first_exec,
    chars_of, concat, same_chars, ends_with, ends_with_exec, last_index_of, last_index_of_exec,
    lemma_find_from, lemma_last_index_of_bound, replace_all, replace_all_exec, split_once,
    split_once_exec, starts_with, starts_with_exec, string_of, strip_prefix, strip_prefix_exec,
};

verus! {

// ---------------------------------------------------------------------------
// Lower case
// ---------------------------------------------------------------------------

/// The lower-case form of a string as `str::to_lowercase` computes it
/// (Unicode's Lowercase mapping).
pub uninterp spec fn unicode_lowercase(s: Seq<char>) -> Seq<char>;

/// Every character is ASCII.
pub open spec fn is_ascii_text(s: Seq<char>) -> bool {
    forall|i: int| 0 <= i < s.len() ==> (#[trigger] s[i] as u32) < 128
}

/// Each ASCII capital letter replaced by its small letter.
pub open spec fn ascii_lowercase(s: Seq<char>) -> Seq<char> {
    s.map_values(|c: char| ascii_lower(c))
}

/// The lower-case form of a text: for ASCII text each capital letter
/// becomes its small letter; other text is mapped as Unicode says.
pub open spec fn lower_text(s: Seq<char>) -> Seq<char> {
    if is_ascii_text(s) {
        ascii_lowercase(s)
    } else {
        unicode_lowercase(s)
    }
}

/// `str::to_lowercase`. Its result is named by `unicode_lowercase`; the
/// Unicode case mapping is not written out, except that ASCII text maps
/// letter by letter to ASCII lower case.
#[verifier::external_body]
fn to_lowercase(s: &str) -> (r: String)
    ensures
        r@ == unicode_lowercase(s@),
        is_ascii_text(s@) ==> r@ == ascii_lowercase(s@),
{
    s.to_lowercase()
}

/// The lower-case form of the characters `v`.
pub(crate) fn lowercase_chars(v: &[char]) -> (r: String)
    ensures
        r@ == lower_text(v@),
{
    let s = string_of(v);
    to_lowercase(s.as_str())
}

// ---------------------------------------------------------------------------
// Remote URLs
// ---------------------------------------------------------------------------

/// The input names a remote location: it starts with `http://`, `https://`,
/// `s3://`, `az://`, `azure://` or `gs://`.
pub open spec fn spec_is_remote_url(s: Seq<char>) -> bool {
    ||| starts_with(s, "http://"@)
    ||| starts_with(s, "https://"@)
    ||| starts_with(s, "s3://"@)
    ||| starts_with(s, "az://"@)
    ||| starts_with(s, "azure://"@)
    ||| starts_with(s, "gs://"@)
}

/// Whether `input` is a remote URL rather than a local path.
pub fn is_remote_url(input: &str) -> (r: bool)
    ensures
        r == spec_is_remote_url(input@),
{
    let v = chars_of(input);
    starts_with_exec(v.as_slice(), chars_of("http://").as_slice())
        || starts_with_exec(v.as_slice(), chars_of("https://").as_slice())
        || starts_with_exec(v.as_slice(), chars_of("s3://").as_slice())
        || starts_with_exec(v.as_slice(), chars_of("az://").as_slice())
        || starts_with_exec(v.as_slice(), chars_of("azure://").as_slice())
        || starts_with_exec(v.as_slice(), chars_of("gs://").as_slice())
}

// ---------------------------------------------------------------------------
// File names and extensions in URLs
// ---------------------------------------------------------------------------

/// The extension of a file name: what follows its last `.`, when that is
/// not empty.
pub open spec fn filename_extension(f: Seq<char>) -> Option<Seq<char>> {
    match last_index_of(f, '.') {
        Some(i) => if i + 1 < f.len() {
            Some(f.subrange(i + 1, f.len() as int))
        } else {
            None
        },
        None => None,
    }
}

/// The file-name part of a URL's path: its last `/`-segment, up to any `?`.
pub open spec fn url_path_part(url: Seq<char>) -> Seq<char> {
    before_first(after_last(url, '/'), '?')
}

/// The query of a URL: the text between its first `?` and the next `?`.
pub open spec fn url_query(url: Seq<char>) -> Option<Seq<char>> {
    match after_first(url, '?') {
        Some(rest) => Some(before_first(rest, '?')),
        None => None,
    }
}

/// The value of a query parameter that names a file (`file=`, `files=` or
/// `f=`).
pub open spec fn file_param_value(param: Seq<char>) -> Option<Seq<char>> {
    match strip_prefix(param, "file="@) {
        Some(v) => Some(v),
        None => match strip_prefix(param, "files="@) {
            Some(v) => Some(v),
            None => strip_prefix(param, "f="@),
        },
    }
}

/// The value with `%2F` decoded to `/` and then `%2E` decoded to `.`.
pub open spec fn decode_param(v: Seq<char>) -> Seq<char> {
    replace_all(replace_all(v, "%2F"@, "/"@), "%2E"@, "."@)
}

/// The file name that a query parameter names: the last `/`-segment of its
/// decoded value.
pub open spec fn param_filename(param: Seq<char>) -> Option<Seq<char>> {
    match file_param_value(param) {
        Some(v) => Some(after_last(decode_param(v), '/')),
        None => None,
    }
}

/// The extension of the file that a query parameter names.
pub open spec fn param_extension(param: Seq<char>) -> Option<Seq<char>> {
    match param_filename(param) {
        Some(f) => filename_extension(f),
        None => None,
    }
}

/// The extension of the file named by the first `&`-separated parameter of
/// `q` that names a file with an extension.
pub open spec fn first_param_extension(q: Seq<char>) -> Option<Seq<char>>
    decreases q.len(),
{
    match param_extension(before_first(q, '&')) {
        Some(e) => Some(e),
        None => match after_first(q, '&') {
            Some(rest) => {
                proof {
                    lemma_after_first_shorter(q, '&');
                }
                first_param_extension(rest)
            },
            None => None,
        },
    }
}

/// The file name named by the first `&`-separated parameter of `q` that
/// names a file whose name has a `.`.
pub open spec fn first_param_filename(q: Seq<char>) -> Option<Seq<char>>
    decreases q.len(),
{
    match param_filename(before_first(q, '&')) {
        Some(f) if last_index_of(f, '.') is Some => Some(f),
        _ => match after_first(q, '&') {
            Some(rest) => {
                proof {
                    lemma_after_first_shorter(q, '&');
                }
                first_param_filename(rest)
            },
            None => None,
        },
    }
}

/// The extensions of data files: `json`, `jsonl`, `cjseq`, `gml`, `xml`,
/// `zip`, `gz` and `fcb`.
pub open spec fn is_data_extension(e: Seq<char>) -> bool {
    ||| e == "json"@
    ||| e == "jsonl"@
    ||| e == "cjseq"@
    ||| e == "gml"@
    ||| e == "xml"@
    ||| e == "zip"@
    ||| e == "gz"@
    ||| e == "fcb"@
}

/// The extension of the file a URL stands for, in lower case: the path's
/// extension when it is a data extension; otherwise the extension of the
/// first file named in the query; otherwise the path's extension, whatever
/// it is.
pub open spec fn url_extension(url: Seq<char>) -> Option<Seq<char>> {
    let path_ext = filename_extension(url_path_part(url));
    if path_ext is Some && is_data_extension(lower_text(path_ext->0)) {
        Some(lower_text(path_ext->0))
    } else {
        let query_ext = match url_query(url) {
            Some(q) => first_param_extension(q),
            None => None,
        };
        match query_ext {
            Some(e) => Some(lower_text(e)),
            None => match path_ext {
                Some(e) => Some(lower_text(e)),
                None => None,
            },
        }
    }
}

/// The file name a URL stands for: the first file (with a `.` in its name)
/// named in its query, else the file-name part of its path, else
/// `remote.file`.
pub open spec fn spec_url_filename(url: Seq<char>) -> Seq<char> {
    let from_query = match url_query(url) {
        Some(q) => first_param_filename(q),
        None => None,
    };
    match from_query {
        Some(f) => f,
        None => if url_path_part(url).len() > 0 {
            url_path_part(url)
        } else {
            "remote.file"@
        },
    }
}

/// What follows the first occurrence of a character is shorter than the
/// whole.
pub proof fn lemma_after_first_shorter(s: Seq<char>, c: char)
    ensures
        after_first(s, c) matches Some(r) ==> r.len() < s.len(),
{
    lemma_find_from(s, seq![c], 0);
}

/// The extension of a file name (`None` when it has no `.` or ends with
/// one).
pub fn extract_ext_from_filename(filename: &[char]) -> (r: Option<Vec<char>>)
    ensures
        match r {
            Some(e) => filename_extension(filename@) == Some(e@),
            None => filename_extension(filename@) is None,
        },
{
    proof {
        lemma_last_index_of_bound(filename@, '.');
    }
    let n = filename.len();
    match last_index_of_exec(filename, '.') {
        Some(i) => {
            if i + 1 < n {
                Some(crate::text::slice_of(filename, i + 1, n))
            } else {
                None
            }
        },
        None => None,
    }
}

/// The file-name part of a URL's path.
fn url_path_part_exec(url: &[char]) -> (r: Vec<char>)
    ensures
        r@ == url_path_part(url@),
{
    let last = after_last_exec(url, '/');
    before_first_exec(last.as_slice(), '?')
}

/// The query of a URL.
fn url_query_exec(url: &[char]) -> (r: Option<Vec<char>>)
    ensures
        match r {
            Some(q) => url_query(url@) == Some(q@),
            None => url_query(url@) is None,
        },
{
    match after_first_exec(url, '?') {
        Some(rest) => Some(before_first_exec(rest.as_slice(), '?')),
        None => None,
    }
}

/// The value of a query parameter that names a file.
fn file_param_value_exec(param: &[char]) -> (r: Option<Vec<char>>)
    ensures
        match r {
            Some(v) => file_param_value(param@) == Some(v@),
            None => file_param_value(param@) is None,
        },
{
    match strip_prefix_exec(param, chars_of("file=").as_slice()) {
        Some(v) => Some(v),
        None => match strip_prefix_exec(param, chars_of("files=").as_slice()) {
            Some(v) => Some(v),
            None => strip_prefix_exec(param, chars_of("f=").as_slice()),
        },
    }
}

/// The file name that a query parameter names.
fn param_filename_exec(param: &[char]) -> (r: Option<Vec<char>>)
    ensures
        match r {
            Some(f) => param_filename(param@) == Some(f@),
            None => param_filename(param@) is None,
        },
{
    match file_param_value_exec(param) {
        Some(v) => {
            let once = replace_all_exec(v.as_slice(), chars_of("%2F").as_slice(), chars_of("/").as_slice());
            let decoded = replace_all_exec(once.as_slice(), chars_of("%2E").as_slice(), chars_of(".").as_slice());
            Some(after_last_exec(decoded.as_slice(), '/'))
        },
        None => None,
    }
}

/// The extension of the first file named in the query `q`.
fn first_param_extension_exec(q: &[char]) -> (r: Option<Vec<char>>)
    ensures
        match r {
            Some(e) => first_param_extension(q@) == Some(e@),
            None => first_param_extension(q@) is None,
        },
{
    let mut rest: Vec<char> = crate::text::slice_of(q, 0, q.len());
    assert(rest@ =~= q@);
    loop
        invariant
            first_param_extension(q@) == first_param_extension(rest@),
        decreases rest@.len(),
    {
        let param = before_first_exec(rest.as_slice(), '&');
        let found = match param_filename_exec(param.as_slice()) {
            Some(f) => extract_ext_from_filename(f.as_slice()),
            None => None,
        };
        match found {
            Some(e) => {
                return Some(e);
            },
            None => {},
        }
        proof {
            lemma_after_first_shorter(rest@, '&');
        }
        match after_first_exec(rest.as_slice(), '&') {
            Some(next) => {
                rest = next;
            },
            None => {
                return None;
            },
        }
    }
}

/// The first file (with a `.` in its name) named in the query `q`.
fn first_param_filename_exec(q: &[char]) -> (r: Option<Vec<char>>)
    ensures
        match r {
            Some(f) => first_param_filename(q@) == Some(f@),
            None => first_param_filename(q@) is None,
        },
{
    let mut rest: Vec<char> = crate::text::slice_of(q, 0, q.len());
    assert(rest@ =~= q@);
    loop
        invariant
            first_param_filename(q@) == first_param_filename(rest@),
        decreases rest@.len(),
    {
        let param = before_first_exec(rest.as_slice(), '&');
        match param_filename_exec(param.as_slice()) {
            Some(f) => {
                if last_index_of_exec(f.as_slice(), '.').is_some() {
                    return Some(f);
                }
            },
            None => {},
        }
        proof {
            lemma_after_first_shorter(rest@, '&');
        }
        match after_first_exec(rest.as_slice(), '&') {
            Some(next) => {
                rest = next;
            },
            None => {
                return None;
            },
        }
    }
}

/// Whether `e` is the extension of a data file.
fn is_data_extension_exec(e: &String) -> (r: bool)
    ensures
        r == is_data_extension(e@),
{
    let v = chars_of(e.as_str());
    {
        let json = chars_of("json");
        let jsonl = chars_of("jsonl");
        let cjseq = chars_of("cjseq");
        let gml = chars_of("gml");
        let xml = chars_of("xml");
        let zip = chars_of("zip");
        let gz = chars_of("gz");
        let fcb = chars_of("fcb");
        same_chars(v.as_slice(), json.as_slice()) || same_chars(v.as_slice(), jsonl.as_slice()) || same_chars(v.as_slice(), cjseq.as_slice())
            || same_chars(v.as_slice(), gml.as_slice()) || same_chars(v.as_slice(), xml.as_slice()) || same_chars(v.as_slice(), zip.as_slice())
            || same_chars(v.as_slice(), gz.as_slice()) || same_chars(v.as_slice(), fcb.as_slice())
    }
}

/// The extension of the file that a URL stands for, in lower case (see
/// `url_extension`); an error when there is none.
pub fn extract_extension_from_url(url: &str) -> (r: Result<String, CityJsonStacError>)
    ensures
        match url_extension(url@) {
            Some(e) => r matches Ok(x) && x@ == e,
            None => r matches Err(CityJsonStacError::Other(m)) && m@ == "No file extension found in URL: "@ + url@,
        },
{
    let v = chars_of(url);
    let path_part = url_path_part_exec(v.as_slice());
    let path_ext = extract_ext_from_filename(path_part.as_slice());
    match &path_ext {
        Some(e) => {
            let lower = lowercase_chars(e.as_slice());
            if is_data_extension_exec(&lower) {
                return Ok(lower);
            }
        },
        None => {},
    }
    let query_ext = match url_query_exec(v.as_slice()) {
        Some(q) => first_param_extension_exec(q.as_slice()),
        None => None,
    };
    match query_ext {
        Some(e) => {
            return Ok(lowercase_chars(e.as_slice()));
        },
        None => {},
    }
    match path_ext {
        Some(e) => Ok(lowercase_chars(e.as_slice())),
        None => {
            let msg = concat(chars_of("No file extension found in URL: ").as_slice(), v.as_slice());
            Err(CityJsonStacError::Other(string_of(msg.as_slice())))
        },
    }
}

/// The file name a URL stands for (see `spec_url_filename`), for display and
/// for naming downloaded copies.
pub fn url_filename(url: &str) -> (r: String)
    ensures
        r@ == spec_url_filename(url@),
{
    let v = chars_of(url);
    match url_query_exec(v.as_slice()) {
        Some(q) => match first_param_filename_exec(q.as_slice()) {
            Some(f) => {
                return string_of(f.as_slice());
            },
            None => {},
        },
        None => {},
    }
    let path_part = url_path_part_exec(v.as_slice());
    if path_part.len() > 0 {
        string_of(path_part.as_slice())
    } else {
        "remote.file".to_string()
    }
}

// ---------------------------------------------------------------------------
// S3 HTTPS URLs
// ---------------------------------------------------------------------------

/// `s3://{bucket}/{key}`, followed by `?region={region}` when a region is
/// given.
pub open spec fn s3_url(bucket: Seq<char>, key: Seq<char>, region: Option<Seq<char>>) -> Seq<char> {
    "s3://"@ + bucket + "/"@ + key + match region {
        Some(r) => "?region="@ + r,
        None => Seq::<char>::empty(),
    }
}

/// `https://s3.dualstack.{region}.amazonaws.com/{bucket}/{key}`.
pub open spec fn s3_dualstack(url: Seq<char>) -> Option<Seq<char>> {
    match strip_prefix(url, "https://s3.dualstack."@) {
        Some(rest) => match split_once(rest, ".amazonaws.com/"@) {
            Some((region, path)) => match split_once(path, "/"@) {
                Some((bucket, key)) => Some(s3_url(bucket, key, Some(region))),
                None => None,
            },
            None => None,
        },
        None => None,
    }
}

/// `https://{bucket}.s3.{region}.amazonaws.com/{key}`, where the part before
/// `.s3.` does not end with `.amazonaws.com`.
pub open spec fn s3_virtual_hosted_regional(url: Seq<char>) -> Option<Seq<char>> {
    match strip_prefix(url, "https://"@) {
        Some(rest) => match split_once(rest, ".s3."@) {
            Some((bucket, region_and_key)) => if ends_with(bucket, ".amazonaws.com"@) {
                None
            } else {
                match split_once(region_and_key, ".amazonaws.com/"@) {
                    Some((region, key)) => Some(s3_url(bucket, key, Some(region))),
                    None => None,
                }
            },
            None => None,
        },
        None => None,
    }
}

/// `https://{bucket}.s3.amazonaws.com/{key}`.
pub open spec fn s3_virtual_hosted(url: Seq<char>) -> Option<Seq<char>> {
    match strip_prefix(url, "https://"@) {
        Some(rest) => match split_once(rest, ".s3.amazonaws.com/"@) {
            Some((bucket, key)) => Some(s3_url(bucket, key, None)),
            None => None,
        },
        None => None,
    }
}

/// `https://s3.{region}.amazonaws.com/{bucket}/{key}`.
pub open spec fn s3_path_style(url: Seq<char>) -> Option<Seq<char>> {
    match strip_prefix(url, "https://s3."@) {
        Some(rest) => match split_once(rest, ".amazonaws.com/"@) {
            Some((region, path)) => match split_once(path, "/"@) {
                Some((bucket, key)) => Some(s3_url(bucket, key, Some(region))),
                None => None,
            },
            None => None,
        },
        None => None,
    }
}

/// The `s3://` form of an S3 HTTPS URL: the first of the dual-stack,
/// regional virtual-hosted, virtual-hosted and path-style forms that the URL
/// has.
pub open spec fn s3_form(url: Seq<char>) -> Option<Seq<char>> {
    if s3_dualstack(url) is Some {
        s3_dualstack(url)
    } else if s3_virtual_hosted_regional(url) is Some {
        s3_virtual_hosted_regional(url)
    } else if s3_virtual_hosted(url) is Some {
        s3_virtual_hosted(url)
    } else {
        s3_path_style(url)
    }
}

/// The characters of `s3_url(bucket, key, region)`.
fn s3_url_exec(bucket: &[char], key: &[char], region: Option<&[char]>) -> (r: Vec<char>)
    ensures
        r@ == s3_url(bucket@, key@, match region {
            Some(x) => Some(x@),
            None => None,
        }),
{
    let a = concat(chars_of("s3://").as_slice(), bucket);
    let b = concat(a.as_slice(), chars_of("/").as_slice());
    let c = concat(b.as_slice(), key);
    match region {
        Some(reg) => {
            let d = concat(chars_of("?region=").as_slice(), reg);
            let r = concat(c.as_slice(), d.as_slice());
            r
        },
        None => {
            let r = concat(c.as_slice(), Vec::<char>::new().as_slice());
            assert(r@ =~= c@ + Seq::<char>::empty());
            r
        },
    }
}

/// The dual-stack form.
fn s3_dualstack_exec(url: &[char]) -> (r: Option<Vec<char>>)
    ensures
        match r {
            Some(x) => s3_dualstack(url@) == Some(x@),
            None => s3_dualstack(url@) is None,
        },
{
    match strip_prefix_exec(url, chars_of("https://s3.dualstack.").as_slice()) {
        Some(rest) => match split_once_exec(rest.as_slice(), chars_of(".amazonaws.com/").as_slice()) {
            Some((region, path)) => match split_once_exec(path.as_slice(), chars_of("/").as_slice()) {
                Some((bucket, key)) => Some(s3_url_exec(bucket.as_slice(), key.as_slice(), Some(region.as_slice()))),
                None => None,
            },
            None => None,
        },
        None => None,
    }
}

/// The regional virtual-hosted form.
fn s3_virtual_hosted_regional_exec(url: &[char]) -> (r: Option<Vec<char>>)
    ensures
        match r {
            Some(x) => s3_virtual_hosted_regional(url@) == Some(x@),
            None => s3_virtual_hosted_regional(url@) is None,
        },
{
    match strip_prefix_exec(url, chars_of("https://").as_slice()) {
        Some(rest) => match split_once_exec(rest.as_slice(), chars_of(".s3.").as_slice()) {
            Some((bucket, region_and_key)) => {
                if ends_with_exec(bucket.as_slice(), chars_of(".amazonaws.com").as_slice()) {
                    None
                } else {
                    match split_once_exec(region_and_key.as_slice(), chars_of(".amazonaws.com/").as_slice()) {
                        Some((region, key)) => Some(s3_url_exec(bucket.as_slice(), key.as_slice(), Some(region.as_slice()))),
                        None => None,
                    }
                }
            },
            None => None,
        },
        None => None,
    }
}

/// The virtual-hosted form.
fn s3_virtual_hosted_exec(url: &[char]) -> (r: Option<Vec<char>>)
    ensures
        match r {
            Some(x) => s3_virtual_hosted(url@) == Some(x@),
            None => s3_virtual_hosted(url@) is None,
        },
{
    match strip_prefix_exec(url, chars_of("https://").as_slice()) {
        Some(rest) => match split_once_exec(rest.as_slice(), chars_of(".s3.amazonaws.com/").as_slice()) {
            Some((bucket, key)) => Some(s3_url_exec(bucket.as_slice(), key.as_slice(), None)),
            None => None,
        },
        None => None,
    }
}

/// The path-style form.
fn s3_path_style_exec(url: &[char]) -> (r: Option<Vec<char>>)
    ensures
        match r {
            Some(x) => s3_path_style(url@) == Some(x@),
            None => s3_path_style(url@) is None,
        },
{
    match strip_prefix_exec(url, chars_of("https://s3.").as_slice()) {
        Some(rest) => match split_once_exec(rest.as_slice(), chars_of(".amazonaws.com/").as_slice()) {
            Some((region, path)) => match split_once_exec(path.as_slice(), chars_of("/").as_slice()) {
                Some((bucket, key)) => Some(s3_url_exec(bucket.as_slice(), key.as_slice(), Some(region.as_slice()))),
                None => None,
            },
            None => None,
        },
        None => None,
    }
}

/// The `s3://` form of an S3 HTTPS URL, when it is one (see `s3_form`).
pub fn convert_s3_https_url(url: &str) -> (r: Option<String>)
    ensures
        match s3_form(url@) {
            Some(x) => r matches Some(s) && s@ == x,
            None => r is None,
        },
{
    let v = chars_of(url);
    let found = match s3_dualstack_exec(v.as_slice()) {
        Some(x) => Some(x),
        None => match s3_virtual_hosted_regional_exec(v.as_slice()) {
            Some(x) => Some(x),
            None => match s3_virtual_hosted_exec(v.as_slice()) {
                Some(x) => Some(x),
                None => s3_path_style_exec(v.as_slice()),
            },
        },
    };
    match found {
        Some(x) => Some(string_of(x.as_slice())),
        None => None,
    }
}

} // verus!
