//! Which files of a directory tree are city-model inputs.

use vstd::prelude::*;
use crate::path::{extension, extension_exec, file_name, file_name_exec};
use crate::remote::lower_text;
use crate::reader::{ReaderKind, local_kind, remote_kind};
use crate::text::{eq_ignore_ascii_case, eq_ignore_ascii_case_exec, chars_of, string_of, texts};

verus! {

/// The path has an extension equal, up to ASCII case, to one of `exts`.
pub open spec fn has_listed_extension(p: Seq<char>, exts: Seq<Seq<char>>) -> bool {
    match extension(p) {
        Some(e) => exists|j: int| 0 <= j < exts.len() && eq_ignore_ascii_case(#[trigger] exts[j], e),
        None => false,
    }
}

/// The paths of `files` that have one of the extensions `exts`, in order.
pub open spec fn paths_with_extensions(files: Seq<String>, exts: Seq<Seq<char>>) -> Seq<String>
    decreases files.len(),
{
    if files.len() == 0 {
        Seq::empty()
    } else {
        let rest = paths_with_extensions(files.drop_last(), exts);
        if has_listed_extension(files.last()@, exts) {
            rest.push(files.last())
        } else {
            rest
        }
    }
}

/// Whether the path has an extension equal, up to ASCII case, to one of
/// `extensions`.
fn has_listed_extension_exec(p: &String, extensions: &[String]) -> (r: bool)
    ensures
        r == has_listed_extension(p@, texts(extensions@)),
{
    let v = chars_of(p.as_str());
    match extension_exec(v.as_slice()) {
        None => false,
        Some(e) => {
            let mut j: usize = 0;
            while j < extensions.len()
                invariant
                    j <= extensions@.len(),
                    extension(p@) == Some(e@),
                    forall|k: int| 0 <= k < j ==> !eq_ignore_ascii_case(#[trigger] texts(extensions@)[k], e@),
                decreases extensions.len() - j,
            {
                let x = chars_of(extensions[j].as_str());
                if eq_ignore_ascii_case_exec(x.as_slice(), e.as_slice()) {
                    assert(texts(extensions@)[j as int] == x@);
                    return true;
                }
                j += 1;
            }
            false
        },
    }
}

/// The files whose extension is one of `extensions`, compared without
/// regard to ASCII case; files without an extension are dropped. Order is
/// kept.
pub fn filter_by_extensions(files: Vec<String>, extensions: &[String]) -> (r: Vec<String>)
    ensures
        r@ == paths_with_extensions(files@, texts(extensions@)),
{
    let mut out: Vec<String> = Vec::new();
    let mut i: usize = 0;
    assert(files@.subrange(0, 0) =~= Seq::<String>::empty());
    while i < files.len()
        invariant
            i <= files@.len(),
            out@ == paths_with_extensions(files@.subrange(0, i as int), texts(extensions@)),
        decreases files.len() - i,
    {
        assert(files@.subrange(0, i + 1).drop_last() =~= files@.subrange(0, i as int));
        assert(files@.subrange(0, i + 1).last() == files@[i as int]);
        if has_listed_extension_exec(&files[i], extensions) {
            out.push(files[i].clone());
        }
        i += 1;
    }
    assert(files@.subrange(0, files@.len() as int) =~= files@);
    out
}

/// The extensions of city-model inputs found while scanning directories:
/// `json`, `jsonl`, `cjseq`, `fcb` and `parquet`.
pub open spec fn is_scanned_extension(e: Seq<char>) -> bool {
    ||| e == "json"@
    ||| e == "jsonl"@
    ||| e == "cjseq"@
    ||| e == "fcb"@
    ||| e == "parquet"@
}

/// The path is an input to collect while scanning: its extension, in lower
/// case, is one of the scanned extensions.
pub open spec fn is_scanned_path(p: Seq<char>) -> bool {
    match extension(p) {
        Some(e) => is_scanned_extension(lower_text(e)),
        None => false,
    }
}

/// Which files a directory scan collects: exactly those whose extension,
/// in lower case, is `json`, `jsonl`, `cjseq`, `fcb` or `parquet`. Every
/// extension that the readers take as CityJSON, as a CityJSON Text
/// Sequence or as FlatCityBuf is among them, for local files and remote
/// ones alike.
pub proof fn lemma_scanned_extensions(p: Seq<char>, e: Seq<char>)
    ensures
        is_scanned_path(p) <==> (extension(p) matches Some(x) && {
            let l = lower_text(x);
            ||| l == "json"@
            ||| l == "jsonl"@
            ||| l == "cjseq"@
            ||| l == "fcb"@
            ||| l == "parquet"@
        }),
        local_kind(e) == Some(ReaderKind::CityJson) ==> is_scanned_extension(e),
        local_kind(e) == Some(ReaderKind::CityJsonSeq) ==> is_scanned_extension(e),
        local_kind(e) == Some(ReaderKind::FlatCityBuf) ==> is_scanned_extension(e),
        remote_kind(e) == Some(ReaderKind::CityJson) ==> is_scanned_extension(e),
        remote_kind(e) == Some(ReaderKind::CityJsonSeq) ==> is_scanned_extension(e),
{
}

/// Whether a file found while scanning a directory is a city-model input.
pub fn is_supported_file(path: &str) -> (r: bool)
    ensures
        r == is_scanned_path(path@),
{
    let v = chars_of(path);
    match extension_exec(v.as_slice()) {
        None => false,
        Some(e) => {
            let lower = crate::remote::lowercase_chars(e.as_slice());
            let l = chars_of(lower.as_str());
            let r = crate::text::same_chars(l.as_slice(), chars_of("json").as_slice())
                || crate::text::same_chars(l.as_slice(), chars_of("jsonl").as_slice())
                || crate::text::same_chars(l.as_slice(), chars_of("cjseq").as_slice())
                || crate::text::same_chars(l.as_slice(), chars_of("fcb").as_slice())
                || crate::text::same_chars(l.as_slice(), chars_of("parquet").as_slice());
            r
        },
    }
}

/// `name` matches the wildcard pattern `pat`: `*` stands for any run of
/// characters (the empty one too), `?` for any one character, and every
/// other character for itself.
pub open spec fn wildcard_match(name: Seq<char>, pat: Seq<char>) -> bool
    decreases pat.len(), name.len(),
{
    if pat.len() == 0 {
        name.len() == 0
    } else if pat[0] == '*' {
        wildcard_match(name, pat.drop_first()) || (name.len() > 0 && wildcard_match(name.drop_first(), pat))
    } else if name.len() == 0 {
        false
    } else if pat[0] == '?' || pat[0] == name[0] {
        wildcard_match(name.drop_first(), pat.drop_first())
    } else {
        false
    }
}

/// Whether `name` from position `i` on matches `pat` from position `j` on.
fn wildcard_match_from(name: &[char], pat: &[char], i: usize, j: usize) -> (r: bool)
    requires
        i <= name@.len(),
        j <= pat@.len(),
    ensures
        r == wildcard_match(name@.skip(i as int), pat@.skip(j as int)),
    decreases pat@.len() - j, name@.len() - i,
{
    let ghost n = name@.skip(i as int);
    let ghost p = pat@.skip(j as int);
    if j == pat.len() {
        return i == name.len();
    }
    assert(p.drop_first() =~= pat@.skip(j + 1));
    if i < name.len() {
        assert(n.drop_first() =~= name@.skip(i + 1));
    }
    if pat[j] == '*' {
        if wildcard_match_from(name, pat, i, j + 1) {
            true
        } else if i < name.len() {
            wildcard_match_from(name, pat, i + 1, j)
        } else {
            false
        }
    } else if i == name.len() {
        false
    } else if pat[j] == '?' || pat[j] == name[i] {
        wildcard_match_from(name, pat, i + 1, j + 1)
    } else {
        false
    }
}

/// Whether `name` matches the wildcard pattern `pattern` (`*` for any run
/// of characters, `?` for any one character).
pub fn matches_pattern(name: &str, pattern: &str) -> (r: bool)
    ensures
        r == wildcard_match(name@, pattern@),
{
    let n = chars_of(name);
    let p = chars_of(pattern);
    assert(n@.skip(0) =~= n@);
    assert(p@.skip(0) =~= p@);
    wildcard_match_from(n.as_slice(), p.as_slice(), 0, 0)
}

/// The pattern matches the file's name (where the path has one) or its
/// whole path.
pub open spec fn path_matches(path: Seq<char>, pat: Seq<char>) -> bool {
    (match file_name(path) {
        Some(n) => wildcard_match(n, pat),
        None => false,
    }) || wildcard_match(path, pat)
}

/// Some pattern of `pats` matches the file's name or its whole path.
pub open spec fn some_pattern_matches(path: Seq<char>, pats: Seq<Seq<char>>) -> bool {
    exists|k: int| 0 <= k < pats.len() && path_matches(path, #[trigger] pats[k])
}

/// A file found while scanning is kept when no include pattern is given or
/// one of them matches it, and none of the exclude patterns does.
pub open spec fn selected_by_patterns(path: Seq<char>, includes: Seq<Seq<char>>, excludes: Seq<Seq<char>>) -> bool {
    (includes.len() == 0 || some_pattern_matches(path, includes)) && !some_pattern_matches(path, excludes)
}

/// Whether some pattern of `patterns` matches the file's name or its path.
fn some_pattern_matches_exec(path: &str, patterns: &[String]) -> (r: bool)
    ensures
        r == some_pattern_matches(path@, texts(patterns@)),
{
    let name: Option<String> = match file_name_exec(chars_of(path).as_slice()) {
        Some(n) => Some(string_of(n.as_slice())),
        None => None,
    };
    let mut k: usize = 0;
    while k < patterns.len()
        invariant
            k <= patterns@.len(),
            match name {
                Some(n) => file_name(path@) == Some(n@),
                None => file_name(path@) is None,
            },
            forall|q: int| 0 <= q < k ==> !path_matches(path@, #[trigger] texts(patterns@)[q]),
        decreases patterns.len() - k,
    {
        assert(texts(patterns@)[k as int] == patterns@[k as int]@);
        let by_name = match &name {
            Some(n) => matches_pattern(n.as_str(), patterns[k].as_str()),
            None => false,
        };
        if by_name || matches_pattern(path, patterns[k].as_str()) {
            return true;
        }
        k += 1;
    }
    false
}

/// Whether a file found while scanning is kept under the include and
/// exclude patterns: it must match an include pattern (when any is given)
/// and no exclude pattern, by its file name or its whole path.
pub fn is_selected_by_patterns(path: &str, includes: &[String], excludes: &[String]) -> (r: bool)
    ensures
        r == selected_by_patterns(path@, texts(includes@), texts(excludes@)),
{
    let included = includes.len() == 0 || some_pattern_matches_exec(path, includes);
    included && !some_pattern_matches_exec(path, excludes)
}

} // verus!
