//! Unix path names as `std::path::Path` reads them: the final component's
//! name, its extension and its stem.

use vstd::prelude::*;
use crate::text::{after_last, after_last_exec, concat, last_index_of, last_index_of_exec, lemma_last_index_of_bound, slice_of};

verus! {

/// The last segment of `s` that names something: segments are separated by
/// `/`, and empty segments and `.` are skipped.
pub open spec fn last_named_segment(s: Seq<char>) -> Option<Seq<char>>
    decreases s.len(),
{
    let seg = after_last(s, '/');
    if seg.len() > 0 && seg != seq!['.'] {
        Some(seg)
    } else {
        match last_index_of(s, '/') {
            Some(i) => {
                proof {
                    lemma_last_index_of_bound(s, '/');
                }
                last_named_segment(s.subrange(0, i))
            },
            None => None,
        }
    }
}

/// The final component of the path, if it is a name (`Path::file_name`):
/// none for an empty path, the root, `.` or a path ending in `..`.
pub open spec fn file_name(s: Seq<char>) -> Option<Seq<char>> {
    match last_named_segment(s) {
        Some(n) => if n == seq!['.', '.'] {
            None
        } else {
            Some(n)
        },
        None => None,
    }
}

/// The extension of a file name (`Path::extension` on the name): what
/// follows the last `.`, unless the name has no `.` or its only `.` is the
/// first character.
pub open spec fn name_extension(n: Seq<char>) -> Option<Seq<char>> {
    match last_index_of(n, '.') {
        Some(i) => if i == 0 {
            None
        } else {
            Some(n.subrange(i + 1, n.len() as int))
        },
        None => None,
    }
}

/// The stem of a file name (`Path::file_stem` on the name): what precedes
/// the last `.`, or the whole name when it has no `.` or its only `.` is the
/// first character.
pub open spec fn name_stem(n: Seq<char>) -> Seq<char> {
    match last_index_of(n, '.') {
        Some(i) => if i == 0 {
            n
        } else {
            n.subrange(0, i)
        },
        None => n,
    }
}

/// The extension of the path (`Path::extension`).
pub open spec fn extension(s: Seq<char>) -> Option<Seq<char>> {
    match file_name(s) {
        Some(n) => name_extension(n),
        None => None,
    }
}

/// The stem of the path (`Path::file_stem`).
pub open spec fn file_stem(s: Seq<char>) -> Option<Seq<char>> {
    match file_name(s) {
        Some(n) => Some(name_stem(n)),
        None => None,
    }
}

/// The last named segment of `v`.
fn last_named_segment_exec(v: &[char]) -> (r: Option<Vec<char>>)
    ensures
        match r {
            Some(x) => last_named_segment(v@) == Some(x@),
            None => last_named_segment(v@) is None,
        },
{
    let mut end: usize = v.len();
    assert(v@.subrange(0, end as int) =~= v@);
    loop
        invariant
            end <= v@.len(),
            last_named_segment(v@) == last_named_segment(v@.subrange(0, end as int)),
        decreases end,
    {
        let cur = slice_of(v, 0, end);
        let seg = after_last_exec(cur.as_slice(), '/');
        if seg.len() > 0 && !(seg.len() == 1 && seg[0] == '.') {
            assert(seg@ != seq!['.'] ) by {
                if seg@ == seq!['.'] {
                    assert(seg@.len() == 1 && seg@[0] == '.');
                }
            }
            return Some(seg);
        }
        assert(seg@.len() == 0 || seg@ =~= seq!['.']);
        proof {
            lemma_last_index_of_bound(cur@, '/');
        }
        match last_index_of_exec(cur.as_slice(), '/') {
            Some(i) => {
                assert(cur@.subrange(0, i as int) =~= v@.subrange(0, i as int));
                end = i;
            },
            None => {
                return None;
            },
        }
    }
}

/// The final component of the path, if it is a name (`Path::file_name`).
pub fn file_name_exec(v: &[char]) -> (r: Option<Vec<char>>)
    ensures
        match r {
            Some(x) => file_name(v@) == Some(x@),
            None => file_name(v@) is None,
        },
{
    match last_named_segment_exec(v) {
        Some(n) => {
            if n.len() == 2 && n[0] == '.' && n[1] == '.' {
                assert(n@ =~= seq!['.', '.']);
                None
            } else {
                assert(n@ != seq!['.', '.']) by {
                    if n@ == seq!['.', '.'] {
                        assert(n@[0] == '.' && n@[1] == '.');
                    }
                }
                Some(n)
            }
        },
        None => None,
    }
}

/// The extension of a file name.
pub fn name_extension_exec(n: &[char]) -> (r: Option<Vec<char>>)
    ensures
        match r {
            Some(x) => name_extension(n@) == Some(x@),
            None => name_extension(n@) is None,
        },
{
    proof {
        lemma_last_index_of_bound(n@, '.');
    }
    match last_index_of_exec(n, '.') {
        Some(i) => {
            if i == 0 {
                None
            } else {
                let len = n.len();
                Some(slice_of(n, i + 1, len))
            }
        },
        None => None,
    }
}

/// The stem of a file name.
pub fn name_stem_exec(n: &[char]) -> (r: Vec<char>)
    ensures
        r@ == name_stem(n@),
{
    proof {
        lemma_last_index_of_bound(n@, '.');
    }
    let len = n.len();
    match last_index_of_exec(n, '.') {
        Some(i) => {
            if i == 0 {
                slice_of(n, 0, len)
            } else {
                slice_of(n, 0, i)
            }
        },
        None => slice_of(n, 0, len),
    }
}

/// The extension of the path (`Path::extension`).
pub fn extension_exec(v: &[char]) -> (r: Option<Vec<char>>)
    ensures
        match r {
            Some(x) => extension(v@) == Some(x@),
            None => extension(v@) is None,
        },
{
    match file_name_exec(v) {
        Some(n) => name_extension_exec(n.as_slice()),
        None => None,
    }
}

/// The stem of the path (`Path::file_stem`).
pub fn file_stem_exec(v: &[char]) -> (r: Option<Vec<char>>)
    ensures
        match r {
            Some(x) => file_stem(v@) == Some(x@),
            None => file_stem(v@) is None,
        },
{
    match file_name_exec(v) {
        Some(n) => Some(name_stem_exec(n.as_slice())),
        None => None,
    }
}


/// Where the last named segment of `s` ends (see `last_named_segment`).
pub open spec fn named_end(s: Seq<char>) -> Option<int>
    decreases s.len(),
{
    let seg = after_last(s, '/');
    if seg.len() > 0 && seg != seq!['.'] {
        Some(s.len() as int)
    } else {
        match last_index_of(s, '/') {
            Some(i) => {
                proof {
                    lemma_last_index_of_bound(s, '/');
                }
                named_end(s.subrange(0, i))
            },
            None => None,
        }
    }
}

/// The last named segment is what follows the last `/` before its end.
pub proof fn lemma_named_end(s: Seq<char>)
    ensures
        match named_end(s) {
            Some(e) => 0 <= e <= s.len() && last_named_segment(s) == Some(after_last(s.subrange(0, e), '/'))
                && after_last(s.subrange(0, e), '/').len() <= e
                && s.subrange(e - after_last(s.subrange(0, e), '/').len(), e) == after_last(s.subrange(0, e), '/'),
            None => last_named_segment(s) is None,
        },
    decreases s.len(),
{
    lemma_last_index_of_bound(s, '/');
    let seg = after_last(s, '/');
    if seg.len() > 0 && seg != seq!['.'] {
        assert(s.subrange(0, s.len() as int) =~= s);
        match last_index_of(s, '/') {
            Some(i) => {
                assert(s.subrange(s.len() - seg.len(), s.len() as int) =~= seg);
            },
            None => {
                assert(s.subrange(0, s.len() as int) =~= seg);
            },
        }
    } else {
        match last_index_of(s, '/') {
            Some(i) => {
                let t = s.subrange(0, i);
                lemma_named_end(t);
                match named_end(t) {
                    Some(e) => {
                        assert(t.subrange(0, e) =~= s.subrange(0, e));
                        let sg = after_last(s.subrange(0, e), '/');
                        assert(t.subrange(e - sg.len(), e) =~= s.subrange(e - sg.len(), e));
                    },
                    None => {},
                }
            },
            None => {},
        }
    }
}

/// The path with its extension replaced by `ext` (`PathBuf::set_extension`):
/// cut after the file stem and, unless `ext` is empty, followed by `.` and
/// `ext`. A path without a file stem is left as it is.
pub open spec fn with_extension(s: Seq<char>, ext: Seq<char>) -> Seq<char> {
    match (named_end(s), file_stem(s)) {
        (Some(e), Some(stem)) => {
            let seg = after_last(s.subrange(0, e), '/');
            s.subrange(0, e - seg.len() + stem.len()) + (if ext.len() > 0 { seq!['.'] + ext } else { seq![] })
        },
        _ => s,
    }
}

/// Where the last named segment of `v` ends.
fn named_end_exec(v: &[char]) -> (r: Option<usize>)
    ensures
        match r {
            Some(e) => named_end(v@) == Some(e as int),
            None => named_end(v@) is None,
        },
{
    let mut end: usize = v.len();
    assert(v@.subrange(0, end as int) =~= v@);
    loop
        invariant
            end <= v@.len(),
            named_end(v@) == named_end(v@.subrange(0, end as int)),
        decreases end,
    {
        let cur = slice_of(v, 0, end);
        let seg = after_last_exec(cur.as_slice(), '/');
        if seg.len() > 0 && !(seg.len() == 1 && seg[0] == '.') {
            assert(seg@ != seq!['.']) by {
                if seg@ == seq!['.'] {
                    assert(seg@.len() == 1 && seg@[0] == '.');
                }
            }
            return Some(end);
        }
        assert(seg@.len() == 0 || seg@ =~= seq!['.']);
        proof {
            lemma_last_index_of_bound(cur@, '/');
        }
        match last_index_of_exec(cur.as_slice(), '/') {
            Some(i) => {
                assert(cur@.subrange(0, i as int) =~= v@.subrange(0, i as int));
                end = i;
            },
            None => {
                return None;
            },
        }
    }
}

/// The path with its extension replaced by `ext`.
pub fn with_extension_exec(v: &[char], ext: &[char]) -> (r: Vec<char>)
    ensures
        r@ == with_extension(v@, ext@),
{
    proof {
        lemma_named_end(v@);
    }
    match named_end_exec(v) {
        Some(e) => match file_stem_exec(v) {
            Some(stem) => {
                let upto = slice_of(v, 0, e);
                let seg = after_last_exec(upto.as_slice(), '/');
                proof {
                    assert(stem@.len() <= seg@.len()) by {
                        let n = file_name(v@)->0;
                        assert(n == seg@);
                        lemma_last_index_of_bound(n, '.');
                    }
                    assert(seg@.len() <= e);
                }
                let cut = e - seg.len() + stem.len();
                let head = slice_of(v, 0, cut);
                if ext.len() > 0 {
                    let dot: Vec<char> = vec!['.'];
                    let tail = concat(dot.as_slice(), ext);
                    assert(dot@ =~= seq!['.']);
                    concat(head.as_slice(), tail.as_slice())
                } else {
                    assert(head@ + seq![] =~= head@);
                    head
                }
            },
            None => slice_of(v, 0, v.len()),
        },
        None => {
            assert(v@.subrange(0, v@.len() as int) =~= v@);
            slice_of(v, 0, v.len())
        },
    }
}

} // verus!
