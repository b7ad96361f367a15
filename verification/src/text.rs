//! Character-sequence helpers: the string operations that the rest of the
//! library is specified with (prefixes, suffixes, first and last
//! occurrences, substitution) and their executable counterparts over
//! `Vec<char>`.

use vstd::prelude::*;

verus! {

// ---------------------------------------------------------------------------
// Specifications
// ---------------------------------------------------------------------------

/// `p` occurs in `s` at position `i`.
pub open spec fn occurs_at(s: Seq<char>, p: Seq<char>, i: int) -> bool {
    &&& 0 <= i
    &&& i + p.len() <= s.len()
    &&& s.subrange(i, i + p.len()) == p
}

/// `s` starts with `p`.
pub open spec fn starts_with(s: Seq<char>, p: Seq<char>) -> bool {
    occurs_at(s, p, 0)
}

/// `s` ends with `p`.
pub open spec fn ends_with(s: Seq<char>, p: Seq<char>) -> bool {
    p.len() <= s.len() && occurs_at(s, p, s.len() - p.len())
}

/// `p` occurs somewhere in `s`.
pub open spec fn contains_seq(s: Seq<char>, p: Seq<char>) -> bool {
    exists|i: int| occurs_at(s, p, i)
}

/// The first position at or after `i` where `p` occurs in `s`.
pub open spec fn find_from(s: Seq<char>, p: Seq<char>, i: int) -> Option<int>
    decreases s.len() + 1 - i,
{
    if i < 0 || i + p.len() > s.len() {
        None
    } else if occurs_at(s, p, i) {
        Some(i)
    } else {
        find_from(s, p, i + 1)
    }
}

/// The first position where `p` occurs in `s`.
pub open spec fn find(s: Seq<char>, p: Seq<char>) -> Option<int> {
    find_from(s, p, 0)
}

/// The last position of the character `c` in `s`.
pub open spec fn last_index_of(s: Seq<char>, c: char) -> Option<int>
    decreases s.len(),
{
    if s.len() == 0 {
        None
    } else if s.last() == c {
        Some(s.len() - 1)
    } else {
        last_index_of(s.drop_last(), c)
    }
}

/// What precedes the first occurrence of `c` (the whole of `s` when `c` does
/// not occur): the first item of `s.split(c)`.
pub open spec fn before_first(s: Seq<char>, c: char) -> Seq<char> {
    match find(s, seq![c]) {
        Some(i) => s.subrange(0, i),
        None => s,
    }
}

/// What follows the first occurrence of `c`, if `c` occurs.
pub open spec fn after_first(s: Seq<char>, c: char) -> Option<Seq<char>> {
    match find(s, seq![c]) {
        Some(i) => Some(s.subrange(i + 1, s.len() as int)),
        None => None,
    }
}

/// What follows the last occurrence of `c` (the whole of `s` when `c` does
/// not occur): the last item of `s.split(c)`.
pub open spec fn after_last(s: Seq<char>, c: char) -> Seq<char> {
    match last_index_of(s, c) {
        Some(i) => s.subrange(i + 1, s.len() as int),
        None => s,
    }
}

/// `s` without the prefix `p`, if it starts with it.
pub open spec fn strip_prefix(s: Seq<char>, p: Seq<char>) -> Option<Seq<char>> {
    if starts_with(s, p) {
        Some(s.subrange(p.len() as int, s.len() as int))
    } else {
        None
    }
}

/// `s` split at the first occurrence of `p` (the pair of the parts before and
/// after it), if `p` occurs.
pub open spec fn split_once(s: Seq<char>, p: Seq<char>) -> Option<(Seq<char>, Seq<char>)> {
    match find(s, p) {
        Some(i) => Some((s.subrange(0, i), s.subrange(i + p.len(), s.len() as int))),
        None => None,
    }
}

/// Every non-overlapping occurrence of `pat` in `s`, taken from the left,
/// replaced by `rep`.
pub open spec fn replace_all(s: Seq<char>, pat: Seq<char>, rep: Seq<char>) -> Seq<char>
    decreases s.len(),
{
    if pat.len() == 0 || s.len() < pat.len() {
        s
    } else if s.subrange(0, pat.len() as int) == pat {
        rep + replace_all(s.subrange(pat.len() as int, s.len() as int), pat, rep)
    } else {
        seq![s[0]] + replace_all(s.drop_first(), pat, rep)
    }
}

/// ASCII upper-case letters mapped to lower case, every other character kept.
pub open spec fn ascii_lower(c: char) -> char {
    if 'A' <= c && c <= 'Z' {
        ((c as u32) + 32) as char
    } else {
        c
    }
}

/// The two sequences are equal up to ASCII case.
pub open spec fn eq_ignore_ascii_case(a: Seq<char>, b: Seq<char>) -> bool {
    a.len() == b.len() && forall|i: int| 0 <= i < a.len() ==> ascii_lower(a[i]) == ascii_lower(b[i])
}

// ---------------------------------------------------------------------------
// Lemmas
// ---------------------------------------------------------------------------

/// A position returned by `find_from` is a match, and no earlier position at
/// or after the start matches.
pub proof fn lemma_find_from(s: Seq<char>, p: Seq<char>, i: int)
    requires
        0 <= i,
    ensures
        match find_from(s, p, i) {
            Some(k) => i <= k && occurs_at(s, p, k) && forall|j: int| i <= j < k ==> !occurs_at(s, p, j),
            None => forall|j: int| i <= j ==> !occurs_at(s, p, j),
        },
    decreases s.len() + 1 - i,
{
    if i + p.len() > s.len() {
    } else if occurs_at(s, p, i) {
    } else {
        lemma_find_from(s, p, i + 1);
    }
}

// ---------------------------------------------------------------------------
// Executable operations
// ---------------------------------------------------------------------------

/// Appends a character to a string (`String::push`).
#[verifier::external_body]
fn push_char(s: &mut String, c: char)
    ensures
        final(s)@ == old(s)@.push(c),
{
    s.push(c);
}

/// The characters of `s`, in order.
pub fn chars_of(s: &str) -> (v: Vec<char>)
    ensures
        v@ == s@,
{
    let n = s.unicode_len();
    let mut v: Vec<char> = Vec::new();
    let mut i: usize = 0;
    while i < n
        invariant
            n == s@.len(),
            i <= n,
            v@ == s@.subrange(0, i as int),
        decreases n - i,
    {
        v.push(s.get_char(i));
        i += 1;
    }
    assert(v@ =~= s@);
    v
}

/// The string made of the characters `v`.
pub fn string_of(v: &[char]) -> (s: String)
    ensures
        s@ == v@,
{
    let mut s = String::new();
    let mut i: usize = 0;
    while i < v.len()
        invariant
            i <= v.len(),
            s@ == v@.subrange(0, i as int),
        decreases v.len() - i,
    {
        push_char(&mut s, v[i]);
        assert(v@.subrange(0, i + 1) =~= v@.subrange(0, i as int).push(v@[i as int]));
        i += 1;
    }
    assert(s@ =~= v@);
    s
}

/// The characters of `v` from position `a` up to (not including) `b`.
pub fn slice_of(v: &[char], a: usize, b: usize) -> (r: Vec<char>)
    requires
        a <= b <= v@.len(),
    ensures
        r@ == v@.subrange(a as int, b as int),
{
    let mut r: Vec<char> = Vec::new();
    let mut i: usize = a;
    while i < b
        invariant
            a <= i <= b,
            b <= v@.len(),
            r@ == v@.subrange(a as int, i as int),
        decreases b - i,
    {
        r.push(v[i]);
        assert(v@.subrange(a as int, i + 1) =~= v@.subrange(a as int, i as int).push(v@[i as int]));
        i += 1;
    }
    r
}

/// The concatenation of `a` and `b`.
pub fn concat(a: &[char], b: &[char]) -> (r: Vec<char>)
    ensures
        r@ == a@ + b@,
{
    let mut r: Vec<char> = Vec::new();
    let mut i: usize = 0;
    while i < a.len()
        invariant
            i <= a.len(),
            r@ == a@.subrange(0, i as int),
        decreases a.len() - i,
    {
        r.push(a[i]);
        assert(a@.subrange(0, i + 1) =~= a@.subrange(0, i as int).push(a@[i as int]));
        i += 1;
    }
    let mut j: usize = 0;
    while j < b.len()
        invariant
            j <= b.len(),
            r@ == a@ + b@.subrange(0, j as int),
        decreases b.len() - j,
    {
        r.push(b[j]);
        assert(b@.subrange(0, j + 1) =~= b@.subrange(0, j as int).push(b@[j as int]));
        j += 1;
    }
    assert(b@.subrange(0, b@.len() as int) =~= b@);
    r
}

/// Whether `p` occurs in `v` at position `i`.
pub fn occurs_at_exec(v: &[char], p: &[char], i: usize) -> (b: bool)
    ensures
        b == occurs_at(v@, p@, i as int),
{
    if i > v.len() || p.len() > v.len() - i {
        return false;
    }
    let mut k: usize = 0;
    while k < p.len()
        invariant
            i + p@.len() <= v@.len(),
            v@.len() == v.len(),
            p@.len() == p.len(),
            k <= p@.len(),
            forall|j: int| 0 <= j < k ==> v@[i + j] == p@[j],
        decreases p.len() - k,
    {
        if v[i + k] != p[k] {
            assert(v@.subrange(i as int, i + p@.len())[k as int] != p@[k as int]);
            return false;
        }
        k += 1;
    }
    assert(v@.subrange(i as int, i + p@.len()) =~= p@);
    true
}

/// Whether `v` starts with `p`.
pub fn starts_with_exec(v: &[char], p: &[char]) -> (b: bool)
    ensures
        b == starts_with(v@, p@),
{
    occurs_at_exec(v, p, 0)
}

/// Whether `v` ends with `p`.
pub fn ends_with_exec(v: &[char], p: &[char]) -> (b: bool)
    ensures
        b == ends_with(v@, p@),
{
    if p.len() > v.len() {
        false
    } else {
        occurs_at_exec(v, p, v.len() - p.len())
    }
}

/// The first position at or after `i` where `p` occurs in `v`.
pub fn find_from_exec(v: &[char], p: &[char], i: usize) -> (r: Option<usize>)
    ensures
        match r {
            Some(k) => find_from(v@, p@, i as int) == Some(k as int),
            None => find_from(v@, p@, i as int) is None,
        },
{
    let mut k: usize = i;
    while k <= v.len() && p.len() <= v.len() - k
        invariant
            i <= k,
            find_from(v@, p@, i as int) == find_from(v@, p@, k as int),
        decreases v.len() + 1 - k,
    {
        if occurs_at_exec(v, p, k) {
            return Some(k);
        }
        if k == v.len() {
            assert(v@.subrange(k as int, k + p@.len()) =~= p@);
        }
        k += 1;
    }
    None
}

/// The first position where `p` occurs in `v`.
pub fn find_exec(v: &[char], p: &[char]) -> (r: Option<usize>)
    ensures
        match r {
            Some(k) => find(v@, p@) == Some(k as int),
            None => find(v@, p@) is None,
        },
{
    find_from_exec(v, p, 0)
}

/// Whether `p` occurs anywhere in `v`.
pub fn contains_exec(v: &[char], p: &[char]) -> (b: bool)
    ensures
        b == contains_seq(v@, p@),
{
    proof {
        lemma_find_from(v@, p@, 0);
    }
    match find_exec(v, p) {
        Some(_) => true,
        None => false,
    }
}

/// The first position of the character `c` in `v`.
pub fn find_char(v: &[char], c: char) -> (r: Option<usize>)
    ensures
        match r {
            Some(k) => find(v@, seq![c]) == Some(k as int),
            None => find(v@, seq![c]) is None,
        },
{
    let p: Vec<char> = vec![c];
    assert(p@ =~= seq![c]);
    find_exec(v, p.as_slice())
}

/// The last position of the character `c` in `v`.
pub fn last_index_of_exec(v: &[char], c: char) -> (r: Option<usize>)
    ensures
        match r {
            Some(k) => last_index_of(v@, c) == Some(k as int),
            None => last_index_of(v@, c) is None,
        },
{
    let mut k: usize = v.len();
    assert(v@.subrange(0, k as int) =~= v@);
    while k > 0
        invariant
            k <= v@.len(),
            last_index_of(v@, c) == last_index_of(v@.subrange(0, k as int), c),
        decreases k,
    {
        assert(v@.subrange(0, k - 1) =~= v@.subrange(0, k as int).drop_last());
        if v[k - 1] == c {
            return Some(k - 1);
        }
        k -= 1;
    }
    None
}

/// What precedes the first occurrence of `c` in `v` (all of `v` if none).
pub fn before_first_exec(v: &[char], c: char) -> (r: Vec<char>)
    ensures
        r@ == before_first(v@, c),
{
    proof {
        lemma_find_from(v@, seq![c], 0);
    }
    match find_char(v, c) {
        Some(i) => slice_of(v, 0, i),
        None => slice_of(v, 0, v.len()),
    }
}

/// What follows the first occurrence of `c` in `v`, if any.
pub fn after_first_exec(v: &[char], c: char) -> (r: Option<Vec<char>>)
    ensures
        match r {
            Some(x) => after_first(v@, c) == Some(x@),
            None => after_first(v@, c) is None,
        },
{
    proof {
        lemma_find_from(v@, seq![c], 0);
    }
    match find_char(v, c) {
        Some(i) => {
            let n = v.len();
            assert(occurs_at(v@, seq![c], i as int));
            Some(slice_of(v, i + 1, n))
        },
        None => None,
    }
}

/// What follows the last occurrence of `c` in `v` (all of `v` if none).
pub fn after_last_exec(v: &[char], c: char) -> (r: Vec<char>)
    ensures
        r@ == after_last(v@, c),
{
    proof {
        lemma_last_index_of_bound(v@, c);
    }
    match last_index_of_exec(v, c) {
        Some(i) => {
            let n = v.len();
            slice_of(v, i + 1, n)
        },
        None => slice_of(v, 0, v.len()),
    }
}

/// `v` without the prefix `p`, if it starts with it.
pub fn strip_prefix_exec(v: &[char], p: &[char]) -> (r: Option<Vec<char>>)
    ensures
        match r {
            Some(x) => strip_prefix(v@, p@) == Some(x@),
            None => strip_prefix(v@, p@) is None,
        },
{
    if starts_with_exec(v, p) {
        Some(slice_of(v, p.len(), v.len()))
    } else {
        None
    }
}

/// `v` split at the first occurrence of `p`, if any.
pub fn split_once_exec(v: &[char], p: &[char]) -> (r: Option<(Vec<char>, Vec<char>)>)
    ensures
        match r {
            Some(x) => split_once(v@, p@) == Some((x.0@, x.1@)),
            None => split_once(v@, p@) is None,
        },
{
    proof {
        lemma_find_from(v@, p@, 0);
    }
    match find_exec(v, p) {
        Some(i) => {
            let n = v.len();
            let m = p.len();
            assert(occurs_at(v@, p@, i as int));
            Some((slice_of(v, 0, i), slice_of(v, i + m, n)))
        },
        None => None,
    }
}

/// Every non-overlapping occurrence of `pat` in `v`, from the left, replaced
/// by `rep`.
pub fn replace_all_exec(v: &[char], pat: &[char], rep: &[char]) -> (r: Vec<char>)
    ensures
        r@ == replace_all(v@, pat@, rep@),
{
    let mut out: Vec<char> = Vec::new();
    let mut i: usize = 0;
    assert(v@.subrange(0, v@.len() as int) =~= v@);
    assert(out@ + replace_all(v@, pat@, rep@) =~= replace_all(v@, pat@, rep@));
    while i < v.len()
        invariant
            i <= v@.len(),
            out@ + replace_all(v@.subrange(i as int, v@.len() as int), pat@, rep@) == replace_all(v@, pat@, rep@),
        decreases v.len() - i,
    {
        let ghost rest = v@.subrange(i as int, v@.len() as int);
        if pat.len() == 0 || v.len() - i < pat.len() {
            proof {
                assert(replace_all(rest, pat@, rep@) == rest);
            }
            let tail = slice_of(v, i, v.len());
            let res = concat(out.as_slice(), tail.as_slice());
            return res;
        }
        if occurs_at_exec(v, pat, i) {
            proof {
                assert(rest.subrange(0, pat@.len() as int) =~= v@.subrange(i as int, i + pat@.len()));
                assert(rest.subrange(pat@.len() as int, rest.len() as int) =~= v@.subrange(i + pat@.len(), v@.len() as int));
            }
            let mut k: usize = 0;
            let ghost out0 = out@;
            while k < rep.len()
                invariant
                    k <= rep@.len(),
                    out@ == out0 + rep@.subrange(0, k as int),
                decreases rep.len() - k,
            {
                out.push(rep[k]);
                assert(rep@.subrange(0, k + 1) =~= rep@.subrange(0, k as int).push(rep@[k as int]));
                k += 1;
            }
            assert(rep@.subrange(0, rep@.len() as int) =~= rep@);
            assert(out@ + replace_all(v@.subrange(i + pat@.len(), v@.len() as int), pat@, rep@)
                =~= out0 + (rep@ + replace_all(v@.subrange(i + pat@.len(), v@.len() as int), pat@, rep@)));
            i = i + pat.len();
        } else {
            proof {
                assert(rest.subrange(0, pat@.len() as int) =~= v@.subrange(i as int, i + pat@.len()));
                assert(rest.subrange(0, pat@.len() as int) != pat@);
                assert(rest.drop_first() =~= v@.subrange(i + 1, v@.len() as int));
                assert(rest[0] == v@[i as int]);
            }
            let ghost out0 = out@;
            out.push(v[i]);
            assert(out@ + replace_all(v@.subrange(i + 1, v@.len() as int), pat@, rep@)
                =~= out0 + (seq![v@[i as int]] + replace_all(v@.subrange(i + 1, v@.len() as int), pat@, rep@)));
            i = i + 1;
        }
    }
    proof {
        assert(v@.subrange(i as int, v@.len() as int) =~= Seq::<char>::empty());
        assert(out@ + Seq::<char>::empty() =~= out@);
    }
    out
}

/// Whether `a` and `b` are equal up to ASCII case (`str::eq_ignore_ascii_case`).
pub fn eq_ignore_ascii_case_exec(a: &[char], b: &[char]) -> (r: bool)
    ensures
        r == eq_ignore_ascii_case(a@, b@),
{
    if a.len() != b.len() {
        return false;
    }
    let mut i: usize = 0;
    while i < a.len()
        invariant
            a@.len() == b@.len(),
            i <= a@.len(),
            forall|j: int| 0 <= j < i ==> ascii_lower(a@[j]) == ascii_lower(b@[j]),
        decreases a.len() - i,
    {
        if ascii_lower_exec(a[i]) != ascii_lower_exec(b[i]) {
            return false;
        }
        i += 1;
    }
    true
}

/// ASCII upper-case letters mapped to lower case, every other character kept.
pub fn ascii_lower_exec(c: char) -> (r: char)
    ensures
        r == ascii_lower(c),
{
    if 'A' <= c && c <= 'Z' {
        let n: u8 = (c as u8) + 32;
        n as char
    } else {
        c
    }
}

/// Positions returned by `last_index_of` lie inside the sequence.
pub proof fn lemma_last_index_of_bound(s: Seq<char>, c: char)
    ensures
        match last_index_of(s, c) {
            Some(i) => 0 <= i < s.len() && s[i] == c,
            None => forall|j: int| 0 <= j < s.len() ==> s[j] != c,
        },
    decreases s.len(),
{
    if s.len() > 0 && s.last() != c {
        lemma_last_index_of_bound(s.drop_last(), c);
        match last_index_of(s.drop_last(), c) {
            Some(i) => {
                assert(s[i] == s.drop_last()[i]);
            },
            None => {
                assert forall|j: int| 0 <= j < s.len() implies s[j] != c by {
                    if j < s.len() - 1 {
                        assert(s[j] == s.drop_last()[j]);
                    }
                }
            },
        }
    }
}

/// Whether two character sequences are equal.
pub fn same_chars(a: &[char], b: &[char]) -> (r: bool)
    ensures
        r == (a@ == b@),
{
    if a.len() != b.len() {
        return false;
    }
    let mut i: usize = 0;
    while i < a.len()
        invariant
            a@.len() == b@.len(),
            i <= a@.len(),
            forall|j: int| 0 <= j < i ==> a@[j] == b@[j],
        decreases a.len() - i,
    {
        if a[i] != b[i] {
            return false;
        }
        i += 1;
    }
    assert(a@ =~= b@);
    true
}

/// Values that can be turned into an owned string (string slices and
/// strings), with the characters they stand for.
pub trait IntoText: Sized {
    /// The characters of the value.
    spec fn text(&self) -> Seq<char>;

    /// The value as an owned string.
    fn into_text(self) -> (r: String)
        ensures
            r@ == self.text(),
    ;
}

impl<'a> IntoText for &'a str {
    open spec fn text(&self) -> Seq<char> {
        (*self)@
    }

    fn into_text(self) -> (r: String) {
        self.to_string()
    }
}

impl IntoText for String {
    open spec fn text(&self) -> Seq<char> {
        self@
    }

    fn into_text(self) -> (r: String) {
        self
    }
}

/// The characters of an optional string.
pub open spec fn opt_text(o: Option<String>) -> Option<Seq<char>> {
    match o {
        Some(s) => Some(s@),
        None => None,
    }
}

/// The characters of each string in a sequence.
pub open spec fn texts(v: Seq<String>) -> Seq<Seq<char>> {
    v.map_values(|s: String| s@)
}

/// A copy of a list of strings.
pub fn clone_strings(v: &Vec<String>) -> (r: Vec<String>)
    ensures
        texts(r@) == texts(v@),
        r@.len() == v@.len(),
{
    let mut r: Vec<String> = Vec::new();
    let mut i: usize = 0;
    while i < v.len()
        invariant
            i <= v@.len(),
            r@.len() == i,
            forall|j: int| 0 <= j < i ==> #[trigger] r@[j]@ == v@[j]@,
        decreases v.len() - i,
    {
        r.push(v[i].clone());
        i += 1;
    }
    assert(texts(r@) =~= texts(v@));
    r
}

/// A copy of an optional string.
pub fn clone_opt(o: &Option<String>) -> (r: Option<String>)
    ensures
        opt_text(r) == opt_text(*o),
{
    match o {
        Some(s) => Some(s.clone()),
        None => None,
    }
}

} // verus!
