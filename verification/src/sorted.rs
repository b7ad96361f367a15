//! The order of strings (`Ord` on `String`: lexicographic by character,
//! which is the order of their UTF-8 bytes) and sorted lists of distinct
//! strings, the form in which sets of names are reported.

use vstd::prelude::*;
use crate::text::{chars_of, same_chars, texts};

verus! {

/// `a` comes strictly before `b` in lexicographic order.
pub open spec fn text_lt(a: Seq<char>, b: Seq<char>) -> bool
    decreases a.len(),
{
    if a.len() == 0 {
        b.len() > 0
    } else if b.len() == 0 {
        false
    } else if a[0] != b[0] {
        a[0] < b[0]
    } else {
        text_lt(a.drop_first(), b.drop_first())
    }
}

/// The list is strictly increasing: sorted, with no repeats.
pub open spec fn strictly_sorted(s: Seq<Seq<char>>) -> bool {
    forall|i: int, j: int| 0 <= i < j < s.len() ==> text_lt(#[trigger] s[i], #[trigger] s[j])
}

/// The list holds exactly the strings that satisfy `member`, each once, in
/// increasing order.
pub open spec fn is_sorted_set_of(s: Seq<Seq<char>>, items: Seq<Seq<char>>) -> bool {
    &&& strictly_sorted(s)
    &&& forall|x: Seq<char>| s.contains(x) <==> items.contains(x)
}

/// No string comes before itself.
pub proof fn lemma_text_lt_irreflexive(a: Seq<char>)
    ensures
        !text_lt(a, a),
    decreases a.len(),
{
    if a.len() > 0 {
        lemma_text_lt_irreflexive(a.drop_first());
    }
}

/// The order is transitive.
pub proof fn lemma_text_lt_transitive(a: Seq<char>, b: Seq<char>, c: Seq<char>)
    requires
        text_lt(a, b),
        text_lt(b, c),
    ensures
        text_lt(a, c),
    decreases a.len(),
{
    if a.len() > 0 && b.len() > 0 && c.len() > 0 {
        if a[0] == b[0] && b[0] == c[0] {
            lemma_text_lt_transitive(a.drop_first(), b.drop_first(), c.drop_first());
        }
    }
}

/// Two different strings are ordered one way or the other.
pub proof fn lemma_text_lt_total(a: Seq<char>, b: Seq<char>)
    requires
        a != b,
    ensures
        text_lt(a, b) || text_lt(b, a),
    decreases a.len(),
{
    if a.len() > 0 && b.len() > 0 && a[0] == b[0] {
        if a.drop_first() == b.drop_first() {
            assert(a =~= seq![a[0]] + a.drop_first());
            assert(b =~= seq![b[0]] + b.drop_first());
        }
        lemma_text_lt_total(a.drop_first(), b.drop_first());
    } else if a.len() > 0 && b.len() > 0 {
    } else if a.len() == 0 && b.len() == 0 {
        assert(a =~= b);
    }
}

/// The order is asymmetric.
pub proof fn lemma_text_lt_asymmetric(a: Seq<char>, b: Seq<char>)
    requires
        text_lt(a, b),
    ensures
        !text_lt(b, a),
{
    if text_lt(b, a) {
        lemma_text_lt_transitive(a, b, a);
        lemma_text_lt_irreflexive(a);
    }
}

/// Whether `a` comes strictly before `b`.
pub fn text_lt_exec(a: &[char], b: &[char]) -> (r: bool)
    ensures
        r == text_lt(a@, b@),
{
    let mut i: usize = 0;
    assert(a@.subrange(0, a@.len() as int) =~= a@);
    assert(b@.subrange(0, b@.len() as int) =~= b@);
    while i < a.len() && i < b.len() && a[i] == b[i]
        invariant
            i <= a@.len(),
            i <= b@.len(),
            text_lt(a@, b@) == text_lt(a@.subrange(i as int, a@.len() as int), b@.subrange(i as int, b@.len() as int)),
        decreases a.len() - i,
    {
        let ghost sa = a@.subrange(i as int, a@.len() as int);
        let ghost sb = b@.subrange(i as int, b@.len() as int);
        assert(sa.drop_first() =~= a@.subrange(i + 1, a@.len() as int));
        assert(sb.drop_first() =~= b@.subrange(i + 1, b@.len() as int));
        i += 1;
    }
    let ghost sa = a@.subrange(i as int, a@.len() as int);
    let ghost sb = b@.subrange(i as int, b@.len() as int);
    if i == a.len() {
        i < b.len()
    } else if i == b.len() {
        false
    } else {
        assert(sa[0] == a@[i as int] && sb[0] == b@[i as int]);
        a[i] < b[i]
    }
}

/// Where `x` belongs in the strictly sorted list `v`: the first position
/// whose string does not come before `x`, and whether that string is `x`.
pub fn sorted_position(v: &Vec<String>, x: &[char]) -> (r: (usize, bool))
    requires
        strictly_sorted(texts(v@)),
    ensures
        r.0 <= v@.len(),
        forall|k: int| 0 <= k < r.0 ==> text_lt(#[trigger] texts(v@)[k], x@),
        forall|k: int| r.0 <= k < v@.len() ==> !text_lt(#[trigger] texts(v@)[k], x@),
        r.1 == (r.0 < v@.len() && texts(v@)[r.0 as int] == x@),
        r.1 == texts(v@).contains(x@),
{
    let ghost t = texts(v@);
    let mut i: usize = 0;
    while i < v.len()
        invariant
            t == texts(v@),
            strictly_sorted(t),
            i <= v@.len(),
            forall|k: int| 0 <= k < i ==> text_lt(#[trigger] t[k], x@),
        decreases v.len() - i,
    {
        let cur = chars_of(v[i].as_str());
        assert(cur@ == t[i as int]);
        if !text_lt_exec(cur.as_slice(), x) {
            proof {
                assert forall|k: int| i <= k < v@.len() implies !text_lt(#[trigger] t[k], x@) by {
                    if k > i {
                        assert(text_lt(t[i as int], t[k]));
                        if text_lt(t[k], x@) {
                            lemma_text_lt_transitive(t[i as int], t[k], x@);
                        }
                    }
                }
            }
            let same = same_chars(cur.as_slice(), x);
            proof {
                if t.contains(x@) {
                    let k = choose|k: int| 0 <= k < t.len() && t[k] == x@;
                    if k < i {
                        lemma_text_lt_irreflexive(x@);
                    } else if k > i {
                        assert(text_lt(t[i as int], t[k]));
                        if !same {
                            lemma_text_lt_total(t[i as int], x@);
                        }
                    }
                }
                if same {
                    assert(t[i as int] == x@);
                }
            }
            return (i, same);
        }
        i += 1;
    }
    proof {
        if t.contains(x@) {
            let k = choose|k: int| 0 <= k < t.len() && t[k] == x@;
            lemma_text_lt_irreflexive(x@);
        }
    }
    (i, false)
}

/// Inserting a string at the position `sorted_position` finds for it keeps a
/// strictly sorted list strictly sorted.
pub proof fn lemma_insert_sorted(t: Seq<Seq<char>>, pos: int, x: Seq<char>)
    requires
        strictly_sorted(t),
        0 <= pos <= t.len(),
        forall|k: int| 0 <= k < pos ==> text_lt(#[trigger] t[k], x),
        forall|k: int| pos <= k < t.len() ==> !text_lt(#[trigger] t[k], x),
        !t.contains(x),
    ensures
        strictly_sorted(t.insert(pos, x)),
        forall|y: Seq<char>| #[trigger] t.insert(pos, x).contains(y) <==> (t.contains(y) || y == x),
{
    let t2 = t.insert(pos, x);
    assert forall|i: int, j: int| 0 <= i < j < t2.len() implies text_lt(#[trigger] t2[i], #[trigger] t2[j]) by {
        if j < pos {
            assert(t2[i] == t[i] && t2[j] == t[j]);
        } else if j == pos {
            assert(t2[i] == t[i]);
        } else if i < pos {
            assert(t2[i] == t[i] && t2[j] == t[j - 1]);
            assert(text_lt(t[i], x));
            assert(!text_lt(t[j - 1], x));
            assert(t[j - 1] != x);
            lemma_text_lt_total(t[j - 1], x);
            lemma_text_lt_transitive(t[i], x, t[j - 1]);
        } else if i == pos {
            assert(t2[j] == t[j - 1]);
            assert(!text_lt(t[j - 1], x));
            assert(t[j - 1] != x);
            lemma_text_lt_total(t[j - 1], x);
        } else {
            assert(t2[i] == t[i - 1] && t2[j] == t[j - 1]);
        }
    }
    assert forall|y: Seq<char>| #[trigger] t2.contains(y) <==> (t.contains(y) || y == x) by {
        if t2.contains(y) {
            let k = choose|k: int| 0 <= k < t2.len() && t2[k] == y;
            if k < pos {
                assert(t[k] == y);
            } else if k > pos {
                assert(t[k - 1] == y);
            }
        }
        if t.contains(y) {
            let k = choose|k: int| 0 <= k < t.len() && t[k] == y;
            if k < pos {
                assert(t2[k] == y);
            } else {
                assert(t2[k + 1] == y);
            }
        }
        if y == x {
            assert(t2[pos] == y);
        }
    }
}

/// Adds `x` to the strictly sorted list `v`, unless it is already there.
pub fn insert_sorted_unique(v: &mut Vec<String>, x: String)
    requires
        strictly_sorted(texts(old(v)@)),
    ensures
        strictly_sorted(texts(final(v)@)),
        forall|y: Seq<char>| texts(final(v)@).contains(y) <==> (texts(old(v)@).contains(y) || y == x@),
{
    let xc = chars_of(x.as_str());
    let (pos, found) = sorted_position(v, xc.as_slice());
    if found {
        return;
    }
    let ghost t = texts(v@);
    v.insert(pos, x);
    proof {
        assert(texts(v@) =~= t.insert(pos as int, xc@));
        lemma_insert_sorted(t, pos as int, xc@);
    }
}

/// What a list holds after one more string is appended.
pub proof fn lemma_contains_push(s: Seq<Seq<char>>, e: Seq<char>)
    ensures
        forall|x: Seq<char>| #[trigger] s.push(e).contains(x) <==> (s.contains(x) || x == e),
{
    assert forall|x: Seq<char>| #[trigger] s.push(e).contains(x) <==> (s.contains(x) || x == e) by {
        if s.push(e).contains(x) && x != e {
            let k = choose|k: int| 0 <= k < s.push(e).len() && s.push(e)[k] == x;
            assert(s[k] == x);
        }
        if x == e {
            assert(s.push(e)[s.len() as int] == x);
        }
        if s.contains(x) {
            let k = choose|k: int| 0 <= k < s.len() && s[k] == x;
            assert(s.push(e)[k] == x);
        }
    }
}

/// What a concatenation holds.
pub proof fn lemma_contains_concat(a: Seq<Seq<char>>, b: Seq<Seq<char>>)
    ensures
        forall|x: Seq<char>| #[trigger] (a + b).contains(x) <==> (a.contains(x) || b.contains(x)),
{
    assert forall|x: Seq<char>| #[trigger] (a + b).contains(x) <==> (a.contains(x) || b.contains(x)) by {
        if (a + b).contains(x) {
            let k = choose|k: int| 0 <= k < (a + b).len() && (a + b)[k] == x;
            if k < a.len() {
                assert(a[k] == x);
            } else {
                assert(b[k - a.len()] == x);
            }
        }
        if a.contains(x) {
            let k = choose|k: int| 0 <= k < a.len() && a[k] == x;
            assert((a + b)[k] == x);
        }
        if b.contains(x) {
            let k = choose|k: int| 0 <= k < b.len() && b[k] == x;
            assert((a + b)[k + a.len()] == x);
        }
    }
}


/// A strictly sorted list is determined by what it holds: two strictly
/// sorted lists with the same strings are the same list. (So a sorted set
/// of names does not depend on the order the names were met in.)
pub proof fn lemma_sorted_set_unique(a: Seq<Seq<char>>, b: Seq<Seq<char>>)
    requires
        strictly_sorted(a),
        strictly_sorted(b),
        forall|x: Seq<char>| a.contains(x) <==> b.contains(x),
    ensures
        a == b,
    decreases a.len(),
{
    if a.len() == 0 {
        if b.len() > 0 {
            assert(b.contains(b[0]));
        }
        assert(a =~= b);
    } else if b.len() == 0 {
        assert(a.contains(a[0]));
    } else {
        assert(a.contains(a[0]));
        assert(b.contains(b[0]));
        let j = choose|j: int| 0 <= j < b.len() && b[j] == a[0];
        let k = choose|k: int| 0 <= k < a.len() && a[k] == b[0];
        if a[0] != b[0] {
            assert(j > 0 && k > 0);
            assert(text_lt(b[0], b[j]));
            assert(text_lt(a[0], a[k]));
            lemma_text_lt_asymmetric(b[0], a[0]);
        }
        let ta = a.drop_first();
        let tb = b.drop_first();
        assert forall|i: int, m: int| 0 <= i < m < ta.len() implies text_lt(#[trigger] ta[i], #[trigger] ta[m]) by {
            assert(ta[i] == a[i + 1] && ta[m] == a[m + 1]);
        }
        assert forall|i: int, m: int| 0 <= i < m < tb.len() implies text_lt(#[trigger] tb[i], #[trigger] tb[m]) by {
            assert(tb[i] == b[i + 1] && tb[m] == b[m + 1]);
        }
        assert forall|x: Seq<char>| ta.contains(x) <==> tb.contains(x) by {
            if ta.contains(x) {
                let p = choose|p: int| 0 <= p < ta.len() && ta[p] == x;
                assert(a[p + 1] == x);
                assert(text_lt(a[0], a[p + 1]));
                lemma_text_lt_irreflexive(x);
                assert(b.contains(x));
                let q = choose|q: int| 0 <= q < b.len() && b[q] == x;
                assert(q != 0);
                assert(tb[q - 1] == x);
            }
            if tb.contains(x) {
                let p = choose|p: int| 0 <= p < tb.len() && tb[p] == x;
                assert(b[p + 1] == x);
                assert(text_lt(b[0], b[p + 1]));
                lemma_text_lt_irreflexive(x);
                assert(a.contains(x));
                let q = choose|q: int| 0 <= q < a.len() && a[q] == x;
                assert(q != 0);
                assert(ta[q - 1] == x);
            }
        }
        lemma_sorted_set_unique(ta, tb);
        assert(a =~= seq![a[0]] + ta);
        assert(b =~= seq![b[0]] + tb);
    }
}

/// The numbers increase strictly.
pub open spec fn strictly_increasing(s: Seq<u64>) -> bool {
    forall|i: int, j: int| 0 <= i < j < s.len() ==> #[trigger] s[i] < #[trigger] s[j]
}

/// The list holds exactly the numbers of `items`, each once, in increasing
/// order.
pub open spec fn is_increasing_set_of(s: Seq<u64>, items: Seq<u64>) -> bool {
    &&& strictly_increasing(s)
    &&& forall|x: u64| s.contains(x) <==> items.contains(x)
}

/// What a list of numbers holds after one more is appended.
pub proof fn lemma_contains_push_u64(s: Seq<u64>, e: u64)
    ensures
        forall|x: u64| #[trigger] s.push(e).contains(x) <==> (s.contains(x) || x == e),
{
    assert forall|x: u64| #[trigger] s.push(e).contains(x) <==> (s.contains(x) || x == e) by {
        if s.push(e).contains(x) && x != e {
            let k = choose|k: int| 0 <= k < s.push(e).len() && s.push(e)[k] == x;
            assert(s[k] == x);
        }
        if x == e {
            assert(s.push(e)[s.len() as int] == x);
        }
        if s.contains(x) {
            let k = choose|k: int| 0 <= k < s.len() && s[k] == x;
            assert(s.push(e)[k] == x);
        }
    }
}

/// Adds `x` to the strictly increasing list `v`, unless it is already there.
pub fn insert_sorted_u64(v: &mut Vec<u64>, x: u64)
    requires
        strictly_increasing(old(v)@),
    ensures
        strictly_increasing(final(v)@),
        forall|y: u64| final(v)@.contains(y) <==> (old(v)@.contains(y) || y == x),
{
    let ghost s = v@;
    let mut j: usize = 0;
    while j < v.len() && v[j] < x
        invariant
            j <= v@.len(),
            v@ == s,
            strictly_increasing(s),
            forall|k: int| 0 <= k < j ==> #[trigger] s[k] < x,
        decreases v.len() - j,
    {
        j += 1;
    }
    if j < v.len() && v[j] == x {
        assert(s[j as int] == x);
        return;
    }
    assert forall|k: int| j <= k < s.len() implies #[trigger] s[k] > x by {
        if k > j {
            assert(s[j as int] < s[k]);
        }
    }
    v.insert(j, x);
    let ghost t = v@;
    assert(t =~= s.insert(j as int, x));
    assert forall|a: int, b: int| 0 <= a < b < t.len() implies #[trigger] t[a] < #[trigger] t[b] by {
        if b < j {
            assert(s[a] < s[b]);
        } else if b == j {
            assert(s[a] < x);
        } else if a < j {
            assert(s[a] < x && x < s[b - 1]);
        } else if a == j {
            assert(s[b - 1] > x);
        } else {
            assert(s[a - 1] < s[b - 1]);
        }
    }
    assert forall|y: u64| t.contains(y) <==> (s.contains(y) || y == x) by {
        if t.contains(y) {
            let k = choose|k: int| 0 <= k < t.len() && t[k] == y;
            if k < j {
                assert(s[k] == y);
            } else if k > j {
                assert(s[k - 1] == y);
            }
        }
        if y == x {
            assert(t[j as int] == y);
        }
        if s.contains(y) {
            let k = choose|k: int| 0 <= k < s.len() && s[k] == y;
            if k < j {
                assert(t[k] == y);
            } else {
                assert(t[k + 1] == y);
            }
        }
    }
}

} // verus!
