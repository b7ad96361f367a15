//! The figures a collection reports about its items: the distinct values
//! seen (in order of first appearance, or sorted), the boolean values
//! observed, and minimum, maximum and total of the city-object counts.

use vstd::prelude::*;
use crate::stac::accumulator::ItemMetadata;
use crate::stac::models::CityObjectsCount;
use crate::text::{texts, chars_of, same_chars};
use crate::sorted::{is_sorted_set_of, insert_sorted_unique, lemma_contains_push};

verus! {

// ---------------------------------------------------------------------------
// Distinct values in order of first appearance

/// The distinct strings of `s`, each where it first appears.
pub open spec fn first_occurrences(s: Seq<Seq<char>>) -> Seq<Seq<char>>
    decreases s.len(),
{
    if s.len() == 0 {
        seq![]
    } else {
        let r = first_occurrences(s.drop_last());
        if r.contains(s.last()) {
            r
        } else {
            r.push(s.last())
        }
    }
}

/// The first occurrences hold each string of `s` once, and nothing else.
pub proof fn lemma_first_occurrences(s: Seq<Seq<char>>)
    ensures
        forall|i: int, j: int| 0 <= i < j < first_occurrences(s).len()
            ==> #[trigger] first_occurrences(s)[i] != #[trigger] first_occurrences(s)[j],
        forall|x: Seq<char>| #[trigger] first_occurrences(s).contains(x) <==> s.contains(x),
    decreases s.len(),
{
    if s.len() > 0 {
        let p = s.drop_last();
        lemma_first_occurrences(p);
        let r = first_occurrences(p);
        assert forall|x: Seq<char>| #[trigger] s.contains(x) <==> (p.contains(x) || x == s.last()) by {
            if s.contains(x) {
                let k = choose|k: int| 0 <= k < s.len() && s[k] == x;
                if k < s.len() - 1 {
                    assert(p[k] == x);
                }
            }
            if p.contains(x) {
                let k = choose|k: int| 0 <= k < p.len() && p[k] == x;
                assert(s[k] == x);
            }
            if x == s.last() {
                assert(s[s.len() - 1] == x);
            }
        }
        if !r.contains(s.last()) {
            let t = r.push(s.last());
            assert forall|x: Seq<char>| #[trigger] t.contains(x) <==> (r.contains(x) || x == s.last()) by {
                if t.contains(x) {
                    let k = choose|k: int| 0 <= k < t.len() && t[k] == x;
                    if k < r.len() {
                        assert(r[k] == x);
                    }
                }
                if r.contains(x) {
                    let k = choose|k: int| 0 <= k < r.len() && r[k] == x;
                    assert(t[k] == x);
                }
                if x == s.last() {
                    assert(t[r.len() as int] == x);
                }
            }
            assert forall|i: int, j: int| 0 <= i < j < t.len() implies #[trigger] t[i] != #[trigger] t[j] by {
                if j == r.len() {
                    assert(t[i] == r[i]);
                    assert(r.contains(r[i]));
                } else {
                    assert(t[i] == r[i] && t[j] == r[j]);
                }
            }
        }
    }
}

/// Whether `x` is one of the strings of `v`.
pub fn contains_text(v: &Vec<String>, x: &str) -> (r: bool)
    ensures
        r == texts(v@).contains(x@),
{
    let xc = chars_of(x);
    let mut i: usize = 0;
    while i < v.len()
        invariant
            i <= v@.len(),
            xc@ == x@,
            forall|j: int| 0 <= j < i ==> (#[trigger] v@[j])@ != x@,
        decreases v.len() - i,
    {
        let c = chars_of(v[i].as_str());
        if same_chars(c.as_slice(), xc.as_slice()) {
            assert(texts(v@)[i as int] == x@);
            return true;
        }
        i += 1;
    }
    proof {
        if texts(v@).contains(x@) {
            let k = choose|k: int| 0 <= k < texts(v@).len() && texts(v@)[k] == x@;
            assert(v@[k]@ == x@);
        }
    }
    false
}

/// Appends `x` to `v` unless `v` already holds it.
pub fn push_new(v: &mut Vec<String>, x: String)
    ensures
        texts(final(v)@) == (if texts(old(v)@).contains(x@) { texts(old(v)@) } else { texts(old(v)@).push(x@) }),
{
    if !contains_text(v, x.as_str()) {
        let ghost before = texts(v@);
        v.push(x);
        assert(texts(v@) =~= before.push(x@));
    }
}

/// Adds each of `items` not yet in `acc` to its end, in order.
pub fn extend_new(acc: &mut Vec<String>, items: &Vec<String>)
    ensures
        texts(final(acc)@) == first_occurrences_after(texts(old(acc)@), texts(items@)),
{
    let mut j: usize = 0;
    let ghost start = texts(acc@);
    while j < items.len()
        invariant
            j <= items@.len(),
            texts(acc@) == first_occurrences_after(start, texts(items@).take(j as int)),
        decreases items.len() - j,
    {
        let ghost t = texts(items@);
        assert(t.take(j + 1).drop_last() =~= t.take(j as int));
        assert(t.take(j + 1).last() == items@[j as int]@);
        push_new(acc, items[j].clone());
        j += 1;
    }
    assert(texts(items@).take(items@.len() as int) =~= texts(items@));
}

/// `acc` extended by the strings of `s` not yet in it, in order.
pub open spec fn first_occurrences_after(acc: Seq<Seq<char>>, s: Seq<Seq<char>>) -> Seq<Seq<char>>
    decreases s.len(),
{
    if s.len() == 0 {
        acc
    } else {
        let r = first_occurrences_after(acc, s.drop_last());
        if r.contains(s.last()) {
            r
        } else {
            r.push(s.last())
        }
    }
}

/// Extending the first occurrences of `a` by those of `b` gives the first
/// occurrences of `a + b`.
pub proof fn lemma_first_occurrences_concat(a: Seq<Seq<char>>, b: Seq<Seq<char>>)
    ensures
        first_occurrences_after(first_occurrences(a), b) == first_occurrences(a + b),
    decreases b.len(),
{
    if b.len() == 0 {
        assert(a + b =~= a);
    } else {
        lemma_first_occurrences_concat(a, b.drop_last());
        assert((a + b).drop_last() =~= a + b.drop_last());
        assert((a + b).last() == b.last());
    }
}

// ---------------------------------------------------------------------------
// What the items report, in item order

/// The versions the items report.
pub open spec fn versions_of<B>(ms: Seq<ItemMetadata<B>>) -> Seq<Seq<char>>
    decreases ms.len(),
{
    if ms.len() == 0 {
        seq![]
    } else {
        let rest = versions_of(ms.drop_last());
        match ms.last().city3d_version {
            Some(v) => rest.push(v@),
            None => rest,
        }
    }
}

/// The strings of an optional list (none for no list).
pub open spec fn opt_texts(o: Option<Vec<String>>) -> Seq<Seq<char>> {
    match o {
        Some(v) => texts(v@),
        None => seq![],
    }
}

/// The levels of detail the items report, item after item.
pub open spec fn lods_of<B>(ms: Seq<ItemMetadata<B>>) -> Seq<Seq<char>>
    decreases ms.len(),
{
    if ms.len() == 0 {
        seq![]
    } else {
        lods_of(ms.drop_last()) + opt_texts(ms.last().city3d_lods)
    }
}

/// The city-object types the items report, item after item.
pub open spec fn types_of<B>(ms: Seq<ItemMetadata<B>>) -> Seq<Seq<char>>
    decreases ms.len(),
{
    if ms.len() == 0 {
        seq![]
    } else {
        types_of(ms.drop_last()) + opt_texts(ms.last().city3d_co_types)
    }
}

/// The number an item's city-object count contributes: the count itself,
/// or the total of its statistics.
pub open spec fn count_value(c: CityObjectsCount) -> u64 {
    match c {
        CityObjectsCount::Integer(n) => n,
        CityObjectsCount::Statistics { total, .. } => total,
    }
}

/// The city-object counts the items report.
pub open spec fn counts_of<B>(ms: Seq<ItemMetadata<B>>) -> Seq<u64>
    decreases ms.len(),
{
    if ms.len() == 0 {
        seq![]
    } else {
        let rest = counts_of(ms.drop_last());
        match ms.last().city3d_city_objects {
            Some(c) => rest.push(count_value(c)),
            None => rest,
        }
    }
}

/// Which of the three boolean facts of an item.
#[derive(Debug, Clone, Copy, PartialEq, Eq, Structural)]
pub enum Flag {
    SemanticSurfaces,
    Textures,
    Materials,
}

/// The value an item reports for a boolean fact.
pub open spec fn flag_of<B>(m: ItemMetadata<B>, f: Flag) -> Option<bool> {
    match f {
        Flag::SemanticSurfaces => m.city3d_semantic_surfaces,
        Flag::Textures => m.city3d_textures,
        Flag::Materials => m.city3d_materials,
    }
}

/// The values the items report for a boolean fact.
pub open spec fn flags_of<B>(ms: Seq<ItemMetadata<B>>, f: Flag) -> Seq<bool>
    decreases ms.len(),
{
    if ms.len() == 0 {
        seq![]
    } else {
        let rest = flags_of(ms.drop_last(), f);
        match flag_of(ms.last(), f) {
            Some(b) => rest.push(b),
            None => rest,
        }
    }
}

/// What a list of booleans holds after one more is appended.
proof fn lemma_bool_contains_push(s: Seq<bool>, x: bool, b: bool)
    ensures
        s.push(x).contains(b) <==> (s.contains(b) || x == b),
{
    if s.push(x).contains(b) && x != b {
        let k = choose|k: int| 0 <= k < s.push(x).len() && s.push(x)[k] == b;
        assert(s[k] == b);
    }
    if x == b {
        assert(s.push(x)[s.len() as int] == b);
    }
    if s.contains(b) {
        let k = choose|k: int| 0 <= k < s.len() && s[k] == b;
        assert(s.push(x)[k] == b);
    }
}

/// Each boolean fact of the items is read from its own field: a value is
/// among the semantic-surface values exactly when some item reports it in
/// `city3d_semantic_surfaces`, among the texture values exactly when some
/// item reports it in `city3d_textures`, and among the material values
/// exactly when some item reports it in `city3d_materials`.
pub proof fn lemma_flags_read_their_fields<B>(ms: Seq<ItemMetadata<B>>, b: bool)
    ensures
        flags_of(ms, Flag::SemanticSurfaces).contains(b)
            <==> exists|i: int| 0 <= i < ms.len() && (#[trigger] ms[i]).city3d_semantic_surfaces == Some(b),
        flags_of(ms, Flag::Textures).contains(b)
            <==> exists|i: int| 0 <= i < ms.len() && (#[trigger] ms[i]).city3d_textures == Some(b),
        flags_of(ms, Flag::Materials).contains(b)
            <==> exists|i: int| 0 <= i < ms.len() && (#[trigger] ms[i]).city3d_materials == Some(b),
    decreases ms.len(),
{
    if ms.len() > 0 {
        let p = ms.drop_last();
        let m = ms.last();
        let k = ms.len() - 1;
        lemma_flags_read_their_fields(p, b);
        assert(ms[k] == m);
        assert forall|i: int| 0 <= i < p.len() implies #[trigger] p[i] == ms[i] by {}
        match m.city3d_semantic_surfaces {
            Some(x) => lemma_bool_contains_push(flags_of(p, Flag::SemanticSurfaces), x, b),
            None => {},
        }
        match m.city3d_textures {
            Some(x) => lemma_bool_contains_push(flags_of(p, Flag::Textures), x, b),
            None => {},
        }
        match m.city3d_materials {
            Some(x) => lemma_bool_contains_push(flags_of(p, Flag::Materials), x, b),
            None => {},
        }
        if exists|i: int| 0 <= i < ms.len() && (#[trigger] ms[i]).city3d_semantic_surfaces == Some(b) {
            let i = choose|i: int| 0 <= i < ms.len() && (#[trigger] ms[i]).city3d_semantic_surfaces == Some(b);
            if i < k { assert(p[i] == ms[i]); }
        }
        if exists|i: int| 0 <= i < ms.len() && (#[trigger] ms[i]).city3d_textures == Some(b) {
            let i = choose|i: int| 0 <= i < ms.len() && (#[trigger] ms[i]).city3d_textures == Some(b);
            if i < k { assert(p[i] == ms[i]); }
        }
        if exists|i: int| 0 <= i < ms.len() && (#[trigger] ms[i]).city3d_materials == Some(b) {
            let i = choose|i: int| 0 <= i < ms.len() && (#[trigger] ms[i]).city3d_materials == Some(b);
            if i < k { assert(p[i] == ms[i]); }
        }
        if exists|i: int| 0 <= i < p.len() && (#[trigger] p[i]).city3d_semantic_surfaces == Some(b) {
            let i = choose|i: int| 0 <= i < p.len() && (#[trigger] p[i]).city3d_semantic_surfaces == Some(b);
            assert(ms[i] == p[i]);
        }
        if exists|i: int| 0 <= i < p.len() && (#[trigger] p[i]).city3d_textures == Some(b) {
            let i = choose|i: int| 0 <= i < p.len() && (#[trigger] p[i]).city3d_textures == Some(b);
            assert(ms[i] == p[i]);
        }
        if exists|i: int| 0 <= i < p.len() && (#[trigger] p[i]).city3d_materials == Some(b) {
            let i = choose|i: int| 0 <= i < p.len() && (#[trigger] p[i]).city3d_materials == Some(b);
            assert(ms[i] == p[i]);
        }
    }
}

// ---------------------------------------------------------------------------
// Boolean values observed

/// The distinct values of `s` in increasing order: `false` before `true`.
pub open spec fn bool_set(s: Seq<bool>) -> Seq<bool> {
    (if s.contains(false) { seq![false] } else { seq![] }) + (if s.contains(true) { seq![true] } else { seq![] })
}

/// The distinct values of `flags`, `false` first (a set of booleans,
/// sorted).
pub fn bool_values(flags: &Vec<bool>) -> (r: Vec<bool>)
    ensures
        r@ == bool_set(flags@),
{
    let mut has_false = false;
    let mut has_true = false;
    let mut i: usize = 0;
    while i < flags.len()
        invariant
            i <= flags@.len(),
            has_false == flags@.take(i as int).contains(false),
            has_true == flags@.take(i as int).contains(true),
        decreases flags.len() - i,
    {
        let ghost p = flags@.take(i as int);
        assert(flags@.take(i + 1) =~= p.push(flags@[i as int]));
        proof {
            assert forall|b: bool| #[trigger] p.push(flags@[i as int]).contains(b) <==> (p.contains(b) || b == flags@[i as int]) by {
                let q = p.push(flags@[i as int]);
                if q.contains(b) {
                    let k = choose|k: int| 0 <= k < q.len() && q[k] == b;
                    if k < p.len() {
                        assert(p[k] == b);
                    }
                }
                if p.contains(b) {
                    let k = choose|k: int| 0 <= k < p.len() && p[k] == b;
                    assert(q[k] == b);
                }
                if b == flags@[i as int] {
                    assert(q[p.len() as int] == b);
                }
            }
        }
        if flags[i] {
            has_true = true;
        } else {
            has_false = true;
        }
        i += 1;
    }
    assert(flags@.take(flags@.len() as int) =~= flags@);
    let mut r: Vec<bool> = Vec::new();
    if has_false {
        r.push(false);
    }
    if has_true {
        r.push(true);
    }
    assert(r@ =~= bool_set(flags@));
    r
}

// ---------------------------------------------------------------------------
// Minimum, maximum and total

/// The sum of a sequence of integers.
pub open spec fn seq_sum(s: Seq<int>) -> int
    decreases s.len(),
{
    if s.len() == 0 {
        0
    } else {
        seq_sum(s.drop_last()) + s.last()
    }
}

/// The smallest element of a non-empty sequence.
pub open spec fn seq_min(s: Seq<int>) -> int
    decreases s.len(),
{
    if s.len() <= 1 {
        s[0]
    } else {
        let m = seq_min(s.drop_last());
        if s.last() < m {
            s.last()
        } else {
            m
        }
    }
}

/// The largest element of a non-empty sequence.
pub open spec fn seq_max(s: Seq<int>) -> int
    decreases s.len(),
{
    if s.len() <= 1 {
        s[0]
    } else {
        let m = seq_max(s.drop_last());
        if s.last() > m {
            s.last()
        } else {
            m
        }
    }
}

/// Unsigned integers as integers.
pub open spec fn u64_ints(s: Seq<u64>) -> Seq<int> {
    s.map_values(|x: u64| x as int)
}

/// Signed integers as integers.
pub open spec fn i64_ints(s: Seq<i64>) -> Seq<int> {
    s.map_values(|x: i64| x as int)
}

/// The minimum and maximum of a non-empty sequence are elements of it and
/// bound every element.
pub proof fn lemma_min_max_bound(s: Seq<int>)
    requires
        s.len() > 0,
    ensures
        s.contains(seq_min(s)),
        s.contains(seq_max(s)),
        forall|i: int| 0 <= i < s.len() ==> seq_min(s) <= #[trigger] s[i] <= seq_max(s),
    decreases s.len(),
{
    if s.len() == 1 {
        assert(s[0] == seq_min(s));
    } else {
        let p = s.drop_last();
        lemma_min_max_bound(p);
        assert forall|i: int| 0 <= i < s.len() implies seq_min(s) <= #[trigger] s[i] <= seq_max(s) by {
            if i < s.len() - 1 {
                assert(s[i] == p[i]);
            }
        }
        let kmin = choose|k: int| 0 <= k < p.len() && p[k] == seq_min(p);
        let kmax = choose|k: int| 0 <= k < p.len() && p[k] == seq_max(p);
        assert(s[kmin] == p[kmin]);
        assert(s[kmax] == p[kmax]);
        assert(s[s.len() - 1] == s.last());
    }
}

/// Of counts that are not negative, the minimum is at most the maximum and
/// the maximum at most the total.
pub proof fn lemma_stats_order(s: Seq<int>)
    requires
        s.len() > 0,
        forall|i: int| 0 <= i < s.len() ==> #[trigger] s[i] >= 0,
    ensures
        seq_min(s) <= seq_max(s),
        seq_max(s) <= seq_sum(s),
    decreases s.len(),
{
    lemma_min_max_bound(s);
    lemma_element_le_sum(s);
    let k = choose|k: int| 0 <= k < s.len() && s[k] == seq_max(s);
    assert(s[k] <= seq_sum(s));
}

/// Each element of a sequence of non-negative integers is at most its sum.
pub proof fn lemma_element_le_sum(s: Seq<int>)
    requires
        forall|i: int| 0 <= i < s.len() ==> #[trigger] s[i] >= 0,
    ensures
        seq_sum(s) >= 0,
        forall|i: int| 0 <= i < s.len() ==> #[trigger] s[i] <= seq_sum(s),
    decreases s.len(),
{
    if s.len() > 0 {
        let p = s.drop_last();
        assert forall|i: int| 0 <= i < p.len() implies #[trigger] p[i] >= 0 by {
            assert(p[i] == s[i]);
        }
        lemma_element_le_sum(p);
        assert forall|i: int| 0 <= i < s.len() implies #[trigger] s[i] <= seq_sum(s) by {
            if i < s.len() - 1 {
                assert(s[i] == p[i]);
            }
        }
    }
}

/// The sum of a prefix of non-negative integers is at most the whole sum.
pub proof fn lemma_prefix_sum_le(s: Seq<int>, k: int)
    requires
        0 <= k <= s.len(),
        forall|i: int| 0 <= i < s.len() ==> #[trigger] s[i] >= 0,
    ensures
        0 <= seq_sum(s.take(k)) <= seq_sum(s),
    decreases s.len(),
{
    if k == s.len() {
        assert(s.take(k) =~= s);
        lemma_element_le_sum(s);
    } else {
        let p = s.drop_last();
        assert forall|i: int| 0 <= i < p.len() implies #[trigger] p[i] >= 0 by {
            assert(p[i] == s[i]);
        }
        lemma_prefix_sum_le(p, k);
        assert(p.take(k) =~= s.take(k));
        assert(s.last() == s[s.len() - 1]);
    }
}

/// The statistics of a step: the minimum, maximum and sum of `s.take(i + 1)`
/// from those of `s.take(i)`.
proof fn lemma_stats_step(s: Seq<int>, i: int)
    requires
        0 <= i < s.len(),
    ensures
        s.take(i + 1).drop_last() == s.take(i),
        s.take(i + 1).last() == s[i],
        seq_sum(s.take(i + 1)) == seq_sum(s.take(i)) + s[i],
{
    assert(s.take(i + 1).drop_last() =~= s.take(i));
}

/// Minimum, maximum and total of unsigned counts, none when there are
/// none. The total must fit in a `u64`.
pub fn u64_stats(v: &Vec<u64>) -> (r: Option<(u64, u64, u64)>)
    requires
        seq_sum(u64_ints(v@)) <= u64::MAX,
    ensures
        r is None <==> v@.len() == 0,
        r matches Some((mn, mx, total)) ==> mn == seq_min(u64_ints(v@)) && mx == seq_max(u64_ints(v@))
            && total == seq_sum(u64_ints(v@)),
{
    if v.len() == 0 {
        return None;
    }
    let ghost s = u64_ints(v@);
    let mut mn: u64 = v[0];
    let mut mx: u64 = v[0];
    let mut total: u64 = v[0];
    assert(s.take(1).len() == 1);
    assert(s.take(1).drop_last() =~= seq![]);
    assert(s.take(1).last() == s[0]);
    assert(seq_sum(s.take(1).drop_last()) == 0);
    assert(seq_sum(s.take(1)) == s[0]);
    let mut i: usize = 1;
    while i < v.len()
        invariant
            1 <= i <= v@.len(),
            s == u64_ints(v@),
            seq_sum(s) <= u64::MAX,
            mn == seq_min(s.take(i as int)),
            mx == seq_max(s.take(i as int)),
            total == seq_sum(s.take(i as int)),
        decreases v.len() - i,
    {
        proof {
            lemma_stats_step(s, i as int);
            assert forall|j: int| 0 <= j < s.len() implies #[trigger] s[j] >= 0 by {}
            lemma_prefix_sum_le(s, i + 1);
        }
        let x = v[i];
        if x < mn {
            mn = x;
        }
        if x > mx {
            mx = x;
        }
        total = total + x;
        i += 1;
    }
    assert(s.take(v@.len() as int) =~= s);
    Some((mn, mx, total))
}

/// Every prefix sum of `s` lies in `lo..=hi`.
pub open spec fn prefix_sums_within(s: Seq<int>, lo: int, hi: int) -> bool {
    forall|k: int| 0 <= k <= s.len() ==> lo <= #[trigger] seq_sum(s.take(k)) <= hi
}

/// Minimum, maximum and total of signed counts, none when there are none.
/// Every running total must fit in an `i64`.
pub fn i64_stats(v: &Vec<i64>) -> (r: Option<(i64, i64, i64)>)
    requires
        prefix_sums_within(i64_ints(v@), i64::MIN as int, i64::MAX as int),
    ensures
        r is None <==> v@.len() == 0,
        r matches Some((mn, mx, total)) ==> mn == seq_min(i64_ints(v@)) && mx == seq_max(i64_ints(v@))
            && total == seq_sum(i64_ints(v@)),
{
    if v.len() == 0 {
        return None;
    }
    let ghost s = i64_ints(v@);
    let mut mn: i64 = v[0];
    let mut mx: i64 = v[0];
    let mut total: i64 = v[0];
    assert(s.take(1).len() == 1);
    assert(s.take(1).drop_last() =~= seq![]);
    assert(s.take(1).last() == s[0]);
    assert(seq_sum(s.take(1).drop_last()) == 0);
    assert(seq_sum(s.take(1)) == s[0]);
    let mut i: usize = 1;
    while i < v.len()
        invariant
            1 <= i <= v@.len(),
            s == i64_ints(v@),
            prefix_sums_within(s, i64::MIN as int, i64::MAX as int),
            mn == seq_min(s.take(i as int)),
            mx == seq_max(s.take(i as int)),
            total == seq_sum(s.take(i as int)),
        decreases v.len() - i,
    {
        proof {
            lemma_stats_step(s, i as int);
            assert(i64::MIN <= seq_sum(s.take(i + 1)) <= i64::MAX);
        }
        let x = v[i];
        if x < mn {
            mn = x;
        }
        if x > mx {
            mx = x;
        }
        total = total + x;
        i += 1;
    }
    assert(s.take(v@.len() as int) =~= s);
    Some((mn, mx, total))
}

// ---------------------------------------------------------------------------
// What the items' metadata comes to

/// The figures gathered from a list of items' metadata.
#[derive(Debug, Clone)]
pub struct MetadataSummary {
    /// Distinct versions, in order of first appearance.
    pub versions: Vec<String>,
    /// Distinct levels of detail, in order of first appearance.
    pub lods: Vec<String>,
    /// Distinct city-object types, sorted.
    pub co_types: Vec<String>,
    /// The city-object counts, item by item.
    pub counts: Vec<u64>,
    /// Observed values of the three boolean facts, `false` first.
    pub semantic_surfaces: Vec<bool>,
    pub textures: Vec<bool>,
    pub materials: Vec<bool>,
}

/// `r` is what `ms` comes to.
pub open spec fn summarizes<B>(r: MetadataSummary, ms: Seq<ItemMetadata<B>>) -> bool {
    &&& texts(r.versions@) == first_occurrences(versions_of(ms))
    &&& texts(r.lods@) == first_occurrences(lods_of(ms))
    &&& is_sorted_set_of(texts(r.co_types@), types_of(ms))
    &&& r.counts@ == counts_of(ms)
    &&& r.semantic_surfaces@ == bool_set(flags_of(ms, Flag::SemanticSurfaces))
    &&& r.textures@ == bool_set(flags_of(ms, Flag::Textures))
    &&& r.materials@ == bool_set(flags_of(ms, Flag::Materials))
}

/// The value of a boolean fact of an item.
fn item_flag<B>(m: &ItemMetadata<B>, f: Flag) -> (r: Option<bool>)
    ensures
        r == flag_of(*m, f),
{
    match f {
        Flag::SemanticSurfaces => m.city3d_semantic_surfaces,
        Flag::Textures => m.city3d_textures,
        Flag::Materials => m.city3d_materials,
    }
}

/// The values the items report for a boolean fact, item by item.
fn collect_flags<B>(ms: &Vec<ItemMetadata<B>>, f: Flag) -> (r: Vec<bool>)
    ensures
        r@ == flags_of(ms@, f),
{
    let mut r: Vec<bool> = Vec::new();
    let mut i: usize = 0;
    while i < ms.len()
        invariant
            i <= ms@.len(),
            r@ == flags_of(ms@.take(i as int), f),
        decreases ms.len() - i,
    {
        assert(ms@.take(i + 1).drop_last() =~= ms@.take(i as int));
        assert(ms@.take(i + 1).last() == ms@[i as int]);
        match item_flag(&ms[i], f) {
            Some(b) => r.push(b),
            None => {},
        }
        i += 1;
    }
    assert(ms@.take(ms@.len() as int) =~= ms@);
    r
}

/// Gathers the figures of a list of items' metadata.
pub fn summarize_metadata<B>(ms: &Vec<ItemMetadata<B>>) -> (r: MetadataSummary)
    ensures
        summarizes(r, ms@),
{
    let mut versions: Vec<String> = Vec::new();
    let mut lods: Vec<String> = Vec::new();
    let mut co_types: Vec<String> = Vec::new();
    let mut counts: Vec<u64> = Vec::new();
    let mut i: usize = 0;
    while i < ms.len()
        invariant
            i <= ms@.len(),
            texts(versions@) == first_occurrences(versions_of(ms@.take(i as int))),
            texts(lods@) == first_occurrences(lods_of(ms@.take(i as int))),
            is_sorted_set_of(texts(co_types@), types_of(ms@.take(i as int))),
            counts@ == counts_of(ms@.take(i as int)),
        decreases ms.len() - i,
    {
        let ghost p = ms@.take(i as int);
        let ghost q = ms@.take(i + 1);
        assert(q.drop_last() =~= p);
        assert(q.last() == ms@[i as int]);
        let m = &ms[i];
        match &m.city3d_version {
            Some(v) => {
                assert(versions_of(q) == versions_of(p).push(v@));
                assert(versions_of(q).drop_last() =~= versions_of(p));
                push_new(&mut versions, v.clone());
            },
            None => {
                assert(versions_of(q) == versions_of(p));
            },
        }
        match &m.city3d_lods {
            Some(ls) => {
                proof { lemma_first_occurrences_concat(lods_of(p), texts(ls@)); }
                extend_new(&mut lods, ls);
            },
            None => {
                assert(lods_of(q) =~= lods_of(p));
            },
        }
        match &m.city3d_co_types {
            Some(ts) => {
                let mut j: usize = 0;
                while j < ts.len()
                    invariant
                        j <= ts@.len(),
                        is_sorted_set_of(texts(co_types@), types_of(p) + texts(ts@).take(j as int)),
                    decreases ts.len() - j,
                {
                    let ghost before = types_of(p) + texts(ts@).take(j as int);
                    proof {
                        assert(texts(ts@)[j as int] == ts@[j as int]@);
                        assert(types_of(p) + texts(ts@).take(j + 1) =~= before.push(ts@[j as int]@));
                        lemma_contains_push(before, ts@[j as int]@);
                    }
                    insert_sorted_unique(&mut co_types, ts[j].clone());
                    j += 1;
                }
                assert(texts(ts@).take(ts@.len() as int) =~= texts(ts@));
            },
            None => {
                assert(types_of(q) =~= types_of(p));
            },
        }
        match &m.city3d_city_objects {
            Some(c) => {
                let n: u64 = match c {
                    CityObjectsCount::Integer(n) => *n,
                    CityObjectsCount::Statistics { total, .. } => *total,
                };
                counts.push(n);
            },
            None => {},
        }
        i += 1;
    }
    assert(ms@.take(ms@.len() as int) =~= ms@);
    let semantic_surfaces = bool_values(&collect_flags(ms, Flag::SemanticSurfaces));
    let textures = bool_values(&collect_flags(ms, Flag::Textures));
    let materials = bool_values(&collect_flags(ms, Flag::Materials));
    MetadataSummary { versions, lods, co_types, counts, semantic_surfaces, textures, materials }
}

} // verus!
