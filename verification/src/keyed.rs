//! Maps from names to values kept as lists of `(name, value)` entries with
//! distinct names: the asset tables of Items and Collections.

use vstd::prelude::*;
use crate::text::{chars_of, same_chars};

verus! {

/// The value of the first entry named `key`.
pub open spec fn entry_get<V>(s: Seq<(String, V)>, key: Seq<char>) -> Option<V>
    decreases s.len(),
{
    if s.len() == 0 {
        None
    } else if s[0].0@ == key {
        Some(s[0].1)
    } else {
        entry_get(s.drop_first(), key)
    }
}

/// No two entries share a name.
pub open spec fn distinct_names<V>(s: Seq<(String, V)>) -> bool {
    forall|i: int, j: int| 0 <= i < j < s.len() ==> (#[trigger] s[i]).0@ != (#[trigger] s[j]).0@
}

/// A name that no entry has is not found.
pub proof fn lemma_entry_get_absent<V>(s: Seq<(String, V)>, k: Seq<char>)
    requires
        forall|j: int| 0 <= j < s.len() ==> (#[trigger] s[j]).0@ != k,
    ensures
        entry_get(s, k) is None,
    decreases s.len(),
{
    if s.len() > 0 {
        assert(s[0].0@ != k);
        assert forall|j: int| 0 <= j < s.drop_first().len() implies (#[trigger] s.drop_first()[j]).0@ != k by {
            assert(s.drop_first()[j] == s[j + 1]);
        }
        lemma_entry_get_absent(s.drop_first(), k);
    }
}

/// Looking a name up after an entry is appended.
pub proof fn lemma_entry_get_push<V>(s: Seq<(String, V)>, e: (String, V), k: Seq<char>)
    ensures
        entry_get(s.push(e), k) == (match entry_get(s, k) {
            Some(v) => Some(v),
            None => if e.0@ == k { Some(e.1) } else { None },
        }),
    decreases s.len(),
{
    if s.len() == 0 {
        assert(s.push(e).drop_first() =~= s);
    } else {
        assert(s.push(e)[0] == s[0]);
        assert(s.push(e).drop_first() =~= s.drop_first().push(e));
        lemma_entry_get_push(s.drop_first(), e, k);
    }
}

/// Looking a name up after the first entry with that name is replaced.
pub proof fn lemma_entry_get_update<V>(s: Seq<(String, V)>, i: int, e: (String, V), k: Seq<char>)
    requires
        0 <= i < s.len(),
        s[i].0@ == e.0@,
        forall|j: int| 0 <= j < i ==> (#[trigger] s[j]).0@ != e.0@,
    ensures
        entry_get(s.update(i, e), k) == (if k == e.0@ { Some(e.1) } else { entry_get(s, k) }),
    decreases s.len(),
{
    if i == 0 {
        assert(s.update(0, e).drop_first() =~= s.drop_first());
    } else {
        assert(s[0].0@ != e.0@);
        assert(s.update(i, e)[0] == s[0]);
        assert(s.update(i, e).drop_first() =~= s.drop_first().update(i - 1, e));
        assert forall|j: int| 0 <= j < i - 1 implies (#[trigger] s.drop_first()[j]).0@ != e.0@ by {
            assert(s.drop_first()[j] == s[j + 1]);
        }
        lemma_entry_get_update(s.drop_first(), i - 1, e, k);
    }
}

/// The position of the first entry named `key`.
pub fn entry_position<V>(s: &Vec<(String, V)>, key: &str) -> (r: Option<usize>)
    ensures
        match r {
            Some(i) => i < s@.len() && s@[i as int].0@ == key@
                && forall|j: int| 0 <= j < i ==> (#[trigger] s@[j]).0@ != key@,
            None => forall|j: int| 0 <= j < s@.len() ==> (#[trigger] s@[j]).0@ != key@,
        },
{
    let kc = chars_of(key);
    let mut i: usize = 0;
    while i < s.len()
        invariant
            i <= s@.len(),
            kc@ == key@,
            forall|j: int| 0 <= j < i ==> (#[trigger] s@[j]).0@ != key@,
        decreases s.len() - i,
    {
        let name = chars_of(s[i].0.as_str());
        if same_chars(name.as_slice(), kc.as_slice()) {
            return Some(i);
        }
        i += 1;
    }
    None
}

/// Sets the entry `key` to `value` (`HashMap::insert`): replaces the value
/// of the entry with that name, or appends an entry when there is none.
pub fn set_entry<V>(s: &mut Vec<(String, V)>, key: String, value: V)
    requires
        distinct_names(old(s)@),
    ensures
        distinct_names(final(s)@),
        entry_get(final(s)@, key@) == Some(value),
        forall|k: Seq<char>| k != key@ ==> #[trigger] entry_get(final(s)@, k) == entry_get(old(s)@, k),
{
    let ghost old_s = s@;
    let ghost key_view = key@;
    let pos = entry_position(s, key.as_str());
    let e = (key, value);
    match pos {
        Some(i) => {
            s.set(i, e);
            proof {
                assert(s@ == old_s.update(i as int, e));
                assert forall|k: Seq<char>| true implies #[trigger] entry_get(s@, k)
                    == (if k == e.0@ { Some(e.1) } else { entry_get(old_s, k) }) by {
                    lemma_entry_get_update(old_s, i as int, e, k);
                }
                assert forall|a: int, b: int| 0 <= a < b < s@.len() implies (#[trigger] s@[a]).0@ != (#[trigger] s@[b]).0@ by {
                    assert(old_s[a].0@ != old_s[b].0@);
                    if a == i {
                        assert(s@[a].0@ == old_s[a].0@);
                    }
                    if b == i {
                        assert(s@[b].0@ == old_s[b].0@);
                    }
                }
            }
        },
        None => {
            s.push(e);
            proof {
                assert(s@ == old_s.push(e));
                lemma_entry_get_absent(old_s, key_view);
                assert forall|k: Seq<char>| true implies #[trigger] entry_get(s@, k)
                    == (if k == e.0@ { Some(e.1) } else { entry_get(old_s, k) }) by {
                    lemma_entry_get_push(old_s, e, k);
                }
                assert forall|a: int, b: int| 0 <= a < b < s@.len() implies (#[trigger] s@[a]).0@ != (#[trigger] s@[b]).0@ by {
                    if b == old_s.len() {
                        assert(s@[a] == old_s[a]);
                    } else {
                        assert(s@[a] == old_s[a] && s@[b] == old_s[b]);
                    }
                }
            }
        },
    }
}

} // verus!
