//! JSON documents as this library reads them: a value tree whose numbers
//! carry their integer readings and their text, and member lookup by key.
//!
//! Documents are parsed elsewhere and handed to the library in this form; an
//! object's members are in the order of the parsed map, and its keys are
//! distinct.

use vstd::prelude::*;
use crate::text::{chars_of, same_chars, string_of, concat, texts};
use crate::decimal::{decimal, decimal_exec};

verus! {

/// A JSON number: its value as a `u64` and as an `i64` where it is one, and
/// its JSON text.
#[derive(Debug, Clone, PartialEq, Eq)]
pub struct JsonNumber {
    pub as_u64: Option<u64>,
    pub as_i64: Option<i64>,
    pub text: String,
}

/// A JSON value.
#[derive(Debug, PartialEq, Eq)]
pub enum JsonValue {
    Null,
    Bool(bool),
    Number(JsonNumber),
    String(String),
    Array(Vec<JsonValue>),
    Object(Vec<JsonMember>),
}

/// A member of a JSON object.
#[derive(Debug, PartialEq, Eq)]
pub struct JsonMember {
    pub key: String,
    pub value: JsonValue,
}

/// The value of the first member named `key`.
pub open spec fn members_get(ms: Seq<JsonMember>, key: Seq<char>) -> Option<JsonValue>
    decreases ms.len(),
{
    if ms.len() == 0 {
        None
    } else if ms[0].key@ == key {
        Some(ms[0].value)
    } else {
        members_get(ms.drop_first(), key)
    }
}

/// The member `key` of an object (`Value::get`); none for other values.
pub open spec fn json_get(v: JsonValue, key: Seq<char>) -> Option<JsonValue> {
    match v {
        JsonValue::Object(ms) => members_get(ms@, key),
        _ => None,
    }
}

/// The string of a value that is a string (`Value::as_str`).
pub open spec fn as_text(v: Option<JsonValue>) -> Option<Seq<char>> {
    match v {
        Some(JsonValue::String(s)) => Some(s@),
        _ => None,
    }
}

/// The members of a value that is an object (`Value::as_object`).
pub open spec fn as_members(v: Option<JsonValue>) -> Option<Seq<JsonMember>> {
    match v {
        Some(JsonValue::Object(ms)) => Some(ms@),
        _ => None,
    }
}

/// The elements of a value that is an array (`Value::as_array`).
pub open spec fn as_elements(v: Option<JsonValue>) -> Option<Seq<JsonValue>> {
    match v {
        Some(JsonValue::Array(xs)) => Some(xs@),
        _ => None,
    }
}

/// The member `key` of `v`, when `v` is an object that has one.
pub fn get<'a>(v: &'a JsonValue, key: &str) -> (r: Option<&'a JsonValue>)
    ensures
        match r {
            Some(x) => json_get(*v, key@) == Some(*x),
            None => json_get(*v, key@) is None,
        },
{
    match v {
        JsonValue::Object(ms) => {
            let kc = chars_of(key);
            let mut i: usize = 0;
            assert(ms@.subrange(0, ms@.len() as int) =~= ms@);
            while i < ms.len()
                invariant
                    i <= ms@.len(),
                    kc@ == key@,
                    json_get(*v, key@) == members_get(ms@, key@),
                    members_get(ms@, key@) == members_get(ms@.subrange(i as int, ms@.len() as int), key@),
                decreases ms.len() - i,
            {
                let ghost rest = ms@.subrange(i as int, ms@.len() as int);
                assert(rest[0] == ms@[i as int]);
                assert(rest.drop_first() =~= ms@.subrange(i + 1, ms@.len() as int));
                let name = chars_of(ms[i].key.as_str());
                if same_chars(name.as_slice(), kc.as_slice()) {
                    assert(rest[0].key@ == key@);
                    assert(members_get(rest, key@) == Some(rest[0].value));
                    let m = &ms[i];
                    assert(m.value == rest[0].value);
                    assert(json_get(*v, key@) == members_get(ms@, key@));
                    return Some(&m.value);
                }
                i += 1;
            }
            None
        },
        _ => None,
    }
}


/// No two members share a key.
pub open spec fn distinct_keys(ms: Seq<JsonMember>) -> bool {
    forall|i: int, j: int| 0 <= i < j < ms.len() ==> (#[trigger] ms[i]).key@ != (#[trigger] ms[j]).key@
}

/// Looking a key up after a member is appended: an earlier member with that
/// key still answers; otherwise the new member does if it has the key.
pub proof fn lemma_members_get_push(s: Seq<JsonMember>, m: JsonMember, k: Seq<char>)
    ensures
        members_get(s.push(m), k) == (match members_get(s, k) {
            Some(v) => Some(v),
            None => if m.key@ == k { Some(m.value) } else { None },
        }),
    decreases s.len(),
{
    if s.len() == 0 {
        assert(s.push(m).drop_first() =~= s);
    } else {
        assert(s.push(m)[0] == s[0]);
        assert(s.push(m).drop_first() =~= s.drop_first().push(m));
        lemma_members_get_push(s.drop_first(), m, k);
    }
}

/// Looking a key up after the first member with key `m.key` is replaced by
/// `m`: that key gives `m.value`, every other key what it gave before.
pub proof fn lemma_members_get_update(s: Seq<JsonMember>, i: int, m: JsonMember, k: Seq<char>)
    requires
        0 <= i < s.len(),
        s[i].key@ == m.key@,
        forall|j: int| 0 <= j < i ==> (#[trigger] s[j]).key@ != m.key@,
    ensures
        members_get(s.update(i, m), k) == (if k == m.key@ { Some(m.value) } else { members_get(s, k) }),
    decreases s.len(),
{
    if i == 0 {
        assert(s.update(0, m).drop_first() =~= s.drop_first());
    } else {
        assert(s[0].key@ != m.key@);
        assert(s.update(i, m)[0] == s[0]);
        assert(s.update(i, m).drop_first() =~= s.drop_first().update(i - 1, m));
        assert forall|j: int| 0 <= j < i - 1 implies (#[trigger] s.drop_first()[j]).key@ != m.key@ by {
            assert(s.drop_first()[j] == s[j + 1]);
        }
        lemma_members_get_update(s.drop_first(), i - 1, m, k);
    }
}

/// A key that no member has is not found.
pub proof fn lemma_members_get_absent(s: Seq<JsonMember>, k: Seq<char>)
    requires
        forall|j: int| 0 <= j < s.len() ==> (#[trigger] s[j]).key@ != k,
    ensures
        members_get(s, k) is None,
    decreases s.len(),
{
    if s.len() > 0 {
        assert(s[0].key@ != k);
        assert forall|j: int| 0 <= j < s.drop_first().len() implies (#[trigger] s.drop_first()[j]).key@ != k by {
            assert(s.drop_first()[j] == s[j + 1]);
        }
        lemma_members_get_absent(s.drop_first(), k);
    }
}

/// The first member with a key gives its value.
pub proof fn lemma_members_get_first(s: Seq<JsonMember>, k: Seq<char>, i: int)
    requires
        0 <= i < s.len(),
        s[i].key@ == k,
        forall|j: int| 0 <= j < i ==> (#[trigger] s[j]).key@ != k,
    ensures
        members_get(s, k) == Some(s[i].value),
    decreases s.len(),
{
    if i > 0 {
        assert(s[0].key@ != k);
        assert forall|j: int| 0 <= j < i - 1 implies (#[trigger] s.drop_first()[j]).key@ != k by {
            assert(s.drop_first()[j] == s[j + 1]);
        }
        lemma_members_get_first(s.drop_first(), k, i - 1);
    }
}

/// The position of the first member named `key`.
pub fn member_position(ms: &Vec<JsonMember>, key: &str) -> (r: Option<usize>)
    ensures
        match r {
            Some(i) => i < ms@.len() && ms@[i as int].key@ == key@
                && forall|j: int| 0 <= j < i ==> (#[trigger] ms@[j]).key@ != key@,
            None => forall|j: int| 0 <= j < ms@.len() ==> (#[trigger] ms@[j]).key@ != key@,
        },
{
    let kc = chars_of(key);
    let mut i: usize = 0;
    while i < ms.len()
        invariant
            i <= ms@.len(),
            kc@ == key@,
            forall|j: int| 0 <= j < i ==> (#[trigger] ms@[j]).key@ != key@,
        decreases ms.len() - i,
    {
        let name = chars_of(ms[i].key.as_str());
        if same_chars(name.as_slice(), kc.as_slice()) {
            return Some(i);
        }
        i += 1;
    }
    None
}

/// Whether some member is named `key` (`HashMap::contains_key`).
pub fn has_member(ms: &Vec<JsonMember>, key: &str) -> (r: bool)
    ensures
        r == (members_get(ms@, key@) is Some),
{
    match member_position(ms, key) {
        Some(i) => {
            proof { lemma_members_get_first(ms@, key@, i as int); }
            true
        },
        None => {
            proof { lemma_members_get_absent(ms@, key@); }
            false
        },
    }
}

/// Sets the member `key` to `value` (`HashMap::insert`): replaces the value
/// of the member with that key, or appends a member when there is none.
pub fn set_member(ms: &mut Vec<JsonMember>, key: String, value: JsonValue)
    requires
        distinct_keys(old(ms)@),
    ensures
        distinct_keys(final(ms)@),
        members_get(final(ms)@, key@) == Some(value),
        forall|k: Seq<char>| k != key@ ==> #[trigger] members_get(final(ms)@, k) == members_get(old(ms)@, k),
{
    let ghost old_ms = ms@;
    let ghost key_view = key@;
    let m = JsonMember { key, value };
    match member_position(ms, m.key.as_str()) {
        Some(i) => {
            ms.set(i, m);
            proof {
                assert(ms@ == old_ms.update(i as int, m));
                assert forall|k: Seq<char>| true implies #[trigger] members_get(ms@, k)
                    == (if k == m.key@ { Some(m.value) } else { members_get(old_ms, k) }) by {
                    lemma_members_get_update(old_ms, i as int, m, k);
                }
                assert forall|a: int, b: int| 0 <= a < b < ms@.len() implies (#[trigger] ms@[a]).key@ != (#[trigger] ms@[b]).key@ by {
                    assert(old_ms[a].key@ != old_ms[b].key@);
                    if a == i {
                        assert(ms@[a].key@ == old_ms[a].key@);
                    }
                    if b == i {
                        assert(ms@[b].key@ == old_ms[b].key@);
                    }
                }
            }
        },
        None => {
            ms.push(m);
            proof {
                assert(ms@ == old_ms.push(m));
                lemma_members_get_absent(old_ms, key_view);
                assert forall|k: Seq<char>| true implies #[trigger] members_get(ms@, k)
                    == (if k == m.key@ { Some(m.value) } else { members_get(old_ms, k) }) by {
                    lemma_members_get_push(old_ms, m, k);
                }
                assert forall|a: int, b: int| 0 <= a < b < ms@.len() implies (#[trigger] ms@[a]).key@ != (#[trigger] ms@[b]).key@ by {
                    if b == old_ms.len() {
                        assert(ms@[a] == old_ms[a]);
                    } else {
                        assert(ms@[a] == old_ms[a] && ms@[b] == old_ms[b]);
                    }
                }
            }
        },
    }
}

/// The JSON number of an unsigned integer.
pub open spec fn is_u64_number(n: JsonNumber, v: u64) -> bool {
    &&& n.as_u64 == Some(v)
    &&& n.text@ == decimal(v as nat)
    &&& n.as_i64 == (if v <= i64::MAX { Some(v as i64) } else { None })
}

/// The JSON number of an unsigned integer (`serde_json::Number::from`).
pub fn u64_number(v: u64) -> (r: JsonValue)
    ensures
        r matches JsonValue::Number(n) && is_u64_number(n, v),
{
    let digits = decimal_exec(v);
    let text = string_of(digits.as_slice());
    let as_i64: Option<i64> = if v <= 9223372036854775807u64 { Some(v as i64) } else { None };
    JsonValue::Number(JsonNumber { as_u64: Some(v), as_i64, text })
}

/// The decimal text of a signed integer: a `-` before the digits of its
/// magnitude when it is negative.
pub open spec fn signed_decimal(v: int) -> Seq<char> {
    if v < 0 {
        seq!['-'] + decimal((-v) as nat)
    } else {
        decimal(v as nat)
    }
}

/// The JSON number of a signed integer.
pub open spec fn is_i64_number(n: JsonNumber, v: i64) -> bool {
    &&& n.as_i64 == Some(v)
    &&& n.text@ == signed_decimal(v as int)
    &&& n.as_u64 == (if v >= 0 { Some(v as u64) } else { None })
}

/// The JSON number of a signed integer (`serde_json::Number::from`).
pub fn i64_number(v: i64) -> (r: JsonValue)
    ensures
        r matches JsonValue::Number(n) && is_i64_number(n, v),
{
    if v >= 0 {
        let digits = decimal_exec(v as u64);
        let text = string_of(digits.as_slice());
        JsonValue::Number(JsonNumber { as_u64: Some(v as u64), as_i64: Some(v), text })
    } else {
        let magnitude: u64 = ((-(v + 1)) as u64) + 1;
        let digits = decimal_exec(magnitude);
        let minus: Vec<char> = vec!['-'];
        let all = concat(minus.as_slice(), digits.as_slice());
        let text = string_of(all.as_slice());
        proof { assert(minus@ =~= seq!['-']); }
        JsonValue::Number(JsonNumber { as_u64: None, as_i64: Some(v), text })
    }
}

/// `v` is the JSON string `s`.
pub open spec fn is_string_value(v: JsonValue, s: Seq<char>) -> bool {
    match v {
        JsonValue::String(x) => x@ == s,
        _ => false,
    }
}

/// The strings of a list as a JSON array of strings.
pub open spec fn is_string_array(v: JsonValue, items: Seq<Seq<char>>) -> bool {
    v matches JsonValue::Array(xs) && xs@.len() == items.len()
        && forall|i: int| 0 <= i < items.len() ==> is_string_value(#[trigger] xs@[i], items[i])
}

/// A JSON array of the given strings (`serde_json::to_value` of a
/// `Vec<String>`).
pub fn string_array(items: &Vec<String>) -> (r: JsonValue)
    ensures
        is_string_array(r, texts(items@)),
{
    let mut xs: Vec<JsonValue> = Vec::new();
    let mut i: usize = 0;
    while i < items.len()
        invariant
            i <= items@.len(),
            xs@.len() == i,
            forall|j: int| 0 <= j < i ==> is_string_value(#[trigger] xs@[j], items@[j]@),
        decreases items.len() - i,
    {
        xs.push(JsonValue::String(items[i].clone()));
        i += 1;
    }
    JsonValue::Array(xs)
}

/// The booleans of a list as a JSON array.
pub open spec fn is_bool_array(v: JsonValue, items: Seq<bool>) -> bool {
    v matches JsonValue::Array(xs) && xs@.len() == items.len()
        && forall|i: int| 0 <= i < items.len() ==> (#[trigger] xs@[i]) == JsonValue::Bool(items[i])
}

/// A JSON array of the given booleans.
pub fn bool_array(items: &Vec<bool>) -> (r: JsonValue)
    ensures
        is_bool_array(r, items@),
{
    let mut xs: Vec<JsonValue> = Vec::new();
    let mut i: usize = 0;
    while i < items.len()
        invariant
            i <= items@.len(),
            xs@.len() == i,
            forall|j: int| 0 <= j < i ==> (#[trigger] xs@[j]) == JsonValue::Bool(items@[j]),
        decreases items.len() - i,
    {
        xs.push(JsonValue::Bool(items[i]));
        i += 1;
    }
    JsonValue::Array(xs)
}


/// Two JSON values are the same document: the same kind, the same scalar,
/// the same elements in the same order, the same members in the same order.
/// (Their JSON texts are then the same.)
pub open spec fn json_same(a: JsonValue, b: JsonValue) -> bool
    decreases a,
{
    match a {
        JsonValue::Null => b is Null,
        JsonValue::Bool(x) => b == JsonValue::Bool(x),
        JsonValue::Number(x) => match b {
            JsonValue::Number(y) => x.as_u64 == y.as_u64 && x.as_i64 == y.as_i64 && x.text@ == y.text@,
            _ => false,
        },
        JsonValue::String(x) => match b {
            JsonValue::String(y) => x@ == y@,
            _ => false,
        },
        JsonValue::Array(xs) => match b {
            JsonValue::Array(ys) => {
                proof {
                    broadcast use vstd::std_specs::vec::axiom_vec_decreases_to_view;
                    assert(decreases_to!(a => xs));
                    assert(decreases_to!(xs => xs@));
                }
                elements_same(xs@, ys@)
            },
            _ => false,
        },
        JsonValue::Object(ms) => match b {
            JsonValue::Object(ns) => {
                proof {
                    broadcast use vstd::std_specs::vec::axiom_vec_decreases_to_view;
                    assert(decreases_to!(a => ms));
                    assert(decreases_to!(ms => ms@));
                }
                members_same(ms@, ns@)
            },
            _ => false,
        },
    }
}

/// Two lists of JSON values are element by element the same documents.
pub open spec fn elements_same(xs: Seq<JsonValue>, ys: Seq<JsonValue>) -> bool
    decreases xs,
{
    if xs.len() == 0 {
        ys.len() == 0
    } else {
        &&& ys.len() > 0
        &&& json_same(xs[0], ys[0])
        &&& elements_same(xs.drop_first(), ys.drop_first())
    }
}

/// Two lists of members have member by member the same keys and the same
/// documents as values.
pub open spec fn members_same(ms: Seq<JsonMember>, ns: Seq<JsonMember>) -> bool
    decreases ms,
{
    if ms.len() == 0 {
        ns.len() == 0
    } else {
        &&& ns.len() > 0
        &&& ms[0].key@ == ns[0].key@
        &&& json_same(ms[0].value, ns[0].value)
        &&& members_same(ms.drop_first(), ns.drop_first())
    }
}

/// Lists are the same documents when they have the same length and are
/// the same at each position.
pub proof fn lemma_elements_same(xs: Seq<JsonValue>, ys: Seq<JsonValue>)
    ensures
        elements_same(xs, ys) <==> (xs.len() == ys.len()
            && forall|i: int| 0 <= i < xs.len() ==> #[trigger] json_same(xs[i], ys[i])),
    decreases xs.len(),
{
    if xs.len() > 0 && ys.len() > 0 {
        let tx = xs.drop_first();
        let ty = ys.drop_first();
        lemma_elements_same(tx, ty);
        if xs.len() == ys.len() && forall|i: int| 0 <= i < xs.len() ==> #[trigger] json_same(xs[i], ys[i]) {
            assert(json_same(xs[0], ys[0]));
            assert forall|i: int| 0 <= i < tx.len() implies #[trigger] json_same(tx[i], ty[i]) by {
                assert(tx[i] == xs[i + 1] && ty[i] == ys[i + 1]);
                assert(json_same(xs[i + 1], ys[i + 1]));
            }
            assert(elements_same(tx, ty));
        }
        if elements_same(xs, ys) {
            assert(elements_same(tx, ty));
            assert forall|i: int| 0 <= i < xs.len() implies #[trigger] json_same(xs[i], ys[i]) by {
                if i > 0 {
                    assert(tx[i - 1] == xs[i] && ty[i - 1] == ys[i]);
                    assert(json_same(tx[i - 1], ty[i - 1]));
                }
            }
        }
    }
}

/// The members at position `i` have the same key and the same document.
pub open spec fn member_same_at(ms: Seq<JsonMember>, ns: Seq<JsonMember>, i: int) -> bool {
    ms[i].key@ == ns[i].key@ && json_same(ms[i].value, ns[i].value)
}

/// Member lists are the same when they have the same length and the same
/// key and document at each position.
pub proof fn lemma_members_same(ms: Seq<JsonMember>, ns: Seq<JsonMember>)
    ensures
        members_same(ms, ns) <==> (ms.len() == ns.len()
            && forall|i: int| 0 <= i < ms.len() ==> #[trigger] member_same_at(ms, ns, i)),
    decreases ms.len(),
{
    if ms.len() > 0 && ns.len() > 0 {
        let tm = ms.drop_first();
        let tn = ns.drop_first();
        lemma_members_same(tm, tn);
        if ms.len() == ns.len() && forall|i: int| 0 <= i < ms.len() ==> #[trigger] member_same_at(ms, ns, i) {
            assert(member_same_at(ms, ns, 0));
            assert forall|i: int| 0 <= i < tm.len() implies #[trigger] member_same_at(tm, tn, i) by {
                assert(tm[i] == ms[i + 1] && tn[i] == ns[i + 1]);
                assert(member_same_at(ms, ns, i + 1));
            }
            assert(members_same(tm, tn));
        }
        if members_same(ms, ns) {
            assert(members_same(tm, tn));
            assert forall|i: int| 0 <= i < ms.len() implies #[trigger] member_same_at(ms, ns, i) by {
                if i > 0 {
                    assert(tm[i - 1] == ms[i] && tn[i - 1] == ns[i]);
                    assert(member_same_at(tm, tn, i - 1));
                }
            }
        }
    }
}

/// A copy of a JSON value.
pub fn clone_json(v: &JsonValue) -> (r: JsonValue)
    ensures
        json_same(*v, r),
    decreases v,
{
    match v {
        JsonValue::Null => JsonValue::Null,
        JsonValue::Bool(b) => JsonValue::Bool(*b),
        JsonValue::Number(n) => JsonValue::Number(JsonNumber { as_u64: n.as_u64, as_i64: n.as_i64, text: n.text.clone() }),
        JsonValue::String(s) => JsonValue::String(s.clone()),
        JsonValue::Array(xs) => {
            let mut ys: Vec<JsonValue> = Vec::new();
            let mut i: usize = 0;
            while i < xs.len()
                invariant
                    *v == JsonValue::Array(*xs),
                    i <= xs@.len(),
                    ys@.len() == i,
                    forall|j: int| 0 <= j < i ==> #[trigger] json_same(xs@[j], ys@[j]),
                decreases xs.len() - i,
            {
                proof {
                    broadcast use vstd::std_specs::vec::axiom_vec_index_decreases;
                    assert(decreases_to!(*v => v->Array_0));
                    assert(decreases_to!(*xs => xs[i as int]));
                }
                let y = clone_json(&xs[i]);
                ys.push(y);
                i += 1;
            }
            proof { lemma_elements_same(xs@, ys@); }
            JsonValue::Array(ys)
        },
        JsonValue::Object(ms) => {
            let mut ys: Vec<JsonMember> = Vec::new();
            let mut i: usize = 0;
            while i < ms.len()
                invariant
                    *v == JsonValue::Object(*ms),
                    i <= ms@.len(),
                    ys@.len() == i,
                    forall|j: int| 0 <= j < i ==> #[trigger] member_same_at(ms@, ys@, j),
                decreases ms.len() - i,
            {
                proof {
                    broadcast use vstd::std_specs::vec::axiom_vec_index_decreases;
                    assert(decreases_to!(*v => v->Object_0));
                    assert(decreases_to!(*ms => ms[i as int]));
                    assert(decreases_to!(ms[i as int] => ms[i as int].value));
                }
                let value = clone_json(&ms[i].value);
                let ghost ys_old = ys@;
                ys.push(JsonMember { key: ms[i].key.clone(), value });
                assert forall|j: int| 0 <= j < i + 1 implies #[trigger] member_same_at(ms@, ys@, j) by {
                    if j < i {
                        assert(ys@[j] == ys_old[j]);
                        assert(member_same_at(ms@, ys_old, j));
                    }
                }
                i += 1;
            }
            proof { lemma_members_same(ms@, ys@); }
            JsonValue::Object(ys)
        },
    }
}

/// Whether two JSON values are the same document.
pub fn json_equal(a: &JsonValue, b: &JsonValue) -> (r: bool)
    ensures
        r == json_same(*a, *b),
    decreases a,
{
    match a {
        JsonValue::Null => match b {
            JsonValue::Null => true,
            _ => false,
        },
        JsonValue::Bool(x) => match b {
            JsonValue::Bool(y) => *x == *y,
            _ => false,
        },
        JsonValue::Number(x) => match b {
            JsonValue::Number(y) => {
                let t1 = chars_of(x.text.as_str());
                let t2 = chars_of(y.text.as_str());
                x.as_u64 == y.as_u64 && x.as_i64 == y.as_i64 && same_chars(t1.as_slice(), t2.as_slice())
            },
            _ => false,
        },
        JsonValue::String(x) => match b {
            JsonValue::String(y) => {
                let t1 = chars_of(x.as_str());
                let t2 = chars_of(y.as_str());
                same_chars(t1.as_slice(), t2.as_slice())
            },
            _ => false,
        },
        JsonValue::Array(xs) => match b {
            JsonValue::Array(ys) => {
                proof { lemma_elements_same(xs@, ys@); }
                if xs.len() != ys.len() {
                    return false;
                }
                let mut i: usize = 0;
                while i < xs.len()
                    invariant
                        *a == JsonValue::Array(*xs),
                        *b == JsonValue::Array(*ys),
                        i <= xs@.len(),
                        xs@.len() == ys@.len(),
                        forall|j: int| 0 <= j < i ==> #[trigger] json_same(xs@[j], ys@[j]),
                    decreases xs.len() - i,
                {
                    proof {
                        broadcast use vstd::std_specs::vec::axiom_vec_index_decreases;
                        assert(decreases_to!(*a => a->Array_0));
                        assert(decreases_to!(*xs => xs[i as int]));
                    }
                    if !json_equal(&xs[i], &ys[i]) {
                        proof { lemma_elements_same(xs@, ys@); }
                        return false;
                    }
                    i += 1;
                }
                proof { lemma_elements_same(xs@, ys@); }
                true
            },
            _ => false,
        },
        JsonValue::Object(ms) => match b {
            JsonValue::Object(ns) => {
                proof { lemma_members_same(ms@, ns@); }
                if ms.len() != ns.len() {
                    return false;
                }
                let mut i: usize = 0;
                while i < ms.len()
                    invariant
                        *a == JsonValue::Object(*ms),
                        *b == JsonValue::Object(*ns),
                        i <= ms@.len(),
                        ms@.len() == ns@.len(),
                        forall|j: int| 0 <= j < i ==> #[trigger] member_same_at(ms@, ns@, j),
                    decreases ms.len() - i,
                {
                    let k1 = chars_of(ms[i].key.as_str());
                    let k2 = chars_of(ns[i].key.as_str());
                    if !same_chars(k1.as_slice(), k2.as_slice()) {
                        proof {
                            lemma_members_same(ms@, ns@);
                            assert(!member_same_at(ms@, ns@, i as int));
                        }
                        return false;
                    }
                    proof {
                        broadcast use vstd::std_specs::vec::axiom_vec_index_decreases;
                        assert(decreases_to!(*a => a->Object_0));
                        assert(decreases_to!(*ms => ms[i as int]));
                        assert(decreases_to!(ms[i as int] => ms[i as int].value));
                    }
                    if !json_equal(&ms[i].value, &ns[i].value) {
                        proof {
                            lemma_members_same(ms@, ns@);
                            assert(!member_same_at(ms@, ns@, i as int));
                        }
                        return false;
                    }
                    i += 1;
                }
                proof { lemma_members_same(ms@, ns@); }
                true
            },
            _ => false,
        },
    }
}

impl Clone for JsonValue {
    fn clone(&self) -> (r: Self)
        ensures
            json_same(*self, r),
    {
        clone_json(self)
    }
}

impl Clone for JsonMember {
    fn clone(&self) -> (r: Self)
        ensures
            r.key@ == self.key@,
            json_same(self.value, r.value),
    {
        JsonMember { key: self.key.clone(), value: clone_json(&self.value) }
    }
}

/// The member `key` of `new` is a value that `ok` accepts when `set`;
/// otherwise it is what it was in `old`.
pub open spec fn member_updated(
    new: Seq<JsonMember>,
    old: Seq<JsonMember>,
    key: Seq<char>,
    set: bool,
    ok: spec_fn(JsonValue) -> bool,
) -> bool {
    if set {
        match members_get(new, key) {
            Some(v) => ok(v),
            None => false,
        }
    } else {
        members_get(new, key) == members_get(old, key)
    }
}

/// Sets the member `key` to `value` when `set`; leaves the members as they
/// are otherwise.
pub fn set_member_if(ms: &mut Vec<JsonMember>, key: &str, set: bool, value: JsonValue)
    requires
        distinct_keys(old(ms)@),
    ensures
        distinct_keys(final(ms)@),
        set ==> members_get(final(ms)@, key@) == Some(value),
        !set ==> final(ms)@ == old(ms)@,
        forall|k: Seq<char>| k != key@ ==> #[trigger] members_get(final(ms)@, k) == members_get(old(ms)@, k),
{
    if set {
        set_member(ms, key.to_string(), value);
    }
}



/// The value of the member `key` of a list of members.
pub fn member<'a>(ms: &'a Vec<JsonMember>, key: &str) -> (r: Option<&'a JsonValue>)
    ensures
        match r {
            Some(x) => members_get(ms@, key@) == Some(*x),
            None => members_get(ms@, key@) is None,
        },
{
    match member_position(ms, key) {
        Some(i) => {
            proof { lemma_members_get_first(ms@, key@, i as int); }
            Some(&ms[i].value)
        },
        None => {
            proof { lemma_members_get_absent(ms@, key@); }
            None
        },
    }
}

} // verus!
