//! A JSON document model: the executable tree `JsonValue` and its mathematical view `Json`.
//! Objects are ordered lists of members; a key may be looked up, set and removed.
use vstd::prelude::*;

use crate::text::str_eq;

verus! {

/// The mathematical value of a JSON document. Numbers are kept as their decimal text.
#[verifier::ext_equal]
pub enum Json {
    Null,
    Bool(bool),
    Number(Seq<char>),
    Str(Seq<char>),
    Array(Seq<Json>),
    Object(Seq<(Seq<char>, Json)>),
}

/// A JSON document. Numbers are kept as their decimal text; objects as their members in order.
#[derive(Debug)]
pub enum JsonValue {
    Null,
    Bool(bool),
    Number(String),
    Str(String),
    Array(Vec<JsonValue>),
    Object(Vec<(String, JsonValue)>),
}

pub open spec fn json_of(v: JsonValue) -> Json
    decreases v,
{
    match v {
        JsonValue::Null => Json::Null,
        JsonValue::Bool(b) => Json::Bool(b),
        JsonValue::Number(n) => Json::Number(n@),
        JsonValue::Str(s) => Json::Str(s@),
        JsonValue::Array(items) => Json::Array(
            Seq::new(
                items@.len(),
                |i: int| if 0 <= i < items@.len() { json_of(items@[i]) } else { Json::Null },
            ),
        ),
        JsonValue::Object(entries) => Json::Object(
            Seq::new(
                entries@.len(),
                |i: int|
                    if 0 <= i < entries@.len() {
                        (entries@[i].0@, json_of(entries@[i].1))
                    } else {
                        (Seq::empty(), Json::Null)
                    },
            ),
        ),
    }
}

impl View for JsonValue {
    type V = Json;

    #[verifier::inline]
    open spec fn view(&self) -> Json {
        json_of(*self)
    }
}

#[verifier::loop_isolation(false)]
pub fn clone_json(v: &JsonValue) -> (out: JsonValue)
    ensures out@ == v@,
    decreases v,
{
    match v {
        JsonValue::Null => {
            assert(*v is Null);
            assert(v@ == Json::Null);
            JsonValue::Null
        },
        JsonValue::Bool(b) => { let o = JsonValue::Bool(*b); assert(o@ == v@); o },
        JsonValue::Number(n) => { let o = JsonValue::Number(n.clone()); assert(o@ == v@); o },
        JsonValue::Str(s) => { let o = JsonValue::Str(s.clone()); assert(o@ == v@); o },
        JsonValue::Array(items) => {
            let mut out: Vec<JsonValue> = Vec::new();
            let mut i: usize = 0;
            while i < items.len()
                invariant
                    i <= items.len(),
                    out@.len() == i,
                    forall|j: int| #![trigger out@[j]] 0 <= j < i ==> out@[j]@ == items@[j]@,
                decreases items.len() - i,
            {
                proof {
                    assert(*v is Array);
                    assert(decreases_to!(*v => (*v)->Array_0));
                    assert(decreases_to!(items => items@));
                    assert(decreases_to!(items@ => items@[i as int]));
                }
                let c = clone_json(&items[i]);
                out.push(c);
                i = i + 1;
            }
            let o = JsonValue::Array(out);
            assert(o@->Array_0 =~= v@->Array_0);
            assert(o@ == v@);
            o
        }
        JsonValue::Object(entries) => {
            let mut out: Vec<(String, JsonValue)> = Vec::new();
            let mut i: usize = 0;
            while i < entries.len()
                invariant
                    i <= entries.len(),
                    out@.len() == i,
                    forall|j: int| 0 <= j < i ==> #[trigger] out@[j].0@ == entries@[j].0@ && out@[j].1@ == entries@[j].1@,
                decreases entries.len() - i,
            {
                let k = entries[i].0.clone();
                proof {
                    assert(decreases_to!(*v => (*v)->Object_0));
                    assert(decreases_to!(entries => entries@));
                    assert(decreases_to!(entries@ => entries@[i as int]));
                    assert(decreases_to!(entries@[i as int] => entries@[i as int].1));
                }
                let c = clone_json(&entries[i].1);
                out.push((k, c));
                i = i + 1;
            }
            proof {
                assert(Seq::new(out@.len(), |k: int| if 0 <= k < out@.len() { (out@[k].0@, out@[k].1.view()) } else { (Seq::empty(), Json::Null) })
                    =~= Seq::new(entries@.len(), |k: int| if 0 <= k < entries@.len() { (entries@[k].0@, entries@[k].1.view()) } else { (Seq::empty(), Json::Null) }));
            }
            let o = JsonValue::Object(out);
            assert(o@->Object_0 =~= v@->Object_0);
            assert(o@ == v@);
            o
        }
    }
}

} // verus!

verus! {

/// The members of an object, as pairs of key text and value.
pub open spec fn entries_view(es: Seq<(String, JsonValue)>) -> Seq<(Seq<char>, Json)> {
    Seq::new(es.len(), |i: int| (es[i].0@, json_of(es[i].1)))
}

/// The elements of an array.
pub open spec fn items_view(items: Seq<JsonValue>) -> Seq<Json> {
    Seq::new(items.len(), |i: int| json_of(items[i]))
}

pub proof fn lemma_object_view(es: Vec<(String, JsonValue)>)
    ensures
        JsonValue::Object(es)@ == Json::Object(entries_view(es@)),
{
    assert(JsonValue::Object(es)@->Object_0 =~= entries_view(es@));
}

pub proof fn lemma_array_view(items: Vec<JsonValue>)
    ensures
        JsonValue::Array(items)@ == Json::Array(items_view(items@)),
{
    assert(JsonValue::Array(items)@->Array_0 =~= items_view(items@));
}

/// `i` is the position of the first member with key `k`.
pub open spec fn key_at(es: Seq<(Seq<char>, Json)>, k: Seq<char>, i: int) -> bool {
    0 <= i < es.len() && es[i].0 == k && forall|j: int| 0 <= j < i ==> (#[trigger] es[j]).0 != k
}

pub open spec fn has_key(es: Seq<(Seq<char>, Json)>, k: Seq<char>) -> bool {
    exists|i: int| key_at(es, k, i)
}

pub open spec fn key_index(es: Seq<(Seq<char>, Json)>, k: Seq<char>) -> int {
    choose|i: int| key_at(es, k, i)
}

/// The value of the first member with key `k`.
pub open spec fn lookup(es: Seq<(Seq<char>, Json)>, k: Seq<char>) -> Option<Json> {
    if has_key(es, k) {
        Some(es[key_index(es, k)].1)
    } else {
        None
    }
}

/// `es` with the first member keyed `k` given the value `v`, or with `(k, v)` added last.
pub open spec fn set_member(es: Seq<(Seq<char>, Json)>, k: Seq<char>, v: Json) -> Seq<(Seq<char>, Json)> {
    if has_key(es, k) {
        es.update(key_index(es, k), (k, v))
    } else {
        es.push((k, v))
    }
}

/// `es` without its members keyed `k`.
pub open spec fn remove_member(es: Seq<(Seq<char>, Json)>, k: Seq<char>) -> Seq<(Seq<char>, Json)> {
    es.filter(key_differs(k))
}

/// A member whose key is not `k`.
pub open spec fn key_differs(k: Seq<char>) -> spec_fn((Seq<char>, Json)) -> bool {
    |e: (Seq<char>, Json)| e.0 != k
}

/// No key occurs twice among the members.
pub open spec fn unique_keys(es: Seq<(Seq<char>, Json)>) -> bool {
    forall|i: int, j: int| 0 <= i < j < es.len() ==> (#[trigger] es[i]).0 != (#[trigger] es[j]).0
}

pub proof fn lemma_key_at_unique(es: Seq<(Seq<char>, Json)>, k: Seq<char>, i: int, j: int)
    requires
        key_at(es, k, i),
        key_at(es, k, j),
    ensures
        i == j,
{
    if i < j {
        assert(es[i].0 != k);
    } else if j < i {
        assert(es[j].0 != k);
    }
}

pub proof fn lemma_some_key(es: Seq<(Seq<char>, Json)>, k: Seq<char>, j: int)
    requires
        0 <= j < es.len(),
        es[j].0 == k,
    ensures
        has_key(es, k),
    decreases j,
{
    if forall|m: int| 0 <= m < j ==> (#[trigger] es[m]).0 != k {
        assert(key_at(es, k, j));
    } else {
        let m = choose|m: int| 0 <= m < j && (#[trigger] es[m]).0 == k;
        lemma_some_key(es, k, m);
    }
}

/// The position of the first member of `entries` keyed `key`.
pub fn find_member(entries: &Vec<(String, JsonValue)>, key: &str) -> (r: Option<usize>)
    ensures
        r matches Some(i) ==> key_at(entries_view(entries@), key@, i as int),
        r is None ==> !has_key(entries_view(entries@), key@),
{
    let ghost es = entries_view(entries@);
    let mut i: usize = 0;
    while i < entries.len()
        invariant
            i <= entries@.len(),
            es == entries_view(entries@),
            forall|j: int| 0 <= j < i ==> (#[trigger] es[j]).0 != key@,
        decreases entries@.len() - i,
    {
        if str_eq(entries[i].0.as_str(), key) {
            return Some(i);
        }
        i = i + 1;
    }
    proof {
        assert forall|j: int| !key_at(es, key@, j) by {
            if 0 <= j < es.len() {
                assert(es[j].0 != key@);
            }
        }
    }
    None
}

/// The value of the member keyed `key`, if `value` is an object that has one.
pub fn get_member<'a>(value: &'a JsonValue, key: &str) -> (r: Option<&'a JsonValue>)
    ensures
        match value@ {
            Json::Object(es) => match r {
                Some(v) => lookup(es, key@) == Some(v@),
                None => lookup(es, key@) is None,
            },
            _ => r is None,
        },
{
    match value {
        JsonValue::Object(entries) => {
            proof {
                lemma_object_view(*entries);
            }
            match find_member(entries, key) {
                Some(i) => {
                    proof {
                        let es = entries_view(entries@);
                        lemma_key_at_unique(es, key@, i as int, key_index(es, key@));
                    }
                    Some(&entries[i].1)
                },
                None => None,
            }
        },
        _ => None,
    }
}

/// Gives the member keyed `key` the value `v`, adding the member last when it is missing.
pub fn set_entry(entries: &mut Vec<(String, JsonValue)>, key: String, v: JsonValue)
    ensures
        entries_view(final(entries)@) == set_member(entries_view(old(entries)@), key@, v@),
{
    let ghost es = entries_view(entries@);
    match find_member(entries, key.as_str()) {
        Some(i) => {
            proof {
                lemma_key_at_unique(es, key@, i as int, key_index(es, key@));
            }
            entries.remove(i);
            entries.insert(i, (key, v));
            assert(entries_view(entries@) =~= es.update(i as int, (key@, v@)));
        },
        None => {
            entries.push((key, v));
            assert(entries_view(entries@) =~= es.push((key@, v@)));
        },
    }
}

/// Removes the members keyed `key`; gives back the value of the first one.
pub fn remove_entry(entries: &mut Vec<(String, JsonValue)>, key: &str) -> (r: Option<JsonValue>)
    ensures
        entries_view(final(entries)@) == remove_member(entries_view(old(entries)@), key@),
        match r {
            Some(v) => lookup(entries_view(old(entries)@), key@) == Some(v@),
            None => lookup(entries_view(old(entries)@), key@) is None,
        },
{
    let ghost es = entries_view(entries@);
    let first = find_member(entries, key);
    proof {
        if let Some(i) = first {
            lemma_key_at_unique(es, key@, i as int, key_index(es, key@));
        }
    }
    let mut kept: Vec<(String, JsonValue)> = Vec::new();
    let mut found: Option<JsonValue> = None;
    let mut old_entries: Vec<(String, JsonValue)> = Vec::new();
    std::mem::swap(&mut old_entries, entries);
    assert(entries_view(old_entries@) == es);
    let ghost mut idx: int = 0;
    for item in it: old_entries
        invariant
            it.seq() == old_entries@,
            idx == it.index(),
            es == entries_view(old_entries@),
            entries_view(kept@) == remove_member(es.take(idx), key@),
            found matches Some(v) ==> first matches Some(i) && i < idx && v@ == es[i as int].1,
            found is None ==> (first matches Some(i) ==> i >= idx),
            first matches Some(i) ==> key_at(es, key@, i as int),
            first is None ==> !has_key(es, key@),
    {
        let ghost e = es[idx];
        assert(es.take(idx + 1).drop_last() == es.take(idx));
        proof {
            reveal_with_fuel(Seq::filter, 1);
        }
        assert(item == old_entries@[idx]);
        let (k, v) = item;
        assert(e.0 == k@ && e.1 == v@);
        assert(es.take(idx + 1).last() == e);
        assert(remove_member(es.take(idx + 1), key@) == if e.0 != key@ {
            remove_member(es.take(idx), key@).push(e)
        } else {
            remove_member(es.take(idx), key@)
        });
        let keep = !str_eq(k.as_str(), key);
        if keep {
            let ghost before = kept@;
            kept.push((k, v));
            assert(entries_view(kept@) =~= entries_view(before).push(e));
        } else {
            if found.is_none() {
                proof {
                    if let Some(i) = first {
                        if (i as int) > idx {
                            assert(es[idx].0 == key@);
                        }
                    } else {
                        assert(key_at(es, key@, idx)) by {
                            assert forall|j: int| 0 <= j < idx implies (#[trigger] es[j]).0 != key@ by {
                                if es[j].0 == key@ {
                                    lemma_some_key(es, key@, j);
                                }
                            }
                        }
                    }
                }
                found = Some(v);
            }
        }
        proof {
            idx = idx + 1;
        }
    }
    assert(es.take(es.len() as int) == es);
    *entries = kept;
    found
}

} // verus!

verus! {

/// The value a member keyed `k` has among `es`, or `null` when there is none.
pub open spec fn member_or_null(es: Seq<(Seq<char>, Json)>, k: Seq<char>) -> Json {
    match lookup(es, k) {
        Some(v) => v,
        None => Json::Null,
    }
}

/// `patch` merged into `base`: when both are objects, each member of `patch` is merged into
/// the member of `base` with its key (into `null` when `base` has none); otherwise `patch`
/// replaces `base`.
pub open spec fn merged(base: Json, patch: Json) -> Json
    decreases patch,
{
    match patch {
        Json::Object(p) => match base {
            Json::Object(b) => Json::Object(merged_members(b, p)),
            _ => patch,
        },
        _ => patch,
    }
}

/// The members `b` with the members `p` merged into them, in the order of `p`.
pub open spec fn merged_members(b: Seq<(Seq<char>, Json)>, p: Seq<(Seq<char>, Json)>) -> Seq<(Seq<char>, Json)>
    decreases p,
{
    if p.len() == 0 {
        b
    } else {
        let acc = merged_members(b, p.drop_last());
        let k = p.last().0;
        set_member(acc, k, merged(member_or_null(acc, k), p.last().1))
    }
}

} // verus!

verus! {

/// Merges `patch` into `base`: objects are merged member by member, recursively; any other
/// `patch` replaces `base`.
pub fn merge_json_config(base: &mut JsonValue, patch: JsonValue)
    ensures
        final(base)@ == merged(old(base)@, patch@),
    decreases patch,
{
    let ghost orig = patch;
    let ghost old_base = base@;
    match patch {
        JsonValue::Object(patch_entries) => {
            let mut taken = JsonValue::Null;
            std::mem::swap(&mut taken, base);
            match taken {
                JsonValue::Object(mut es) => {
                    proof {
                        lemma_object_view(es);
                        lemma_object_view(patch_entries);
                    }
                    let ghost b = entries_view(es@);
                    let ghost p = entries_view(patch_entries@);
                    let ghost mut idx: int = 0;
                    assert(p.take(0) =~= Seq::<(Seq<char>, Json)>::empty());
                    for item in it: patch_entries
                        invariant
                            it.seq() == patch_entries@,
                            idx == it.index(),
                            orig == JsonValue::Object(patch_entries),
                            orig == patch,
                            p == entries_view(patch_entries@),
                            entries_view(es@) == merged_members(b, p.take(idx)),
                    {
                        assert(item == patch_entries@[idx]);
                        proof {
                            assert(decreases_to!(orig => orig->Object_0));
                            assert(decreases_to!(patch_entries => patch_entries@));
                            assert(decreases_to!(patch_entries@ => patch_entries@[idx]));
                            assert(decreases_to!(patch_entries@[idx] => patch_entries@[idx].1));
                            assert(decreases_to!(orig => patch_entries@[idx].1));
                        }
                        let (k, v) = item;
                        assert(v == patch_entries@[idx].1);
                        let ghost acc = entries_view(es@);
                        let mut current = match find_member(&es, k.as_str()) {
                            Some(i) => {
                                proof {
                                    lemma_key_at_unique(acc, k@, i as int, key_index(acc, k@));
                                }
                                clone_json(&es[i].1)
                            },
                            None => JsonValue::Null,
                        };
                        assert(current@ == member_or_null(acc, k@));
                        merge_json_config(&mut current, v);
                        set_entry(&mut es, k, current);
                        proof {
                            assert(p.take(idx + 1).drop_last() == p.take(idx));
                            assert(p.take(idx + 1).last() == p[idx]);
                            idx = idx + 1;
                        }
                    }
                    assert(p.take(p.len() as int) == p);
                    *base = JsonValue::Object(es);
                    proof {
                        lemma_object_view(es);
                    }
                },
                other => {
                    *base = JsonValue::Object(patch_entries);
                    assert(!(old_base is Object));
                },
            }
        },
        other => {
            *base = other;
        },
    }
}

} // verus!
