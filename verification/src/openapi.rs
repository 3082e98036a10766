//! Rewriting the generated OpenAPI 3.1 document into the 3.0 dialect that Swagger Editor reads.
use vstd::prelude::*;
use vstd::string::*;

use crate::json::{
    entries_view, find_member, items_view, key_index, lemma_array_view,
    lemma_key_at_unique, lemma_object_view, lookup, remove_entry, remove_member, set_entry,
    set_member, has_key, Json, JsonValue,
};
use crate::text::{chars_of, str_eq, string_of};

verus! {

/// The string elements of a `type` array, other than `"null"`, in order.
pub open spec fn non_null_types(items: Seq<Json>) -> Seq<Seq<char>>
    decreases items.len(),
{
    if items.len() == 0 {
        Seq::empty()
    } else {
        let rest = non_null_types(items.drop_last());
        match items.last() {
            Json::Str(s) => if s != "null"@ {
                rest.push(s)
            } else {
                rest
            },
            _ => rest,
        }
    }
}

/// A `type` array lists `"null"`.
pub open spec fn has_null_type(items: Seq<Json>) -> bool {
    exists|i: int| 0 <= i < items.len() && items[i] == Json::Str("null"@)
}

/// The schema `{"type": t}`.
pub open spec fn type_schema(t: Seq<char>) -> Json {
    Json::Object(seq![("type"@, Json::Str(t))])
}

/// An object's members after its `type` array is rewritten: `"null"` in the array becomes
/// `"nullable": true`; one remaining type becomes the plain `type`; none removes `type`;
/// several become `oneOf` alternatives, one `{"type": t}` each.
pub open spec fn types_normalized(es: Seq<(Seq<char>, Json)>) -> Seq<(Seq<char>, Json)> {
    match lookup(es, "type"@) {
        Some(Json::Array(items)) => {
            let es1 = if has_null_type(items) {
                set_member(es, "nullable"@, Json::Bool(true))
            } else {
                es
            };
            let nn = non_null_types(items);
            if nn.len() == 1 {
                set_member(es1, "type"@, Json::Str(nn[0]))
            } else if nn.len() == 0 {
                remove_member(es1, "type"@)
            } else {
                remove_member(
                    set_member(es1, "oneOf"@, Json::Array(nn.map_values(|t: Seq<char>| type_schema(t)))),
                    "type"@,
                )
            }
        },
        _ => es,
    }
}

fn type_list(items: &Vec<JsonValue>) -> (r: (Vec<String>, bool))
    ensures
        r.0@.map_values(|s: String| s@) == non_null_types(items_view(items@)),
        r.1 == has_null_type(items_view(items@)),
{
    let ghost iv = items_view(items@);
    let mut names: Vec<String> = Vec::new();
    let mut has_null = false;
    let mut i: usize = 0;
    while i < items.len()
        invariant
            i <= items@.len(),
            iv == items_view(items@),
            names@.map_values(|s: String| s@) == non_null_types(iv.take(i as int)),
            has_null == exists|k: int| 0 <= k < i && iv[k] == Json::Str("null"@),
        decreases items@.len() - i,
    {
        assert(iv.take(i + 1).drop_last() == iv.take(i as int));
        assert(iv.take(i + 1).last() == iv[i as int]);
        let ghost before = names@;
        match &items[i] {
            JsonValue::Str(s) => {
                if str_eq(s.as_str(), "null") {
                    has_null = true;
                } else {
                    names.push(s.clone());
                    assert(names@.map_values(|s: String| s@) =~= before.map_values(|s: String| s@).push(s@));
                }
            },
            _ => {},
        }
        i = i + 1;
    }
    assert(iv.take(iv.len() as int) == iv);
    (names, has_null)
}

fn type_schema_value(t: String) -> (v: JsonValue)
    ensures
        v@ == type_schema(t@),
{
    let mut members: Vec<(String, JsonValue)> = Vec::new();
    members.push(("type".to_owned(), JsonValue::Str(t)));
    proof {
        lemma_object_view(members);
        assert(entries_view(members@) =~= seq![("type"@, Json::Str(t@))]);
    }
    JsonValue::Object(members)
}

/// Rewrites an object's `type` array as `types_normalized` says.
pub fn normalize_type_array(object: &mut Vec<(String, JsonValue)>)
    ensures
        entries_view(final(object)@) == types_normalized(entries_view(old(object)@)),
{
    let ghost es = entries_view(object@);
    let found = match find_member(object, "type") {
        Some(i) => match &object[i].1 {
            JsonValue::Array(items) => {
                proof {
                    lemma_key_at_unique(es, "type"@, i as int, key_index(es, "type"@));
                    lemma_array_view(*items);
                }
                Some(type_list(items))
            },
            _ => {
                proof {
                    lemma_key_at_unique(es, "type"@, i as int, key_index(es, "type"@));
                }
                None
            },
        },
        None => None,
    };
    let (names, has_null) = match found {
        Some(f) => f,
        None => return,
    };
    if has_null {
        set_entry(object, "nullable".to_owned(), JsonValue::Bool(true));
    }
    let ghost nn = names@.map_values(|s: String| s@);
    if names.len() == 1 {
        let t = names[0].clone();
        set_entry(object, "type".to_owned(), JsonValue::Str(t));
    } else if names.len() == 0 {
        remove_entry(object, "type");
    } else {
        let mut alternatives: Vec<JsonValue> = Vec::new();
        let mut j: usize = 0;
        while j < names.len()
            invariant
                j <= names@.len(),
                nn == names@.map_values(|s: String| s@),
                items_view(alternatives@) == nn.take(j as int).map_values(|t: Seq<char>| type_schema(t)),
            decreases names@.len() - j,
        {
            let ghost before = items_view(alternatives@);
            let alt = type_schema_value(names[j].clone());
            assert(nn[j as int] == names@[j as int]@);
            assert(alt@ == type_schema(nn[j as int]));
            alternatives.push(alt);
            assert(items_view(alternatives@) =~= before.push(type_schema(nn[j as int])));
            assert(nn.take(j + 1).map_values(|t: Seq<char>| type_schema(t)) =~= nn.take(j as int).map_values(|t: Seq<char>| type_schema(t)).push(type_schema(nn[j as int])));
            j = j + 1;
        }
        assert(nn.take(nn.len() as int) == nn);
        proof {
            lemma_array_view(alternatives);
        }
        set_entry(object, "oneOf".to_owned(), JsonValue::Array(alternatives));
        remove_entry(object, "type");
    }
}

/// A schema that only says `"type": "null"`.
pub open spec fn is_null_schema(v: Json) -> bool {
    match v {
        Json::Object(es) => lookup(es, "type"@) == Some(Json::Str("null"@)),
        _ => false,
    }
}

/// The alternatives that are not null schemas, in order.
pub open spec fn non_null_alternatives(items: Seq<Json>) -> Seq<Json> {
    items.filter(not_null_schema())
}

pub open spec fn not_null_schema() -> spec_fn(Json) -> bool {
    |v: Json| !is_null_schema(v)
}

/// `es` with each member of `extra` added whose key `es` does not yet have.
pub open spec fn with_missing(es: Seq<(Seq<char>, Json)>, extra: Seq<(Seq<char>, Json)>) -> Seq<(Seq<char>, Json)>
    decreases extra.len(),
{
    if extra.len() == 0 {
        es
    } else {
        let acc = with_missing(es, extra.drop_last());
        if has_key(acc, extra.last().0) {
            acc
        } else {
            acc.push(extra.last())
        }
    }
}

/// An object's members after null alternatives leave its `oneOf`: when there were any, the
/// object becomes `"nullable": true`; a single remaining alternative is folded into the object
/// (its members fill the keys the object lacks); several remain as `oneOf`. A `oneOf` that is
/// not an array is dropped.
pub open spec fn one_of_normalized(es: Seq<(Seq<char>, Json)>) -> Seq<(Seq<char>, Json)> {
    let removed = remove_member(es, "oneOf"@);
    match lookup(es, "oneOf"@) {
        Some(Json::Array(one_of)) => {
            let kept = non_null_alternatives(one_of);
            if kept.len() == one_of.len() {
                set_member(removed, "oneOf"@, Json::Array(kept))
            } else {
                let es2 = set_member(removed, "nullable"@, Json::Bool(true));
                if kept.len() == 1 {
                    match kept[0] {
                        Json::Object(ks) => with_missing(es2, ks),
                        _ => es2,
                    }
                } else if kept.len() > 0 {
                    set_member(es2, "oneOf"@, Json::Array(kept))
                } else {
                    es2
                }
            }
        },
        _ => removed,
    }
}

fn null_schema(v: &JsonValue) -> (b: bool)
    ensures
        b == is_null_schema(v@),
{
    match v {
        JsonValue::Object(es) => {
            proof {
                lemma_object_view(*es);
            }
            match find_member(es, "type") {
                Some(i) => {
                    proof {
                        let ev = entries_view(es@);
                        lemma_key_at_unique(ev, "type"@, i as int, key_index(ev, "type"@));
                    }
                    match &es[i].1 {
                        JsonValue::Str(s) => str_eq(s.as_str(), "null"),
                        _ => false,
                    }
                },
                None => false,
            }
        },
        _ => false,
    }
}

fn add_missing(object: &mut Vec<(String, JsonValue)>, extra: Vec<(String, JsonValue)>)
    ensures
        entries_view(final(object)@) == with_missing(entries_view(old(object)@), entries_view(extra@)),
{
    let ghost start = entries_view(object@);
    let ghost xs = entries_view(extra@);
    let ghost mut idx: int = 0;
    for item in it: extra
        invariant
            it.seq() == extra@,
            idx == it.index(),
            xs == entries_view(extra@),
            entries_view(object@) == with_missing(start, xs.take(idx)),
    {
        assert(item == extra@[idx]);
        assert(xs.take(idx + 1).drop_last() == xs.take(idx));
        assert(xs.take(idx + 1).last() == xs[idx]);
        let (k, v) = item;
        match find_member(object, k.as_str()) {
            Some(_) => {},
            None => {
                let ghost before = entries_view(object@);
                object.push((k, v));
                assert(entries_view(object@) =~= before.push(xs[idx]));
            },
        }
        proof {
            idx = idx + 1;
        }
    }
    assert(xs.take(xs.len() as int) == xs);
}

/// Removes null alternatives from an object's `oneOf` as `one_of_normalized` says.
pub fn normalize_one_of_null(object: &mut Vec<(String, JsonValue)>)
    ensures
        entries_view(final(object)@) == one_of_normalized(entries_view(old(object)@)),
{
    let ghost es = entries_view(object@);
    let removed = remove_entry(object, "oneOf");
    let one_of = match removed {
        Some(JsonValue::Array(items)) => items,
        _ => return,
    };
    proof {
        lemma_array_view(one_of);
    }
    let ghost ov = items_view(one_of@);
    let original_len = one_of.len();
    let mut kept: Vec<JsonValue> = Vec::new();
    let ghost mut idx: int = 0;
    for item in it: one_of
        invariant
            it.seq() == one_of@,
            idx == it.index(),
            ov == items_view(one_of@),
            items_view(kept@) == non_null_alternatives(ov.take(idx)),
    {
        assert(item == one_of@[idx]);
        assert(ov.take(idx + 1).drop_last() == ov.take(idx));
        assert(ov.take(idx + 1).last() == ov[idx]);
        assert(non_null_alternatives(ov.take(idx + 1)) == if !is_null_schema(ov[idx]) {
            non_null_alternatives(ov.take(idx)).push(ov[idx])
        } else {
            non_null_alternatives(ov.take(idx))
        }) by {
            reveal_with_fuel(Seq::filter, 1);
        }
        if !null_schema(&item) {
            let ghost before = items_view(kept@);
            kept.push(item);
            assert(items_view(kept@) =~= before.push(ov[idx]));
        }
        proof {
            idx = idx + 1;
        }
    }
    assert(ov.take(ov.len() as int) == ov);
    let ghost kv = items_view(kept@);
    if kept.len() == original_len {
        proof {
            lemma_array_view(kept);
        }
        set_entry(object, "oneOf".to_owned(), JsonValue::Array(kept));
        return;
    }
    set_entry(object, "nullable".to_owned(), JsonValue::Bool(true));
    if kept.len() == 1 {
        let only = kept.pop().unwrap();
        assert(only@ == kv[0]);
        match only {
            JsonValue::Object(members) => {
                proof {
                    lemma_object_view(members);
                }
                add_missing(object, members);
            },
            _ => {},
        }
    } else if kept.len() > 0 {
        proof {
            lemma_array_view(kept);
        }
        set_entry(object, "oneOf".to_owned(), JsonValue::Array(kept));
    }
}

} // verus!

verus! {

/// `s` without its leading occurrences of `c`.
pub open spec fn trim_start_with(s: Seq<char>, c: char) -> Seq<char>
    decreases s.len(),
{
    if s.len() > 0 && s[0] == c {
        trim_start_with(s.drop_first(), c)
    } else {
        s
    }
}

pub open spec fn id_char(c: char) -> char {
    if c == '/' || c == '-' || c == '{' || c == '}' {
        '_'
    } else {
        c
    }
}

/// The operation id of `method` on `path`: the method, `_`, then the path without its leading
/// slashes, with `/ - { }` turned into `_` and surrounding underscores removed.
pub open spec fn operation_id(method: Seq<char>, path: Seq<char>) -> Seq<char> {
    method + "_"@ + crate::text::trim_end_with(
        trim_start_with(trim_start_with(path, '/').map_values(|c: char| id_char(c)), '_'),
        '_',
    )
}

pub open spec fn is_http_method(m: Seq<char>) -> bool {
    m == "get"@ || m == "post"@ || m == "put"@ || m == "patch"@ || m == "delete"@ || m == "head"@
        || m == "options"@ || m == "trace"@
}

/// `op` with its `operationId` set to `id`; a `null` operation becomes an object.
pub open spec fn with_operation_id(op: Json, id: Seq<char>) -> Json {
    match op {
        Json::Object(es) => Json::Object(set_member(es, "operationId"@, Json::Str(id))),
        Json::Null => Json::Object(seq![("operationId"@, Json::Str(id))]),
        _ => op,
    }
}

/// An operation that can take an `operationId`: an object, or `null`.
pub open spec fn indexable(op: Json) -> bool {
    op is Object || op is Null
}

pub open spec fn methods_with_ids(path: Seq<char>, ms: Seq<(Seq<char>, Json)>) -> Seq<(Seq<char>, Json)> {
    Seq::new(
        ms.len(),
        |i: int|
            (ms[i].0, if is_http_method(ms[i].0) {
                with_operation_id(ms[i].1, operation_id(ms[i].0, path))
            } else {
                ms[i].1
            }),
    )
}

pub open spec fn paths_with_ids(pes: Seq<(Seq<char>, Json)>) -> Seq<(Seq<char>, Json)> {
    Seq::new(
        pes.len(),
        |i: int|
            (pes[i].0, match pes[i].1 {
                Json::Object(ms) => Json::Object(methods_with_ids(pes[i].0, ms)),
                other => other,
            }),
    )
}

/// The document's members after every operation under `paths` got its operation id.
pub open spec fn ids_assigned(es: Seq<(Seq<char>, Json)>) -> Seq<(Seq<char>, Json)> {
    match lookup(es, "paths"@) {
        Some(Json::Object(pes)) => set_member(es, "paths"@, Json::Object(paths_with_ids(pes))),
        _ => es,
    }
}

/// Every operation of `paths` that gets an id is an object or `null`.
pub open spec fn operations_indexable(es: Seq<(Seq<char>, Json)>) -> bool {
    match lookup(es, "paths"@) {
        Some(Json::Object(pes)) => forall|i: int, j: int|
            0 <= i < pes.len() && (#[trigger] pes[i]).1 is Object && 0 <= j < pes[i].1->Object_0.len()
                && is_http_method(pes[i].1->Object_0[j].0) ==> indexable(#[trigger] pes[i].1->Object_0[j].1),
        _ => true,
    }
}

fn build_operation_id(method: &str, path: &str) -> (id: String)
    ensures
        id@ == operation_id(method@, path@),
{
    let cs = chars_of(path);
    let mut start: usize = 0;
    assert(cs@.skip(0) == cs@);
    while start < cs.len() && cs[start] == '/'
        invariant
            start <= cs@.len(),
            trim_start_with(cs@, '/') == trim_start_with(cs@.skip(start as int), '/'),
        decreases cs@.len() - start,
    {
        assert(cs@.skip(start as int).drop_first() == cs@.skip(start + 1));
        start = start + 1;
    }
    let ghost rest = cs@.skip(start as int);
    assert(trim_start_with(rest, '/') == rest);
    let ghost mapped = rest.map_values(|c: char| id_char(c));
    let mut replaced: Vec<char> = Vec::new();
    let mut k = start;
    while k < cs.len()
        invariant
            start <= k <= cs@.len(),
            rest == cs@.skip(start as int),
            mapped == rest.map_values(|c: char| id_char(c)),
            replaced@ == mapped.take(k - start),
        decreases cs@.len() - k,
    {
        let c = cs[k];
        let r = if c == '/' || c == '-' || c == '{' || c == '}' { '_' } else { c };
        assert(mapped[k - start] == id_char(c));
        replaced.push(r);
        assert(replaced@ =~= mapped.take(k + 1 - start));
        k = k + 1;
    }
    assert(mapped.take(mapped.len() as int) == mapped);
    let mut lo: usize = 0;
    while lo < replaced.len() && replaced[lo] == '_'
        invariant
            lo <= replaced@.len(),
            trim_start_with(mapped, '_') == trim_start_with(replaced@.skip(lo as int), '_'),
            replaced@ == mapped,
        decreases replaced@.len() - lo,
    {
        assert(replaced@.skip(lo as int).drop_first() == replaced@.skip(lo + 1));
        lo = lo + 1;
    }
    let ghost front = replaced@.skip(lo as int);
    assert(trim_start_with(front, '_') == front);
    let mut hi: usize = replaced.len();
    assert(front.take(front.len() as int) == front);
    while hi > lo && replaced[hi - 1] == '_'
        invariant
            lo <= hi <= replaced@.len(),
            front == replaced@.skip(lo as int),
            crate::text::trim_end_with(front, '_') == crate::text::trim_end_with(front.take(hi - lo), '_'),
        decreases hi,
    {
        assert(front.take(hi - lo).drop_last() == front.take(hi - 1 - lo));
        hi = hi - 1;
    }
    assert(front.take(hi - lo) == replaced@.subrange(lo as int, hi as int));
    let mut id = method.to_owned();
    id.append("_");
    id.append(string_of(&replaced, lo, hi).as_str());
    id
}

fn http_method(m: &str) -> (b: bool)
    ensures
        b == is_http_method(m@),
{
    str_eq(m, "get") || str_eq(m, "post") || str_eq(m, "put") || str_eq(m, "patch") || str_eq(m, "delete")
        || str_eq(m, "head") || str_eq(m, "options") || str_eq(m, "trace")
}

fn set_operation_id(op: JsonValue, id: String) -> (out: JsonValue)
    ensures
        out@ == with_operation_id(op@, id@),
{
    match op {
        JsonValue::Object(mut es) => {
            proof {
                lemma_object_view(es);
            }
            set_entry(&mut es, "operationId".to_owned(), JsonValue::Str(id));
            proof {
                lemma_object_view(es);
            }
            JsonValue::Object(es)
        },
        JsonValue::Null => {
            let mut es: Vec<(String, JsonValue)> = Vec::new();
            es.push(("operationId".to_owned(), JsonValue::Str(id)));
            proof {
                lemma_object_view(es);
                assert(entries_view(es@) =~= seq![("operationId"@, Json::Str(id@))]);
            }
            JsonValue::Object(es)
        },
        other => other,
    }
}

fn methods_assigned(path: &str, ms: Vec<(String, JsonValue)>) -> (out: Vec<(String, JsonValue)>)
    ensures
        entries_view(out@) == methods_with_ids(path@, entries_view(ms@)),
{
    let ghost mv = entries_view(ms@);
    let mut out: Vec<(String, JsonValue)> = Vec::new();
    let ghost mut idx: int = 0;
    for item in it: ms
        invariant
            it.seq() == ms@,
            idx == it.index(),
            mv == entries_view(ms@),
            entries_view(out@) == methods_with_ids(path@, mv).take(idx),
    {
        assert(item == ms@[idx]);
        let (m, op) = item;
        let ghost before = entries_view(out@);
        let op2 = if http_method(m.as_str()) {
            let id = build_operation_id(m.as_str(), path);
            set_operation_id(op, id)
        } else {
            op
        };
        let ghost new_member = (m@, op2@);
        assert(mv[idx] == (m@, op@));
        assert(new_member == methods_with_ids(path@, mv)[idx]);
        out.push((m, op2));
        assert(entries_view(out@) =~= before.push(new_member));
        assert(methods_with_ids(path@, mv).take(idx + 1) =~= methods_with_ids(path@, mv).take(idx).push(new_member));
        proof {
            idx = idx + 1;
        }
    }
    assert(methods_with_ids(path@, mv).take(mv.len() as int) =~= methods_with_ids(path@, mv));
    out
}

fn paths_assigned(pes: Vec<(String, JsonValue)>) -> (out: Vec<(String, JsonValue)>)
    ensures
        entries_view(out@) == paths_with_ids(entries_view(pes@)),
{
    let ghost pv = entries_view(pes@);
    let mut out: Vec<(String, JsonValue)> = Vec::new();
    let ghost mut idx: int = 0;
    for entry in it: pes
        invariant
            it.seq() == pes@,
            idx == it.index(),
            pv == entries_view(pes@),
            entries_view(out@) == paths_with_ids(pv).take(idx),
    {
        assert(entry == pes@[idx]);
        let (path, item) = entry;
        assert(pv[idx] == (path@, item@));
        let item2 = match item {
            JsonValue::Object(ms) => {
                proof {
                    lemma_object_view(ms);
                }
                let ms2 = methods_assigned(path.as_str(), ms);
                proof {
                    lemma_object_view(ms2);
                }
                JsonValue::Object(ms2)
            },
            other => other,
        };
        let ghost new_member = (path@, item2@);
        assert(new_member == paths_with_ids(pv)[idx]);
        let ghost before = entries_view(out@);
        out.push((path, item2));
        assert(entries_view(out@) =~= before.push(new_member));
        assert(paths_with_ids(pv).take(idx + 1) =~= paths_with_ids(pv).take(idx).push(new_member));
        proof {
            idx = idx + 1;
        }
    }
    assert(paths_with_ids(pv).take(pv.len() as int) =~= paths_with_ids(pv));
    out
}

/// Gives every operation under `paths` its operation id (see `operation_id`).
pub fn assign_unique_operation_ids(object: &mut Vec<(String, JsonValue)>)
    ensures
        entries_view(final(object)@) == ids_assigned(entries_view(old(object)@)),
{
    let ghost es = entries_view(object@);
    let i = match find_member(object, "paths") {
        Some(i) => i,
        None => return,
    };
    proof {
        lemma_key_at_unique(es, "paths"@, i as int, key_index(es, "paths"@));
    }
    let is_object = match &object[i].1 {
        JsonValue::Object(_) => true,
        _ => false,
    };
    if !is_object {
        return;
    }
    let (key, paths) = object.remove(i);
    let pes = match paths {
        JsonValue::Object(pes) => pes,
        other => other_members(other),
    };
    proof {
        lemma_object_view(pes);
    }
    let updated = paths_assigned(pes);
    proof {
        lemma_object_view(updated);
    }
    object.insert(i, (key, JsonValue::Object(updated)));
    assert(entries_view(object@) =~= es.update(i as int, ("paths"@, Json::Object(paths_with_ids(entries_view(pes@))))));
}

fn other_members(v: JsonValue) -> (out: Vec<(String, JsonValue)>)
    requires
        v is Object,
    ensures
        JsonValue::Object(out) == v,
{
    match v {
        JsonValue::Object(es) => es,
        _ => Vec::new(),
    }
}

} // verus!

verus! {

/// How deeply a value nests: 0 for a scalar, one more than its deepest element for an array
/// or an object.
pub open spec fn depth(v: Json) -> nat
    decreases v,
{
    match v {
        Json::Array(items) => 1 + items_depth(items),
        Json::Object(es) => 1 + members_depth(es),
        _ => 0,
    }
}

pub open spec fn items_depth(items: Seq<Json>) -> nat
    decreases items,
{
    if items.len() == 0 {
        0
    } else {
        let a = items_depth(items.drop_last());
        let b = depth(items.last());
        if a >= b {
            a
        } else {
            b
        }
    }
}

pub open spec fn members_depth(es: Seq<(Seq<char>, Json)>) -> nat
    decreases es,
{
    if es.len() == 0 {
        0
    } else {
        let a = members_depth(es.drop_last());
        let b = depth(es.last().1);
        if a >= b {
            a
        } else {
            b
        }
    }
}

pub proof fn lemma_item_depth(items: Seq<Json>, i: int)
    requires
        0 <= i < items.len(),
    ensures
        depth(items[i]) <= items_depth(items),
    decreases items.len(),
{
    if i < items.len() - 1 {
        lemma_item_depth(items.drop_last(), i);
        assert(items.drop_last()[i] == items[i]);
    }
}

proof fn lemma_member_depth(es: Seq<(Seq<char>, Json)>, i: int)
    requires
        0 <= i < es.len(),
    ensures
        depth(es[i].1) <= members_depth(es),
    decreases es.len(),
{
    if i < es.len() - 1 {
        lemma_member_depth(es.drop_last(), i);
        assert(es.drop_last()[i] == es[i]);
    }
}

proof fn lemma_items_depth_bound(items: Seq<Json>, k: nat)
    requires
        forall|i: int| 0 <= i < items.len() ==> depth(#[trigger] items[i]) <= k,
    ensures
        items_depth(items) <= k,
    decreases items.len(),
{
    if items.len() > 0 {
        assert forall|i: int| 0 <= i < items.drop_last().len() implies depth(#[trigger] items.drop_last()[i]) <= k by {
            assert(items.drop_last()[i] == items[i]);
        }
        lemma_items_depth_bound(items.drop_last(), k);
        assert(depth(items[items.len() - 1]) <= k);
    }
}

proof fn lemma_members_depth_bound(es: Seq<(Seq<char>, Json)>, k: nat)
    requires
        forall|i: int| 0 <= i < es.len() ==> depth((#[trigger] es[i]).1) <= k,
    ensures
        members_depth(es) <= k,
    decreases es.len(),
{
    if es.len() > 0 {
        assert forall|i: int| 0 <= i < es.drop_last().len() implies depth((#[trigger] es.drop_last()[i]).1) <= k by {
            assert(es.drop_last()[i] == es[i]);
        }
        lemma_members_depth_bound(es.drop_last(), k);
        assert(depth(es[es.len() - 1].1) <= k);
    }
}

proof fn lemma_filter_keeps<A>(s: Seq<A>, pred: spec_fn(A) -> bool, q: spec_fn(A) -> bool)
    requires
        forall|i: int| 0 <= i < s.len() ==> q(#[trigger] s[i]),
    ensures
        forall|i: int| 0 <= i < s.filter(pred).len() ==> q(#[trigger] s.filter(pred)[i]),
    decreases s.len(),
{
    reveal_with_fuel(Seq::filter, 1);
    if s.len() > 0 {
        assert forall|i: int| 0 <= i < s.drop_last().len() implies q(#[trigger] s.drop_last()[i]) by {
            assert(s.drop_last()[i] == s[i]);
        }
        lemma_filter_keeps(s.drop_last(), pred, q);
        assert(q(s[s.len() - 1]));
        let f = s.drop_last().filter(pred);
        assert(s.filter(pred) == if pred(s.last()) {
            f.push(s.last())
        } else {
            f
        });
        assert forall|i: int| 0 <= i < s.filter(pred).len() implies q(#[trigger] s.filter(pred)[i]) by {
            if i < f.len() {
                assert(s.filter(pred)[i] == f[i]);
            }
        }
    }
}

/// A member value that normalizing an object of depth `d` recurses into: shallower than `d`,
/// or an array or scalar no deeper than `d`.
pub open spec fn fits(x: Json, d: nat) -> bool {
    depth(x) < d || (depth(x) <= d && !(x is Object))
}

pub open spec fn all_fit(es: Seq<(Seq<char>, Json)>, d: nat) -> bool {
    forall|i: int| 0 <= i < es.len() ==> fits((#[trigger] es[i]).1, d)
}

proof fn lemma_fit_set(es: Seq<(Seq<char>, Json)>, k: Seq<char>, v: Json, d: nat)
    requires
        all_fit(es, d),
        fits(v, d),
    ensures
        all_fit(set_member(es, k, v), d),
{
    let r = set_member(es, k, v);
    assert forall|i: int| 0 <= i < r.len() implies fits((#[trigger] r[i]).1, d) by {
        if has_key(es, k) {
            if i != key_index(es, k) {
                assert(r[i] == es[i]);
            }
        } else {
            if i < es.len() {
                assert(r[i] == es[i]);
            }
        }
    }
}

proof fn lemma_fit_remove(es: Seq<(Seq<char>, Json)>, k: Seq<char>, d: nat)
    requires
        all_fit(es, d),
    ensures
        all_fit(remove_member(es, k), d),
{
    let q = |e: (Seq<char>, Json)| fits(e.1, d);
    lemma_filter_keeps(es, crate::json::key_differs(k), q);
    let r = remove_member(es, k);
    assert forall|i: int| 0 <= i < r.len() implies fits((#[trigger] r[i]).1, d) by {
        assert(q(r[i]));
    }
}

proof fn lemma_fit_missing(es: Seq<(Seq<char>, Json)>, extra: Seq<(Seq<char>, Json)>, d: nat)
    requires
        all_fit(es, d),
        all_fit(extra, d),
    ensures
        all_fit(with_missing(es, extra), d),
    decreases extra.len(),
{
    if extra.len() > 0 {
        assert forall|i: int| 0 <= i < extra.drop_last().len() implies fits((#[trigger] extra.drop_last()[i]).1, d) by {
            assert(extra.drop_last()[i] == extra[i]);
        }
        lemma_fit_missing(es, extra.drop_last(), d);
        let acc = with_missing(es, extra.drop_last());
        assert(fits(extra[extra.len() - 1].1, d));
        if !has_key(acc, extra.last().0) {
            assert forall|i: int| 0 <= i < acc.push(extra.last()).len() implies fits((#[trigger] acc.push(extra.last())[i]).1, d) by {
                if i < acc.len() {
                    assert(acc.push(extra.last())[i] == acc[i]);
                }
            }
        }
    }
}

proof fn lemma_lookup_member(es: Seq<(Seq<char>, Json)>, k: Seq<char>)
    requires
        has_key(es, k),
    ensures
        0 <= key_index(es, k) < es.len(),
        lookup(es, k) == Some(es[key_index(es, k)].1),
{
}

proof fn lemma_type_schemas_depth(nn: Seq<Seq<char>>)
    ensures
        depth(Json::Array(nn.map_values(|t: Seq<char>| type_schema(t)))) <= 2,
{
    let items = nn.map_values(|t: Seq<char>| type_schema(t));
    assert forall|i: int| 0 <= i < items.len() implies depth(#[trigger] items[i]) <= 1 by {
        let ms = seq![("type"@, Json::Str(nn[i]))];
        assert(items[i] == Json::Object(ms));
        assert(ms.drop_last().len() == 0);
        assert(members_depth(ms.drop_last()) == 0);
        assert(depth(ms.last().1) == 0);
        assert(members_depth(ms) == 0);
    }
    lemma_items_depth_bound(items, 1);
}

proof fn lemma_types_fit(es: Seq<(Seq<char>, Json)>, d: nat)
    requires
        forall|i: int| 0 <= i < es.len() ==> depth((#[trigger] es[i]).1) < d,
    ensures
        all_fit(types_normalized(es), d),
{
    assert(all_fit(es, d));
    if let Some(Json::Array(items)) = lookup(es, "type"@) {
        lemma_lookup_member(es, "type"@);
        assert(depth(es[key_index(es, "type"@)].1) < d);
        assert(d >= 2);
        let es1 = if has_null_type(items) {
            set_member(es, "nullable"@, Json::Bool(true))
        } else {
            es
        };
        if has_null_type(items) {
            lemma_fit_set(es, "nullable"@, Json::Bool(true), d);
        }
        let nn = non_null_types(items);
        if nn.len() == 1 {
            lemma_fit_set(es1, "type"@, Json::Str(nn[0]), d);
        } else if nn.len() == 0 {
            lemma_fit_remove(es1, "type"@, d);
        } else {
            let alt = Json::Array(nn.map_values(|t: Seq<char>| type_schema(t)));
            lemma_type_schemas_depth(nn);
            lemma_fit_set(es1, "oneOf"@, alt, d);
            lemma_fit_remove(set_member(es1, "oneOf"@, alt), "type"@, d);
        }
    }
}

proof fn lemma_one_of_fit(es: Seq<(Seq<char>, Json)>, d: nat)
    requires
        all_fit(es, d),
        d >= 1,
    ensures
        all_fit(one_of_normalized(es), d),
{
    let removed = remove_member(es, "oneOf"@);
    lemma_fit_remove(es, "oneOf"@, d);
    if let Some(Json::Array(one_of)) = lookup(es, "oneOf"@) {
        lemma_lookup_member(es, "oneOf"@);
        assert(fits(es[key_index(es, "oneOf"@)].1, d));
        assert(1 + items_depth(one_of) <= d);
        let kept = non_null_alternatives(one_of);
        let m = items_depth(one_of);
        assert forall|i: int| 0 <= i < one_of.len() implies depth(#[trigger] one_of[i]) <= m by {
            lemma_item_depth(one_of, i);
        }
        let q = |x: Json| depth(x) <= m;
        lemma_filter_keeps(one_of, not_null_schema(), q);
        assert forall|i: int| 0 <= i < kept.len() implies depth(#[trigger] kept[i]) <= m by {
            assert(q(kept[i]));
        }
        lemma_items_depth_bound(kept, m);
        assert(fits(Json::Array(kept), d));
        if kept.len() == one_of.len() {
            lemma_fit_set(removed, "oneOf"@, Json::Array(kept), d);
        } else {
            let es2 = set_member(removed, "nullable"@, Json::Bool(true));
            lemma_fit_set(removed, "nullable"@, Json::Bool(true), d);
            if kept.len() == 1 {
                if let Json::Object(ks) = kept[0] {
                    assert(depth(kept[0]) <= m);
                    assert forall|i: int| 0 <= i < ks.len() implies fits((#[trigger] ks[i]).1, d) by {
                        lemma_member_depth(ks, i);
                    }
                    lemma_fit_missing(es2, ks, d);
                }
            } else if kept.len() > 0 {
                lemma_fit_set(es2, "oneOf"@, Json::Array(kept), d);
            }
        }
    }
}

/// The members of an object after its `type` array and its null `oneOf` alternatives are
/// rewritten.
pub open spec fn schema_members(es: Seq<(Seq<char>, Json)>) -> Seq<(Seq<char>, Json)> {
    one_of_normalized(types_normalized(es))
}

pub proof fn lemma_schema_members_fit(es: Seq<(Seq<char>, Json)>)
    ensures
        all_fit(schema_members(es), depth(Json::Object(es))),
{
    let d = depth(Json::Object(es));
    assert forall|i: int| 0 <= i < es.len() implies depth((#[trigger] es[i]).1) < d by {
        lemma_member_depth(es, i);
    }
    lemma_types_fit(es, d);
    lemma_one_of_fit(types_normalized(es), d);
}

pub open spec fn object_rank(v: Json) -> int {
    if v is Object {
        1
    } else {
        0
    }
}

/// A schema tree rewritten for OpenAPI 3.0: every object has its `type` array and null
/// `oneOf` alternatives rewritten, and then each of its member values is rewritten; every
/// array has each element rewritten.
pub open spec fn normalized_schema(v: Json) -> Json
    decreases depth(v), object_rank(v),
{
    match v {
        Json::Object(es) => {
            let es2 = schema_members(es);
            proof {
                lemma_schema_members_fit(es);
            }
            Json::Object(
                Seq::new(
                    es2.len(),
                    |i: int|
                        (es2[i].0, if 0 <= i < es2.len() {
                            normalized_schema(es2[i].1)
                        } else {
                            Json::Null
                        }),
                ),
            )
        },
        Json::Array(items) => {
            proof {
                assert forall|i: int| 0 <= i < items.len() implies depth(#[trigger] items[i]) < depth(v) by {
                    lemma_item_depth(items, i);
                }
            }
            Json::Array(
                Seq::new(
                    items.len(),
                    |i: int|
                        if 0 <= i < items.len() {
                            normalized_schema(items[i])
                        } else {
                            Json::Null
                        },
                ),
            )
        },
        _ => v,
    }
}

} // verus!

verus! {

fn normalized(v: JsonValue) -> (out: JsonValue)
    ensures
        out@ == normalized_schema(v@),
    decreases depth(v@), object_rank(v@),
{
    let ghost orig = v@;
    match v {
        JsonValue::Object(mut es) => {
            proof {
                lemma_object_view(es);
            }
            let ghost original = entries_view(es@);
            normalize_type_array(&mut es);
            normalize_one_of_null(&mut es);
            let ghost es2 = entries_view(es@);
            assert(es2 == schema_members(original));
            proof {
                lemma_schema_members_fit(original);
            }
            let ghost d = depth(orig);
            let ghost target = Seq::new(
                es2.len(),
                |i: int|
                    (es2[i].0, if 0 <= i < es2.len() {
                        normalized_schema(es2[i].1)
                    } else {
                        Json::Null
                    }),
            );
            let mut out: Vec<(String, JsonValue)> = Vec::new();
            let ghost mut idx: int = 0;
            for item in it: es
                invariant
                    it.seq() == es@,
                    idx == it.index(),
                    es2 == entries_view(es@),
                    all_fit(es2, d),
                    d == depth(orig),
                    orig == v@,
                    orig is Object,
                    target.len() == es2.len(),
                    forall|i: int| 0 <= i < es2.len() ==> #[trigger] target[i] == (es2[i].0, normalized_schema(es2[i].1)),
                    entries_view(out@) == target.take(idx),
            {
                assert(item == es@[idx]);
                let (k, x) = item;
                assert(es2[idx] == (k@, x@));
                assert(fits(x@, d));
                let y = normalized(x);
                let ghost before = entries_view(out@);
                out.push((k, y));
                assert(entries_view(out@) =~= before.push(target[idx]));
                assert(target.take(idx + 1) =~= target.take(idx).push(target[idx]));
                proof {
                    idx = idx + 1;
                }
            }
            assert(target.take(target.len() as int) == target);
            proof {
                lemma_object_view(out);
                assert(entries_view(out@) =~= target);
                assert(orig == Json::Object(original));
                assert(normalized_schema(orig)->Object_0 =~= target);
            }
            JsonValue::Object(out)
        },
        JsonValue::Array(items) => {
            proof {
                lemma_array_view(items);
            }
            let ghost iv = items_view(items@);
            let ghost target = Seq::new(
                iv.len(),
                |i: int|
                    if 0 <= i < iv.len() {
                        normalized_schema(iv[i])
                    } else {
                        Json::Null
                    },
            );
            let mut out: Vec<JsonValue> = Vec::new();
            let ghost mut idx: int = 0;
            for x in it: items
                invariant
                    it.seq() == items@,
                    idx == it.index(),
                    iv == items_view(items@),
                    orig == v@,
                    orig == Json::Array(iv),
                    target.len() == iv.len(),
                    forall|i: int| 0 <= i < iv.len() ==> #[trigger] target[i] == normalized_schema(iv[i]),
                    items_view(out@) == target.take(idx),
            {
                assert(x == items@[idx]);
                assert(iv[idx] == x@);
                proof {
                    lemma_item_depth(iv, idx);
                }
                let y = normalized(x);
                let ghost before = items_view(out@);
                out.push(y);
                assert(items_view(out@) =~= before.push(target[idx]));
                assert(target.take(idx + 1) =~= target.take(idx).push(target[idx]));
                proof {
                    idx = idx + 1;
                }
            }
            assert(target.take(target.len() as int) == target);
            proof {
                lemma_array_view(out);
                assert(items_view(out@) =~= target);
                assert(normalized_schema(orig)->Array_0 =~= target);
            }
            JsonValue::Array(out)
        },
        other => other,
    }
}

/// Rewrites a schema tree as `normalized_schema` says.
pub fn normalize_schema(value: &mut JsonValue)
    ensures
        final(value)@ == normalized_schema(old(value)@),
{
    let mut taken = JsonValue::Null;
    std::mem::swap(&mut taken, value);
    *value = normalized(taken);
}

/// A document that can be rewritten: an object (or `null`) whose operations can take ids.
pub open spec fn rewritable(doc: Json) -> bool {
    match doc {
        Json::Object(es) => operations_indexable(set_member(es, "openapi"@, Json::Str("3.0.3"@))),
        Json::Null => true,
        _ => false,
    }
}

/// The document rewritten for Swagger Editor: `openapi` set to `3.0.3`, every operation given
/// its operation id, and every schema normalized.
pub open spec fn swagger_document(doc: Json) -> Json {
    let es = match doc {
        Json::Object(es) => es,
        _ => Seq::empty(),
    };
    normalized_schema(Json::Object(ids_assigned(set_member(es, "openapi"@, Json::Str("3.0.3"@)))))
}

/// Rewrites the generated OpenAPI document for Swagger Editor.
pub fn normalize_for_swagger_editor(value: &mut JsonValue)
    requires
        rewritable(old(value)@),
    ensures
        final(value)@ == swagger_document(old(value)@),
{
    let mut taken = JsonValue::Null;
    std::mem::swap(&mut taken, value);
    let ghost old_doc = taken@;
    let mut es = match taken {
        JsonValue::Object(es) => {
            proof {
                lemma_object_view(es);
            }
            es
        },
        _ => {
            let e: Vec<(String, JsonValue)> = Vec::new();
            assert(entries_view(e@) =~= Seq::<(Seq<char>, Json)>::empty());
            e
        },
    };
    assert(entries_view(es@) == match old_doc {
        Json::Object(e) => e,
        _ => Seq::empty(),
    });
    let version = "3.0.3".to_owned();
    proof {
        reveal_strlit("3.0.3");
    }
    set_entry(&mut es, "openapi".to_owned(), JsonValue::Str(version));
    assign_unique_operation_ids(&mut es);
    proof {
        lemma_object_view(es);
    }
    *value = normalized(JsonValue::Object(es));
}

fn methods_indexable(ms: &Vec<(String, JsonValue)>) -> (b: bool)
    ensures
        b == forall|j: int|
            0 <= j < ms@.len() && is_http_method(#[trigger] entries_view(ms@)[j].0) ==> indexable(
                entries_view(ms@)[j].1,
            ),
{
    let mut j: usize = 0;
    while j < ms.len()
        invariant
            j <= ms@.len(),
            forall|k: int|
                0 <= k < j && is_http_method(#[trigger] entries_view(ms@)[k].0) ==> indexable(
                    entries_view(ms@)[k].1,
                ),
        decreases ms@.len() - j,
    {
        assert(entries_view(ms@)[j as int] == (ms@[j as int].0@, ms@[j as int].1@));
        if http_method(ms[j].0.as_str()) {
            let ok = match &ms[j].1 {
                JsonValue::Object(_) => true,
                JsonValue::Null => true,
                _ => false,
            };
            if !ok {
                assert(is_http_method(entries_view(ms@)[j as int].0) && !indexable(entries_view(ms@)[j as int].1));
                return false;
            }
        }
        j = j + 1;
    }
    true
}

/// Whether `normalize_for_swagger_editor` can rewrite `doc`: see `rewritable`.
#[verifier::loop_isolation(false)]
pub fn is_rewritable(doc: &JsonValue) -> (b: bool)
    ensures
        b == rewritable(doc@),
{
    match doc {
        JsonValue::Null => true,
        JsonValue::Object(es) => {
            let ghost ev = entries_view(es@);
            proof {
                lemma_object_view(*es);
                if "paths"@ != "openapi"@ {
                    crate::laws::law_member_write_keeps_others(ev, "openapi"@, Json::Str("3.0.3"@), "paths"@);
                }
                reveal_strlit("paths");
                reveal_strlit("openapi");
                assert("paths"@[0] != "openapi"@[0]);
            }
            let i = match find_member(es, "paths") {
                Some(i) => i,
                None => return true,
            };
            proof {
                lemma_key_at_unique(ev, "paths"@, i as int, key_index(ev, "paths"@));
            }
            let pes = match &es[i].1 {
                JsonValue::Object(pes) => pes,
                _ => return true,
            };
            proof {
                lemma_object_view(*pes);
            }
            let ghost pv = entries_view(pes@);
            assert(ev[i as int].1 == Json::Object(pv));
            assert(lookup(ev, "paths"@) == Some(Json::Object(pv)));
            let mut k: usize = 0;
            while k < pes.len()
                invariant
                    k <= pes@.len(),
                    pv == entries_view(pes@),
                    forall|a: int, j: int|
                        0 <= a < k && (#[trigger] pv[a]).1 is Object && 0 <= j < pv[a].1->Object_0.len()
                            && is_http_method(pv[a].1->Object_0[j].0) ==> indexable(
                            #[trigger] pv[a].1->Object_0[j].1,
                        ),
                decreases pes@.len() - k,
            {
                assert(pv[k as int] == (pes@[k as int].0@, pes@[k as int].1@));
                match &pes[k].1 {
                    JsonValue::Object(ms) => {
                        proof {
                            lemma_object_view(*ms);
                        }
                        if !methods_indexable(ms) {
                            proof {
                                let j = choose|j: int|
                                    0 <= j < ms@.len() && is_http_method(#[trigger] entries_view(ms@)[j].0)
                                        && !indexable(entries_view(ms@)[j].1);
                                assert(pv[k as int].1->Object_0[j] == entries_view(ms@)[j]);
                                assert(!indexable(pv[k as int].1->Object_0[j].1));
                            }
                            return false;
                        }
                        proof {
                            assert forall|j: int|
                                0 <= j < pv[k as int].1->Object_0.len() && is_http_method(
                                    pv[k as int].1->Object_0[j].0,
                                ) implies indexable(#[trigger] pv[k as int].1->Object_0[j].1) by {
                                assert(pv[k as int].1->Object_0[j] == entries_view(ms@)[j]);
                            }
                        }
                    },
                    _ => {},
                }
                k = k + 1;
            }
            true
        },
        _ => false,
    }
}

} // verus!
