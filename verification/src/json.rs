//! A JSON document model. Function-call arguments, provider specifications
//! and specification override patches all travel as JSON; this type holds
//! such a document as plain values so that merging and extraction can be
//! reasoned about. A number is carried as its canonical text, exactly as the
//! parser reported it, so no numeric precision is lost in transit.
use vstd::prelude::*;

verus! {

/// A JSON value.
#[derive(Debug)]
pub enum Json {
    Null,
    Bool(bool),
    /// A number, as its canonical decimal text.
    Num(String),
    /// A string value.
    Text(String),
    Arr(Vec<Json>),
    /// An object: a list of key/value pairs. Values produced by the parser
    /// carry each key once, in sorted order.
    Obj(Vec<(String, Json)>),
}

/// The mathematical shape of a [`Json`] value, used by contracts.
pub ghost enum JsonV {
    Null,
    Bool(bool),
    Num(Seq<char>),
    Text(Seq<char>),
    Arr(Seq<JsonV>),
    Obj(Seq<(Seq<char>, JsonV)>),
}

/// The mathematical value that a [`Json`] document denotes.
pub open spec fn json_view(j: Json) -> JsonV
    decreases j, 1nat, 0nat,
{
    match j {
        Json::Null => JsonV::Null,
        Json::Bool(b) => JsonV::Bool(b),
        Json::Num(s) => JsonV::Num(s@),
        Json::Text(s) => JsonV::Text(s@),
        Json::Arr(v) => JsonV::Arr(arr_view_from(v@, 0)),
        Json::Obj(v) => JsonV::Obj(obj_view_from(v@, 0)),
    }
}

/// The element views of an array's tail starting at index `i`.
pub open spec fn arr_view_from(v: Seq<Json>, i: int) -> Seq<JsonV>
    decreases v, 0nat, v.len() - i,
{
    if 0 <= i < v.len() {
        seq![json_view(v[i])] + arr_view_from(v, i + 1)
    } else {
        Seq::empty()
    }
}

/// The entry views of an object's tail starting at index `i`.
pub open spec fn obj_view_from(v: Seq<(String, Json)>, i: int) -> Seq<(Seq<char>, JsonV)>
    decreases v, 0nat, v.len() - i,
{
    if 0 <= i < v.len() {
        seq![(v[i].0@, json_view(v[i].1))] + obj_view_from(v, i + 1)
    } else {
        Seq::empty()
    }
}

/// Each position of [`arr_view_from`] is the view of the matching element.
pub proof fn lemma_arr_view_from(v: Seq<Json>, i: int)
    requires
        0 <= i <= v.len(),
    ensures
        arr_view_from(v, i).len() == v.len() - i,
        forall|k: int| 0 <= k < v.len() - i ==> arr_view_from(v, i)[k] == json_view(v[k + i]),
    decreases v.len() - i,
{
    if i < v.len() {
        lemma_arr_view_from(v, i + 1);
    }
}

/// Each position of [`obj_view_from`] is the view of the matching entry.
pub proof fn lemma_obj_view_from(v: Seq<(String, Json)>, i: int)
    requires
        0 <= i <= v.len(),
    ensures
        obj_view_from(v, i).len() == v.len() - i,
        forall|k: int| 0 <= k < v.len() - i ==> obj_view_from(v, i)[k] == (
        v[k + i].0@,
        json_view(v[k + i].1),
        ),
    decreases v.len() - i,
{
    if i < v.len() {
        lemma_obj_view_from(v, i + 1);
    }
}

impl View for Json {
    type V = JsonV;

    open spec fn view(&self) -> JsonV {
        json_view(*self)
    }
}

/// The views of an object's entries.
pub open spec fn entries_view(v: Seq<(String, Json)>) -> Seq<(Seq<char>, JsonV)> {
    Seq::new(v.len(), |i: int| (v[i].0@, json_view(v[i].1)))
}

/// [`obj_view_from`] at zero is the pointwise entry view.
pub proof fn lemma_obj_view_is_entries(v: Seq<(String, Json)>)
    ensures
        obj_view_from(v, 0) == entries_view(v),
{
    lemma_obj_view_from(v, 0);
    assert(obj_view_from(v, 0) =~= entries_view(v));
}

impl Clone for Json {
    /// Cloning preserves the denoted value.
    #[verifier::loop_isolation(false)]
    fn clone(&self) -> (r: Self)
        ensures
            r@ == self@,
        decreases *self,
    {
        match self {
            Json::Null => Json::Null,
            Json::Bool(b) => Json::Bool(*b),
            Json::Num(s) => Json::Num(s.clone()),
            Json::Text(s) => Json::Text(s.clone()),
            Json::Arr(v) => {
                let mut out: Vec<Json> = Vec::new();
                let n = v.len();
                let mut i: usize = 0;
                while i < n
                    invariant
                        0 <= i <= n,
                        n == v@.len(),
                        out@.len() == i,
                        forall|k: int| 0 <= k < i ==> json_view(out@[k]) == json_view(v@[k]),
                    decreases n - i,
                {
                    proof {
                        assert(decreases_to!(*self => *v));
                        assert(decreases_to!(*v => v@));
                        assert(decreases_to!(v@ => v@[i as int]));
                    }
                    let e = v[i].clone();
                    out.push(e);
                    i = i + 1;
                }
                proof {
                    lemma_arr_view_from(out@, 0);
                    lemma_arr_view_from(v@, 0);
                    assert(arr_view_from(out@, 0) =~= arr_view_from(v@, 0));
                }
                Json::Arr(out)
            },
            Json::Obj(v) => {
                let mut out: Vec<(String, Json)> = Vec::new();
                let n = v.len();
                let mut i: usize = 0;
                while i < n
                    invariant
                        0 <= i <= n,
                        n == v@.len(),
                        out@.len() == i,
                        forall|k: int| 0 <= k < i ==> out@[k].0@ == v@[k].0@ && json_view(
                            out@[k].1,
                        ) == json_view(v@[k].1),
                    decreases n - i,
                {
                    proof {
                        assert(decreases_to!(*self => *v));
                        assert(decreases_to!(*v => v@));
                        assert(decreases_to!(v@ => v@[i as int]));
                        assert(decreases_to!(v@[i as int] => v@[i as int].1));
                    }
                    let key = v[i].0.clone();
                    let val = v[i].1.clone();
                    out.push((key, val));
                    i = i + 1;
                }
                proof {
                    lemma_obj_view_from(out@, 0);
                    lemma_obj_view_from(v@, 0);
                    assert(obj_view_from(out@, 0) =~= obj_view_from(v@, 0));
                }
                Json::Obj(out)
            },
        }
    }
}

/// The first value bound to key `k`, if any.
pub open spec fn spec_obj_get(es: Seq<(Seq<char>, JsonV)>, k: Seq<char>) -> Option<JsonV>
    decreases es.len(),
{
    if es.len() == 0 {
        None
    } else if es[0].0 == k {
        Some(es[0].1)
    } else {
        spec_obj_get(es.drop_first(), k)
    }
}

/// The first value bound to key `k`, or `Null` when the key is absent — the
/// base a nested merge starts from.
pub open spec fn spec_obj_get_or_null(es: Seq<(Seq<char>, JsonV)>, k: Seq<char>) -> JsonV {
    match spec_obj_get(es, k) {
        Some(v) => v,
        None => JsonV::Null,
    }
}

/// The entries with every binding of key `k` removed.
pub open spec fn spec_obj_remove(es: Seq<(Seq<char>, JsonV)>, k: Seq<char>) -> Seq<
    (Seq<char>, JsonV),
>
    decreases es.len(),
{
    if es.len() == 0 {
        es
    } else if es[0].0 == k {
        spec_obj_remove(es.drop_first(), k)
    } else {
        seq![es[0]] + spec_obj_remove(es.drop_first(), k)
    }
}

/// The entries with key `k` bound to `v`: the first binding is replaced in
/// place (any later duplicate is dropped); an absent key is appended.
pub open spec fn spec_obj_upsert(es: Seq<(Seq<char>, JsonV)>, k: Seq<char>, v: JsonV) -> Seq<
    (Seq<char>, JsonV),
>
    decreases es.len(),
{
    if es.len() == 0 {
        seq![(k, v)]
    } else if es[0].0 == k {
        seq![(k, v)] + spec_obj_remove(es.drop_first(), k)
    } else {
        seq![es[0]] + spec_obj_upsert(es.drop_first(), k, v)
    }
}

proof fn lemma_get_cons(e: (Seq<char>, JsonV), rest: Seq<(Seq<char>, JsonV)>, k: Seq<char>)
    ensures
        spec_obj_get(seq![e] + rest, k) == (if e.0 == k {
            Some(e.1)
        } else {
            spec_obj_get(rest, k)
        }),
{
    assert((seq![e] + rest)[0] == e);
    assert((seq![e] + rest).drop_first() =~= rest);
}

proof fn lemma_remove_cons(e: (Seq<char>, JsonV), rest: Seq<(Seq<char>, JsonV)>, k: Seq<char>)
    ensures
        spec_obj_remove(seq![e] + rest, k) == (if e.0 == k {
            spec_obj_remove(rest, k)
        } else {
            seq![e] + spec_obj_remove(rest, k)
        }),
{
    assert((seq![e] + rest)[0] == e);
    assert((seq![e] + rest).drop_first() =~= rest);
}

proof fn lemma_upsert_cons(
    e: (Seq<char>, JsonV),
    rest: Seq<(Seq<char>, JsonV)>,
    k: Seq<char>,
    v: JsonV,
)
    ensures
        spec_obj_upsert(seq![e] + rest, k, v) == (if e.0 == k {
            seq![(k, v)] + spec_obj_remove(rest, k)
        } else {
            seq![e] + spec_obj_upsert(rest, k, v)
        }),
{
    assert((seq![e] + rest)[0] == e);
    assert((seq![e] + rest).drop_first() =~= rest);
}

/// The entries of an object, or no entries at all for any other value.
pub open spec fn obj_entries_or_empty(d: JsonV) -> Seq<(Seq<char>, JsonV)> {
    match d {
        JsonV::Obj(es) => es,
        _ => Seq::empty(),
    }
}

/// Merge-patch: a non-object patch replaces the document wholesale; an
/// object patch is applied entry by entry, where a `Null` value deletes the
/// key and any other value overwrites it, recursively for nested objects.
pub open spec fn spec_merge_patch(d: JsonV, p: JsonV) -> JsonV
    decreases p, 1nat, 0nat,
{
    match p {
        JsonV::Obj(pes) => JsonV::Obj(spec_apply_patch(obj_entries_or_empty(d), pes, 0)),
        _ => p,
    }
}

/// The result of applying the patch entries from index `i` on to `base`.
pub open spec fn spec_apply_patch(
    base: Seq<(Seq<char>, JsonV)>,
    pes: Seq<(Seq<char>, JsonV)>,
    i: int,
) -> Seq<(Seq<char>, JsonV)>
    decreases pes, 0nat, pes.len() - i,
{
    if 0 <= i < pes.len() {
        let k = pes[i].0;
        let v = pes[i].1;
        let base2 = if v is Null {
            spec_obj_remove(base, k)
        } else {
            spec_obj_upsert(base, k, spec_merge_patch(spec_obj_get_or_null(base, k), v))
        };
        spec_apply_patch(base2, pes, i + 1)
    } else {
        base
    }
}

/// Clone an object's entry list.
fn clone_entries(es: &Vec<(String, Json)>) -> (r: Vec<(String, Json)>)
    ensures
        entries_view(r@) == entries_view(es@),
{
    let mut out: Vec<(String, Json)> = Vec::new();
    let n = es.len();
    let mut i: usize = 0;
    while i < n
        invariant
            0 <= i <= n,
            n == es@.len(),
            out@.len() == i,
            forall|k: int| 0 <= k < i ==> out@[k].0@ == es@[k].0@ && json_view(out@[k].1)
                == json_view(es@[k].1),
        decreases n - i,
    {
        let key = es[i].0.clone();
        let val = es[i].1.clone();
        out.push((key, val));
        i = i + 1;
    }
    proof {
        assert(entries_view(out@) =~= entries_view(es@));
    }
    out
}

/// The first value bound to `k`, cloned, or `Null` when `k` is absent.
pub fn obj_get_or_null(es: &Vec<(String, Json)>, k: &str) -> (r: Json)
    ensures
        r@ == spec_obj_get_or_null(entries_view(es@), k@),
{
    let ghost ev = entries_view(es@);
    let n = es.len();
    let mut i: usize = 0;
    proof {
        assert(ev.skip(0) =~= ev);
    }
    while i < n
        invariant
            0 <= i <= n,
            n == es@.len(),
            ev == entries_view(es@),
            spec_obj_get(ev, k@) == spec_obj_get(ev.skip(i as int), k@),
        decreases n - i,
    {
        proof {
            assert(ev.skip(i as int) =~= seq![ev[i as int]] + ev.skip(i as int + 1));
            lemma_get_cons(ev[i as int], ev.skip(i as int + 1), k@);
        }
        if crate::text::str_eq(es[i].0.as_str(), k) {
            return es[i].1.clone();
        }
        i = i + 1;
    }
    proof {
        assert(ev.skip(n as int) =~= Seq::<(Seq<char>, JsonV)>::empty());
    }
    Json::Null
}

/// The entries with every binding of `k` removed.
fn obj_remove(es: Vec<(String, Json)>, k: &str) -> (r: Vec<(String, Json)>)
    ensures
        entries_view(r@) == spec_obj_remove(entries_view(es@), k@),
{
    let ghost ev = entries_view(es@);
    let n = es.len();
    let mut out: Vec<(String, Json)> = Vec::new();
    let mut i: usize = 0;
    proof {
        assert(ev.skip(0) =~= ev);
        assert(entries_view(out@) =~= Seq::<(Seq<char>, JsonV)>::empty());
        assert(entries_view(out@) + spec_obj_remove(ev, k@) =~= spec_obj_remove(ev, k@));
    }
    while i < n
        invariant
            0 <= i <= n,
            n == es@.len(),
            ev == entries_view(es@),
            spec_obj_remove(ev, k@) == entries_view(out@) + spec_obj_remove(
                ev.skip(i as int),
                k@,
            ),
        decreases n - i,
    {
        proof {
            assert(ev.skip(i as int) =~= seq![ev[i as int]] + ev.skip(i as int + 1));
            lemma_remove_cons(ev[i as int], ev.skip(i as int + 1), k@);
        }
        if !crate::text::str_eq(es[i].0.as_str(), k) {
            let key = es[i].0.clone();
            let val = es[i].1.clone();
            let ghost old_out = out@;
            out.push((key, val));
            proof {
                assert(entries_view(out@) =~= entries_view(old_out) + seq![ev[i as int]]);
            }
        }
        i = i + 1;
    }
    proof {
        assert(ev.skip(n as int) =~= Seq::<(Seq<char>, JsonV)>::empty());
        assert(entries_view(out@) + spec_obj_remove(ev.skip(n as int), k@) =~= entries_view(
            out@,
        ));
    }
    out
}

/// The entries with `k` bound to `v`, replacing the first binding in place
/// or appending when the key is absent.
fn obj_upsert(es: Vec<(String, Json)>, k: String, v: Json) -> (r: Vec<(String, Json)>)
    ensures
        entries_view(r@) == spec_obj_upsert(entries_view(es@), k@, v@),
{
    let ghost ev = entries_view(es@);
    let ghost kv = k@;
    let ghost vv = v@;
    let n = es.len();
    let mut out: Vec<(String, Json)> = Vec::new();
    let mut found = false;
    let mut i: usize = 0;
    proof {
        assert(ev.skip(0) =~= ev);
        assert(entries_view(out@) =~= Seq::<(Seq<char>, JsonV)>::empty());
        assert(entries_view(out@) + spec_obj_upsert(ev, kv, vv) =~= spec_obj_upsert(
            ev,
            kv,
            vv,
        ));
    }
    while i < n
        invariant
            0 <= i <= n,
            n == es@.len(),
            ev == entries_view(es@),
            kv == k@,
            vv == v@,
            !found ==> spec_obj_upsert(ev, kv, vv) == entries_view(out@) + spec_obj_upsert(
                ev.skip(i as int),
                kv,
                vv,
            ),
            found ==> spec_obj_upsert(ev, kv, vv) == entries_view(out@) + spec_obj_remove(
                ev.skip(i as int),
                kv,
            ),
        decreases n - i,
    {
        proof {
            assert(ev.skip(i as int) =~= seq![ev[i as int]] + ev.skip(i as int + 1));
            lemma_upsert_cons(ev[i as int], ev.skip(i as int + 1), kv, vv);
            lemma_remove_cons(ev[i as int], ev.skip(i as int + 1), kv);
        }
        if crate::text::str_eq(es[i].0.as_str(), k.as_str()) {
            if !found {
                let key = k.clone();
                let val = v.clone();
                let ghost old_out = out@;
                out.push((key, val));
                found = true;
                proof {
                    assert(entries_view(out@) =~= entries_view(old_out) + seq![(kv, vv)]);
                }
            }
        } else {
            let key = es[i].0.clone();
            let val = es[i].1.clone();
            let ghost old_out = out@;
            out.push((key, val));
            proof {
                assert(entries_view(out@) =~= entries_view(old_out) + seq![ev[i as int]]);
            }
        }
        i = i + 1;
    }
    proof {
        assert(ev.skip(n as int) =~= Seq::<(Seq<char>, JsonV)>::empty());
    }
    if !found {
        let ghost old_out = out@;
        out.push((k, v));
        proof {
            assert(entries_view(out@) =~= entries_view(old_out) + seq![(kv, vv)]);
        }
    }
    proof {
        if found {
            assert(entries_view(out@) + spec_obj_remove(ev.skip(n as int), kv) =~= entries_view(
                out@,
            ));
        } else {
            assert(spec_obj_upsert(ev.skip(n as int), kv, vv) =~= seq![(kv, vv)]);
        }
    }
    out
}

/// Apply the entries of an object patch, from index `i` on, to `base`.
fn apply_patch_from(base: Vec<(String, Json)>, pes: &Vec<(String, Json)>, i: usize) -> (r: Vec<
    (String, Json),
>)
    requires
        i <= pes@.len(),
    ensures
        entries_view(r@) == spec_apply_patch(entries_view(base@), entries_view(pes@), i as int),
    decreases pes@, 0nat, pes@.len() - i,
{
    if i < pes.len() {
        proof {
            assert(decreases_to!(pes@ => pes@[i as int]));
            assert(decreases_to!(pes@[i as int] => pes@[i as int].1));
        }
        let k: &String = &pes[i].0;
        let pv: &Json = &pes[i].1;
        let is_null = match pv {
            Json::Null => true,
            _ => false,
        };
        if is_null {
            let base2 = obj_remove(base, k.as_str());
            apply_patch_from(base2, pes, i + 1)
        } else {
            let cur = obj_get_or_null(&base, k.as_str());
            let merged = merge_patch(&cur, pv);
            let base2 = obj_upsert(base, k.clone(), merged);
            apply_patch_from(base2, pes, i + 1)
        }
    } else {
        base
    }
}

/// Merge-patch, exactly as [`spec_merge_patch`] describes it: the semantics
/// used to overlay a configured override onto a provider-reported
/// specification.
pub fn merge_patch(doc: &Json, patch: &Json) -> (r: Json)
    ensures
        r@ == spec_merge_patch(doc@, patch@),
    decreases *patch, 1nat, 0nat,
{
    match patch {
        Json::Obj(pes) => {
            proof {
                assert(decreases_to!(*patch => *pes));
                assert(decreases_to!(*pes => pes@));
            }
            let base: Vec<(String, Json)> = match doc {
                Json::Obj(des) => clone_entries(des),
                _ => Vec::new(),
            };
            proof {
                lemma_obj_view_is_entries(pes@);
                match doc {
                    Json::Obj(des) => {
                        lemma_obj_view_is_entries(des@);
                    },
                    _ => {
                        assert(entries_view(base@) =~= Seq::<(Seq<char>, JsonV)>::empty());
                    },
                }
            }
            let out = apply_patch_from(base, pes, 0);
            proof {
                lemma_obj_view_is_entries(out@);
            }
            Json::Obj(out)
        },
        _ => patch.clone(),
    }
}

} // verus!
