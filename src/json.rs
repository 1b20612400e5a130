use vstd::prelude::*;

verus! {

/// The mathematical model of a JSON document. Objects keep their entries in
/// order; a key is looked up by its last occurrence.
pub enum Json {
    Null,
    Bool(bool),
    Num(int),
    Str(Seq<char>),
    Arr(Seq<Json>),
    Obj(Seq<(Seq<char>, Json)>),
}

/// A JSON document held by value. Numbers are integers, signed or unsigned
/// 64-bit: configuration trees carry counts, ports and sizes.
#[derive(Debug, PartialEq, Eq)]
pub enum JsonValue {
    Null,
    Bool(bool),
    Number(i64),
    Unsigned(u64),
    Str(String),
    Array(Vec<JsonValue>),
    Object(Vec<(String, JsonValue)>),
}

pub open spec fn json_view(v: JsonValue) -> Json
    decreases v, 1int,
{
    match v {
        JsonValue::Null => Json::Null,
        JsonValue::Bool(b) => Json::Bool(b),
        JsonValue::Number(n) => Json::Num(n as int),
        JsonValue::Unsigned(n) => Json::Num(n as int),
        JsonValue::Str(s) => Json::Str(s@),
        JsonValue::Array(items) => Json::Arr(items_view(items@)),
        JsonValue::Object(es) => Json::Obj(entries_view(es@)),
    }
}

pub open spec fn items_view(s: Seq<JsonValue>) -> Seq<Json>
    decreases s, 0int,
{
    if s.len() == 0 {
        Seq::empty()
    } else {
        items_view(s.subrange(0, s.len() - 1)).push(json_view(s[s.len() - 1]))
    }
}

pub open spec fn entries_view(s: Seq<(String, JsonValue)>) -> Seq<(Seq<char>, Json)>
    decreases s, 0int,
{
    if s.len() == 0 {
        Seq::empty()
    } else {
        entries_view(s.subrange(0, s.len() - 1)).push(
            (s[s.len() - 1].0@, json_view(s[s.len() - 1].1)),
        )
    }
}

impl View for JsonValue {
    type V = Json;

    open spec fn view(&self) -> Json {
        json_view(*self)
    }
}


/// Index of the last entry of `es` whose key is `k`, or -1 where none is.
pub open spec fn key_index(es: Seq<(Seq<char>, Json)>, k: Seq<char>) -> int
    decreases es.len(),
{
    if es.len() == 0 {
        -1
    } else if es[es.len() - 1].0 == k {
        es.len() - 1
    } else {
        key_index(es.subrange(0, es.len() - 1), k)
    }
}

/// The value that an object's entries give to `k`.
pub open spec fn obj_get(es: Seq<(Seq<char>, Json)>, k: Seq<char>) -> Option<Json> {
    let i = key_index(es, k);
    if i < 0 {
        None
    } else {
        Some(es[i].1)
    }
}

/// The entries with `k` set to `v`: in place where `k` is present, at the end
/// where it is not.
pub open spec fn obj_set(es: Seq<(Seq<char>, Json)>, k: Seq<char>, v: Json) -> Seq<(Seq<char>, Json)> {
    let i = key_index(es, k);
    if i < 0 {
        es.push((k, v))
    } else {
        es.update(i, (k, v))
    }
}

/// Recursive merge of `s` into `t`: where both are objects, each entry of `s`
/// is merged into the entry of `t` with its key, or added; otherwise `s`
/// replaces `t`.
pub open spec fn merge(t: Json, s: Json) -> Json
    decreases s, 1int,
{
    match t {
        Json::Obj(te) => match s {
            Json::Obj(se) => Json::Obj(merge_entries(te, se)),
            _ => s,
        },
        _ => s,
    }
}

/// The entries of `te` with the entries of `se` merged in, in order.
pub open spec fn merge_entries(te: Seq<(Seq<char>, Json)>, se: Seq<(Seq<char>, Json)>) -> Seq<
    (Seq<char>, Json),
>
    decreases se, 0int,
{
    if se.len() == 0 {
        te
    } else {
        let acc = merge_entries(te, se.subrange(0, se.len() - 1));
        let k = se[se.len() - 1].0;
        let v = se[se.len() - 1].1;
        let i = key_index(acc, k);
        if i < 0 {
            acc.push((k, v))
        } else {
            acc.update(i, (k, merge(acc[i].1, v)))
        }
    }
}

pub proof fn lemma_items_view(s: Seq<JsonValue>)
    ensures
        items_view(s).len() == s.len(),
        forall|j: int| 0 <= j < s.len() ==> #[trigger] items_view(s)[j] == s[j]@,
    decreases s.len(),
{
    if s.len() > 0 {
        let p = s.subrange(0, s.len() - 1);
        lemma_items_view(p);
        assert forall|j: int| 0 <= j < s.len() implies #[trigger] items_view(s)[j] == s[j]@ by {
            if j < s.len() - 1 {
                assert(p[j] == s[j]);
            }
        }
    }
}

pub proof fn lemma_entries_view(s: Seq<(String, JsonValue)>)
    ensures
        entries_view(s).len() == s.len(),
        forall|j: int|
            0 <= j < s.len() ==> #[trigger] entries_view(s)[j] == (s[j].0@, s[j].1@),
    decreases s.len(),
{
    if s.len() > 0 {
        let p = s.subrange(0, s.len() - 1);
        lemma_entries_view(p);
        assert forall|j: int| 0 <= j < s.len() implies #[trigger] entries_view(s)[j] == (
            s[j].0@,
            s[j].1@,
        ) by {
            if j < s.len() - 1 {
                assert(p[j] == s[j]);
            }
        }
    }
}

/// Two entry lists whose keys and values have equal views have equal views.
pub proof fn lemma_entries_view_ext(a: Seq<(String, JsonValue)>, b: Seq<(String, JsonValue)>)
    requires
        a.len() == b.len(),
        forall|j: int| 0 <= j < a.len() ==> a[j].0@ == b[j].0@ && a[j].1@ == b[j].1@,
    ensures
        entries_view(a) == entries_view(b),
{
    lemma_entries_view(a);
    lemma_entries_view(b);
    assert(entries_view(a) =~= entries_view(b));
}

pub proof fn lemma_items_view_ext(a: Seq<JsonValue>, b: Seq<JsonValue>)
    requires
        a.len() == b.len(),
        forall|j: int| 0 <= j < a.len() ==> a[j]@ == b[j]@,
    ensures
        items_view(a) == items_view(b),
{
    lemma_items_view(a);
    lemma_items_view(b);
    assert(items_view(a) =~= items_view(b));
}

/// Position of the last entry with key `k`, as `key_index` gives it.
fn find_key(es: &Vec<(String, JsonValue)>, k: &String) -> (r: Option<usize>)
    ensures
        match r {
            Some(j) => j < es.len() && key_index(entries_view(es@), k@) == j,
            None => key_index(entries_view(es@), k@) == -1,
        },
{
    let ghost v = entries_view(es@);
    proof {
        lemma_entries_view(es@);
        assert(v.subrange(0, es.len() as int) =~= v);
    }
    let mut i: usize = es.len();
    while i > 0
        invariant
            i <= es.len(),
            v == entries_view(es@),
            v.len() == es.len(),
            forall|j: int| 0 <= j < es.len() ==> #[trigger] v[j] == (es@[j].0@, es@[j].1@),
            key_index(v, k@) == key_index(v.subrange(0, i as int), k@),
        decreases i,
    {
        let ghost w = v.subrange(0, i as int);
        assert(w.subrange(0, w.len() - 1) =~= v.subrange(0, i - 1));
        if es[i - 1].0 == *k {
            return Some(i - 1);
        }
        i = i - 1;
    }
    None
}

impl JsonValue {
    /// A copy of the document.
    pub fn deep_copy(&self) -> (r: JsonValue)
        ensures
            r@ == self@,
        decreases self,
    {
        match self {
            JsonValue::Null => JsonValue::Null,
            JsonValue::Bool(b) => JsonValue::Bool(*b),
            JsonValue::Number(n) => JsonValue::Number(*n),
            JsonValue::Unsigned(n) => JsonValue::Unsigned(*n),
            JsonValue::Str(s) => JsonValue::Str(s.clone()),
            JsonValue::Array(items) => {
                let out = copy_items(items);
                JsonValue::Array(out)
            }
            JsonValue::Object(es) => {
                let out = copy_entries(es);
                JsonValue::Object(out)
            }
        }
    }
}

fn copy_items(items: &Vec<JsonValue>) -> (r: Vec<JsonValue>)
    ensures
        items_view(r@) == items_view(items@),
    decreases items,
{
    let mut out: Vec<JsonValue> = Vec::new();
    let mut i: usize = 0;
    while i < items.len()
        invariant
            i <= items.len(),
            out@.len() == i,
            forall|j: int| 0 <= j < i ==> #[trigger] out@[j]@ == items@[j]@,
        decreases items.len() - i,
    {
        let c = items[i].deep_copy();
        out.push(c);
        i = i + 1;
    }
    proof {
        lemma_items_view_ext(out@, items@);
    }
    out
}

/// A copy of an object's entries.
pub fn copy_entries(es: &Vec<(String, JsonValue)>) -> (r: Vec<(String, JsonValue)>)
    ensures
        entries_view(r@) == entries_view(es@),
    decreases es,
{
    let mut out: Vec<(String, JsonValue)> = Vec::new();
    let mut i: usize = 0;
    while i < es.len()
        invariant
            i <= es.len(),
            out@.len() == i,
            forall|j: int| 0 <= j < i ==> #[trigger] out@[j].0@ == es@[j].0@ && out@[j].1@ == es@[j].1@,
        decreases es.len() - i,
    {
        let k = es[i].0.clone();
        let c = es[i].1.deep_copy();
        out.push((k, c));
        i = i + 1;
    }
    proof {
        lemma_entries_view_ext(out@, es@);
    }
    out
}


/// `source` merged into `target`, as `merge` states it.
pub fn merged(target: &JsonValue, source: &JsonValue) -> (r: JsonValue)
    requires
        json_wf(source@),
    ensures
        r@ == merge(target@, source@),
    decreases source, 1int,
{
    match target {
        JsonValue::Object(te) => match source {
            JsonValue::Object(se) => {
                proof {
                    lemma_entries_view(se@);
                }
                let es = merged_entries(te, se);
                JsonValue::Object(es)
            },
            _ => source.deep_copy(),
        },
        _ => source.deep_copy(),
    }
}

fn merged_entries(te: &Vec<(String, JsonValue)>, se: &Vec<(String, JsonValue)>) -> (r: Vec<
    (String, JsonValue),
>)
    requires
        entries_wf(entries_view(se@)),
    ensures
        entries_view(r@) == merge_entries(entries_view(te@), entries_view(se@)),
    decreases se, 0int,
{
    let ghost tv = entries_view(te@);
    let ghost sv = entries_view(se@);
    proof {
        lemma_entries_view(se@);
        lemma_entries_wf(sv);
        assert(sv.subrange(0, 0) =~= Seq::<(Seq<char>, Json)>::empty());
    }
    let mut acc = copy_entries(te);
    let mut i: usize = 0;
    while i < se.len()
        invariant
            i <= se.len(),
            tv == entries_view(te@),
            sv == entries_view(se@),
            sv.len() == se.len(),
            forall|j: int| 0 <= j < se.len() ==> #[trigger] sv[j] == (se@[j].0@, se@[j].1@),
            forall|j: int| 0 <= j < se.len() ==> #[trigger] json_wf(sv[j].1),
            entries_view(acc@) == merge_entries(tv, sv.subrange(0, i as int)),
        decreases se.len() - i,
    {
        let ghost before = entries_view(acc@);
        let ghost sub = sv.subrange(0, i + 1);
        proof {
            assert(sub.subrange(0, sub.len() - 1) =~= sv.subrange(0, i as int));
            assert(sub[sub.len() - 1] == sv[i as int]);
            lemma_entries_view(acc@);
        }
        let key = &se[i].0;
        let value = &se[i].1;
        proof {
            assert(json_wf(sv[i as int].1));
        }
        match find_key(&acc, key) {
            Some(j) => {
                let nv = merged(&acc[j].1, value);
                let k2 = key.clone();
                acc[j] = (k2, nv);
                proof {
                    lemma_entries_view(acc@);
                    assert(entries_view(acc@) =~= before.update(j as int, (key@, merge(before[j as int].1, value@))));
                }
            },
            None => {
                let k2 = key.clone();
                let c = value.deep_copy();
                acc.push((k2, c));
                proof {
                    lemma_entries_view(acc@);
                    assert(entries_view(acc@) =~= before.push((key@, value@)));
                }
            },
        }
        i = i + 1;
    }
    proof {
        assert(sv.subrange(0, se.len() as int) =~= sv);
    }
    acc
}

/// Merges `source` into `target` in place: objects merge key by key, with
/// nested objects merged again; any other value of `source` replaces its
/// counterpart. The source repeats no key in any of its objects.
pub fn merge_json_objects(target: &mut JsonValue, source: &JsonValue)
    requires
        json_wf(source@),
    ensures
        final(target)@ == merge(old(target)@, source@),
{
    let r = merged(target, source);
    *target = r;
}


/// No key occurs twice among the entries.
pub open spec fn keys_unique(es: Seq<(Seq<char>, Json)>) -> bool {
    forall|i: int, j: int| 0 <= i < j < es.len() ==> es[i].0 != es[j].0
}

/// What the merge of two objects gives to a key, from what each side gives it.
pub open spec fn merged_get(t: Option<Json>, s: Option<Json>) -> Option<Json> {
    match s {
        None => t,
        Some(b) => match t {
            None => Some(b),
            Some(a) => Some(merge(a, b)),
        },
    }
}

pub proof fn lemma_key_index(es: Seq<(Seq<char>, Json)>, k: Seq<char>)
    ensures
        -1 <= key_index(es, k) < es.len(),
        key_index(es, k) >= 0 ==> es[key_index(es, k)].0 == k,
        key_index(es, k) == -1 ==> forall|j: int| 0 <= j < es.len() ==> es[j].0 != k,
    decreases es.len(),
{
    if es.len() > 0 {
        let p = es.subrange(0, es.len() - 1);
        lemma_key_index(p, k);
        if es[es.len() - 1].0 != k {
            assert forall|j: int| 0 <= j < es.len() - 1 implies es[j].0 == p[j].0 by {}
        }
    }
}

/// `key_index` reads the keys alone.
pub proof fn lemma_key_index_same_keys(a: Seq<(Seq<char>, Json)>, b: Seq<(Seq<char>, Json)>, k: Seq<char>)
    requires
        a.len() == b.len(),
        forall|j: int| 0 <= j < a.len() ==> a[j].0 == b[j].0,
    ensures
        key_index(a, k) == key_index(b, k),
    decreases a.len(),
{
    if a.len() > 0 {
        let pa = a.subrange(0, a.len() - 1);
        let pb = b.subrange(0, b.len() - 1);
        assert forall|j: int| 0 <= j < pa.len() implies pa[j].0 == pb[j].0 by {
            assert(a[j].0 == b[j].0);
        }
        lemma_key_index_same_keys(pa, pb, k);
    }
}

pub proof fn lemma_key_index_push(es: Seq<(Seq<char>, Json)>, e: (Seq<char>, Json), k: Seq<char>)
    ensures
        key_index(es.push(e), k) == if e.0 == k {
            es.len() as int
        } else {
            key_index(es, k)
        },
{
    let q = es.push(e);
    assert(q.subrange(0, q.len() - 1) =~= es);
}

/// Setting an entry in place keeps every lookup of another key.
pub proof fn lemma_key_index_update(es: Seq<(Seq<char>, Json)>, i: int, v: Json, k: Seq<char>)
    requires
        0 <= i < es.len(),
    ensures
        key_index(es.update(i, (es[i].0, v)), k) == key_index(es, k),
{
    let q = es.update(i, (es[i].0, v));
    assert forall|j: int| 0 <= j < es.len() implies q[j].0 == es[j].0 by {}
    lemma_key_index_same_keys(q, es, k);
}

/// Each key of a merge of entries is looked up as `merged_get` says.
pub proof fn lemma_merge_entries_get(te: Seq<(Seq<char>, Json)>, se: Seq<(Seq<char>, Json)>, k: Seq<char>)
    requires
        keys_unique(se),
    ensures
        obj_get(merge_entries(te, se), k) == merged_get(obj_get(te, k), obj_get(se, k)),
    decreases se.len(),
{
    if se.len() > 0 {
        let sp = se.subrange(0, se.len() - 1);
        assert(keys_unique(sp));
        lemma_merge_entries_get(te, sp, k);
        let acc = merge_entries(te, sp);
        let kl = se[se.len() - 1].0;
        let vl = se[se.len() - 1].1;
        let i = key_index(acc, kl);
        lemma_key_index(acc, kl);
        lemma_key_index(acc, k);
        lemma_key_index(sp, kl);
        assert(key_index(sp, kl) == -1) by {
            if key_index(sp, kl) >= 0 {
                assert(sp[key_index(sp, kl)].0 == se[key_index(sp, kl)].0);
            }
        }
        let r = merge_entries(te, se);
        if k != kl {
            let x = key_index(sp, k);
            assert(key_index(se, k) == x);
            if x >= 0 {
                lemma_key_index(sp, k);
                assert(se[x] == sp[x]);
            }
        }
        if i < 0 {
            assert(r == acc.push((kl, vl)));
            lemma_key_index_push(acc, (kl, vl), k);
            if k != kl {
                let y = key_index(acc, k);
                if y >= 0 {
                    assert(r[y] == acc[y]);
                }
            }
        } else {
            let nv = merge(acc[i].1, vl);
            assert(acc[i] == (kl, acc[i].1));
            assert(r == acc.update(i, (acc[i].0, nv)));
            lemma_key_index_update(acc, i, nv, k);
            if k != kl {
                let y = key_index(acc, k);
                if y >= 0 {
                    assert(y != i);
                    assert(r[y] == acc[y]);
                }
            }
        }
    }
}

/// Deep merge keeps every key that only one side has, with that side's
/// value; on a key of both it merges the two values again, so a source value
/// replaces a target value unless both are objects.
pub proof fn lemma_merge_keeps_and_replaces(t: Json, s: Json, k: Seq<char>)
    requires
        t is Obj,
        s is Obj,
        keys_unique(s->Obj_0),
    ensures
        merge(t, s) is Obj,
        obj_get(s->Obj_0, k) is None ==> obj_get(merge(t, s)->Obj_0, k) == obj_get(t->Obj_0, k),
        obj_get(t->Obj_0, k) is None ==> obj_get(merge(t, s)->Obj_0, k) == obj_get(s->Obj_0, k),
        (obj_get(t->Obj_0, k) is Some && obj_get(s->Obj_0, k) is Some && !(obj_get(t->Obj_0, k)->0 is Obj && obj_get(s->Obj_0, k)->0 is Obj))
            ==> obj_get(merge(t, s)->Obj_0, k) == obj_get(s->Obj_0, k),
{
    lemma_merge_entries_get(t->Obj_0, s->Obj_0, k);
}

/// Merging an empty object into an object changes nothing.
pub proof fn lemma_merge_empty_source(t: Json)
    requires
        t is Obj,
    ensures
        merge(t, Json::Obj(Seq::empty())) == t,
{
}

/// Merging an object with unique keys into an empty object gives that object.
pub proof fn lemma_merge_empty_target(s: Json)
    requires
        s is Obj,
        keys_unique(s->Obj_0),
    ensures
        merge(Json::Obj(Seq::empty()), s) == s,
{
    lemma_merge_entries_from_empty(s->Obj_0);
}

proof fn lemma_merge_entries_from_empty(se: Seq<(Seq<char>, Json)>)
    requires
        keys_unique(se),
    ensures
        merge_entries(Seq::empty(), se) == se,
    decreases se.len(),
{
    if se.len() > 0 {
        let sp = se.subrange(0, se.len() - 1);
        assert(keys_unique(sp));
        lemma_merge_entries_from_empty(sp);
        lemma_key_index(sp, se[se.len() - 1].0);
        assert(key_index(sp, se[se.len() - 1].0) == -1) by {
            let x = key_index(sp, se[se.len() - 1].0);
            if x >= 0 {
                assert(sp[x].0 == se[x].0);
            }
        }
        assert(sp.push(se[se.len() - 1]) =~= se);
    }
}

/// A source that sets a single nested field `k1.k2` to a non-object value
/// gives the target with that field set and every other field kept.
pub proof fn lemma_merge_single_nested_field(t: Json, k1: Seq<char>, k2: Seq<char>, v: Json)
    requires
        t is Obj,
        !(v is Obj),
    ensures
        merge(t, Json::Obj(seq![(k1, Json::Obj(seq![(k2, v)]))])) == Json::Obj(
            obj_set(
                t->Obj_0,
                k1,
                Json::Obj(
                    obj_set(
                        match obj_get(t->Obj_0, k1) {
                            Some(Json::Obj(inner)) => inner,
                            _ => Seq::empty(),
                        },
                        k2,
                        v,
                    ),
                ),
            ),
        ),
{
    let te = t->Obj_0;
    let inner_src = seq![(k2, v)];
    let se = seq![(k1, Json::Obj(inner_src))];
    assert(se.subrange(0, 0) =~= Seq::<(Seq<char>, Json)>::empty());
    assert(inner_src.subrange(0, 0) =~= Seq::<(Seq<char>, Json)>::empty());
    let i = key_index(te, k1);
    lemma_key_index(te, k1);
    let src = Json::Obj(inner_src);
    assert(merge_entries(te, se.subrange(0, 0)) == te);
    assert(se[0] == (k1, src));
    assert(merge_entries(te, se) == if i < 0 {
        te.push((k1, src))
    } else {
        te.update(i, (k1, merge(te[i].1, src)))
    });
    let e = Seq::<(Seq<char>, Json)>::empty();
    assert(e.push((k2, v)) =~= inner_src);
    assert(key_index(e, k2) == -1);
    if i >= 0 {
        let old_v = te[i].1;
        assert(obj_get(te, k1) == Some(old_v));
        match old_v {
            Json::Obj(pe) => {
                let j = key_index(pe, k2);
                lemma_key_index(pe, k2);
                assert(merge_entries(pe, inner_src.subrange(0, 0)) == pe);
                assert(merge_entries(pe, inner_src) == if j < 0 {
                    pe.push((k2, v))
                } else {
                    pe.update(j, (k2, merge(pe[j].1, v)))
                });
                if j >= 0 {
                    assert(merge(pe[j].1, v) == v);
                }
                assert(merge(old_v, src) == Json::Obj(obj_set(pe, k2, v)));
            },
            _ => {
                assert(merge(old_v, src) == src);
            },
        }
    }
}


/// Sets `key` to `v` among the entries, as `obj_set` states it.
pub fn set_entry(es: &mut Vec<(String, JsonValue)>, key: String, v: JsonValue)
    ensures
        entries_view(final(es)@) == obj_set(entries_view(old(es)@), key@, v@),
{
    let ghost before = entries_view(es@);
    proof {
        lemma_entries_view(es@);
    }
    match find_key(es, &key) {
        Some(j) => {
            es[j] = (key, v);
            proof {
                lemma_entries_view(es@);
                assert(entries_view(es@) =~= obj_set(before, key@, v@));
            }
        },
        None => {
            es.push((key, v));
            proof {
                lemma_entries_view(es@);
                assert(entries_view(es@) =~= obj_set(before, key@, v@));
            }
        },
    }
}

/// The value that the entries give to `key`.
pub fn lookup<'a>(es: &'a Vec<(String, JsonValue)>, key: &str) -> (r: Option<&'a JsonValue>)
    ensures
        match r {
            Some(v) => obj_get(entries_view(es@), key@) == Some(v@),
            None => obj_get(entries_view(es@), key@) is None,
        },
{
    let k = key.to_owned();
    proof {
        lemma_entries_view(es@);
    }
    match find_key(es, &k) {
        Some(j) => Some(&es[j].1),
        None => None,
    }
}

impl JsonValue {
    /// The value of `key` in an object; nothing for any other value.
    pub fn get(&self, key: &str) -> (r: Option<&JsonValue>)
        ensures
            match self@ {
                Json::Obj(es) => match r {
                    Some(v) => obj_get(es, key@) == Some(v@),
                    None => obj_get(es, key@) is None,
                },
                _ => r is None,
            },
    {
        match self {
            JsonValue::Object(es) => lookup(es, key),
            _ => None,
        }
    }

    pub fn is_null(&self) -> (r: bool)
        ensures
            r == (self@ is Null),
    {
        match self {
            JsonValue::Null => true,
            _ => false,
        }
    }

    pub fn is_object(&self) -> (r: bool)
        ensures
            r == (self@ is Obj),
    {
        match self {
            JsonValue::Object(_) => true,
            _ => false,
        }
    }

    /// An object with no entries.
    pub fn empty_object() -> (r: JsonValue)
        ensures
            r@ == Json::Obj(Seq::empty()),
    {
        let es: Vec<(String, JsonValue)> = Vec::new();
        proof {
            assert(es@.len() == 0);
        }
        JsonValue::Object(es)
    }
}


/// A key just set reads back the value it was set to.
pub proof fn lemma_obj_get_set(es: Seq<(Seq<char>, Json)>, k: Seq<char>, v: Json)
    ensures
        obj_get(obj_set(es, k, v), k) == Some(v),
{
    let i = key_index(es, k);
    lemma_key_index(es, k);
    if i < 0 {
        lemma_key_index_push(es, (k, v), k);
    } else {
        lemma_key_index_update(es, i, v, k);
        assert(es.update(i, (es[i].0, v)) == es.update(i, (k, v)));
    }
}


/// Where `b` has key `k`, a lookup in `a + b` finds `b`'s entry; otherwise
/// `a`'s.
pub proof fn lemma_obj_get_concat(a: Seq<(Seq<char>, Json)>, b: Seq<(Seq<char>, Json)>, k: Seq<char>)
    ensures
        obj_get(a + b, k) == if obj_get(b, k) is Some {
            obj_get(b, k)
        } else {
            obj_get(a, k)
        },
    decreases b.len(),
{
    if b.len() == 0 {
        assert(a + b =~= a);
    } else {
        let bp = b.subrange(0, b.len() - 1);
        lemma_obj_get_concat(a, bp, k);
        let ab = a + b;
        assert(ab.subrange(0, ab.len() - 1) =~= a + bp);
        assert(ab[ab.len() - 1] == b[b.len() - 1]);
        lemma_key_index(a + bp, k);
        lemma_key_index(bp, k);
        lemma_key_index(a, k);
        let x = key_index(bp, k);
        if b[b.len() - 1].0 != k {
            if x >= 0 {
                assert(b[x] == bp[x]);
                assert((a + bp)[a.len() + x] == bp[x]);
                assert(ab[a.len() + x] == bp[x]);
            } else {
                let y = key_index(a, k);
                if y >= 0 {
                    assert(ab[y] == a[y]);
                    assert((a + bp)[y] == a[y]);
                }
            }
        }
    }
}

/// A lookup in a single entry.
pub proof fn lemma_obj_get_single(k2: Seq<char>, v: Json, k: Seq<char>)
    ensures
        obj_get(seq![(k2, v)], k) == if k2 == k {
            Some(v)
        } else {
            None::<Json>
        },
{
    let es = seq![(k2, v)];
    assert(es.len() == 1);
    assert(es[0] == (k2, v));
    assert(es.subrange(0, 0) =~= Seq::<(Seq<char>, Json)>::empty());
    assert(key_index(Seq::<(Seq<char>, Json)>::empty(), k) == -1);
    assert(key_index(es, k) == if k2 == k {
        0int
    } else {
        -1int
    });
}


/// Every object in the document, at any depth, has unique keys.
pub open spec fn json_wf(j: Json) -> bool
    decreases j, 1int,
{
    match j {
        Json::Obj(es) => keys_unique(es) && entries_wf(es),
        Json::Arr(items) => items_wf(items),
        _ => true,
    }
}

pub open spec fn entries_wf(es: Seq<(Seq<char>, Json)>) -> bool
    decreases es, 0int,
{
    if es.len() == 0 {
        true
    } else {
        entries_wf(es.subrange(0, es.len() - 1)) && json_wf(es[es.len() - 1].1)
    }
}

pub open spec fn items_wf(items: Seq<Json>) -> bool
    decreases items, 0int,
{
    if items.len() == 0 {
        true
    } else {
        items_wf(items.subrange(0, items.len() - 1)) && json_wf(items[items.len() - 1])
    }
}

pub proof fn lemma_entries_wf(es: Seq<(Seq<char>, Json)>)
    requires
        entries_wf(es),
    ensures
        forall|i: int| 0 <= i < es.len() ==> #[trigger] json_wf(es[i].1),
    decreases es.len(),
{
    if es.len() > 0 {
        let p = es.subrange(0, es.len() - 1);
        lemma_entries_wf(p);
        assert forall|i: int| 0 <= i < es.len() implies #[trigger] json_wf(es[i].1) by {
            if i < es.len() - 1 {
                assert(p[i] == es[i]);
            }
        }
    }
}

/// Merging a well-formed document into itself gives it back.
pub proof fn lemma_merge_self(v: Json)
    requires
        json_wf(v),
    ensures
        merge(v, v) == v,
    decreases v, 1int,
{
    match v {
        Json::Obj(ve) => {
            lemma_entries_wf(ve);
            assert(ve.subrange(0, ve.len() as int) =~= ve);
            lemma_merge_entries_stable(ve, ve, ve);
        },
        _ => {},
    }
}

/// Merging `s` again into a document that `s` was merged into changes
/// nothing.
pub proof fn lemma_merge_idempotent(t: Json, s: Json)
    requires
        json_wf(s),
    ensures
        merge(merge(t, s), s) == merge(t, s),
    decreases s, 1int,
{
    match t {
        Json::Obj(te) => match s {
            Json::Obj(se) => {
                lemma_entries_wf(se);
                assert(se.subrange(0, se.len() as int) =~= se);
                let m = merge_entries(te, se);
                assert forall|k: Seq<char>| obj_get(se, k) is Some implies #[trigger] obj_get(m, k)
                    == Some(merge(obj_get(m, k)->0, obj_get(se, k)->0)) by {
                    lemma_merge_entries_get(te, se, k);
                    let i = key_index(se, k);
                    lemma_key_index(se, k);
                    assert(json_wf(se[i].1));
                    match obj_get(te, k) {
                        Some(a) => {
                            lemma_merge_idempotent(a, se[i].1);
                        },
                        None => {
                            lemma_merge_self(se[i].1);
                        },
                    }
                }
                lemma_merge_entries_stable(m, se, se);
            },
            _ => {
                lemma_merge_self(s);
            },
        },
        _ => {
            lemma_merge_self(s);
        },
    }
}

/// Merging the entries of `se` (each key of which `acc` already gives the
/// merged value for) into `acc` leaves `acc` as it is.
proof fn lemma_merge_entries_stable(
    acc: Seq<(Seq<char>, Json)>,
    se: Seq<(Seq<char>, Json)>,
    whole: Seq<(Seq<char>, Json)>,
)
    requires
        keys_unique(whole),
        forall|i: int| 0 <= i < whole.len() ==> #[trigger] json_wf(whole[i].1),
        se.len() <= whole.len(),
        se == whole.subrange(0, se.len() as int),
        forall|k: Seq<char>|
            obj_get(whole, k) is Some ==> (#[trigger] obj_get(acc, k) == Some(
                merge(obj_get(acc, k)->0, obj_get(whole, k)->0),
            ) || (acc == whole && obj_get(acc, k) == obj_get(whole, k))),
    ensures
        merge_entries(acc, se) == acc,
    decreases whole, 0int, se.len(),
{
    if se.len() > 0 {
        let sp = se.subrange(0, se.len() - 1);
        assert(sp =~= whole.subrange(0, sp.len() as int));
        lemma_merge_entries_stable(acc, sp, whole);
        let n = se.len() - 1;
        let k = se[n].0;
        let v = se[n].1;
        assert(se[n] == whole[n]);
        lemma_key_index(whole, k);
        assert(key_index(whole, k) == n) by {
            let x = key_index(whole, k);
            if x != n {
                assert(whole[x].0 == k);
                assert(whole[n].0 == k);
            }
        }
        assert(obj_get(whole, k) == Some(v));
        lemma_key_index(acc, k);
        let i = key_index(acc, k);
        assert(i >= 0);
        assert(acc[i].0 == k);
        if acc == whole && obj_get(acc, k) == obj_get(whole, k) {
            assert(json_wf(whole[n].1));
            lemma_merge_self(v);
        }
        assert(acc[i].1 == obj_get(acc, k)->0);
        assert(merge(acc[i].1, v) == acc[i].1);
        assert(acc.update(i, (k, merge(acc[i].1, v))) =~= acc);
    }
}


/// Setting a key to the value it already has changes nothing.
pub proof fn lemma_obj_set_same(es: Seq<(Seq<char>, Json)>, k: Seq<char>, v: Json)
    requires
        obj_get(es, k) == Some(v),
    ensures
        obj_set(es, k, v) == es,
{
    let i = key_index(es, k);
    lemma_key_index(es, k);
    assert(es.update(i, (k, v)) =~= es);
}


/// A value of an object's entries is well formed where the entries are.
pub proof fn lemma_obj_get_wf(es: Seq<(Seq<char>, Json)>, k: Seq<char>)
    requires
        entries_wf(es),
        obj_get(es, k) is Some,
    ensures
        json_wf(obj_get(es, k)->0),
{
    lemma_entries_wf(es);
    lemma_key_index(es, k);
}

fn entries_keys_unique(es: &Vec<(String, JsonValue)>) -> (r: bool)
    ensures
        r == keys_unique(entries_view(es@)),
{
    let ghost ev = entries_view(es@);
    proof {
        lemma_entries_view(es@);
    }
    let mut i: usize = 0;
    while i < es.len()
        invariant
            i <= es.len(),
            ev == entries_view(es@),
            ev.len() == es.len(),
            forall|j: int| 0 <= j < es.len() ==> #[trigger] ev[j] == (es@[j].0@, es@[j].1@),
            forall|a: int, b: int| 0 <= a < b < i ==> ev[a].0 != ev[b].0,
        decreases es.len() - i,
    {
        let mut j: usize = 0;
        while j < i
            invariant
                i < es.len(),
                j <= i,
                ev == entries_view(es@),
                ev.len() == es.len(),
                forall|j2: int| 0 <= j2 < es.len() ==> #[trigger] ev[j2] == (es@[j2].0@, es@[j2].1@),
                forall|a: int| 0 <= a < j ==> ev[a].0 != ev[i as int].0,
            decreases i - j,
        {
            if es[j].0 == es[i].0 {
                proof {
                    assert(ev[j as int].0 == ev[i as int].0);
                }
                return false;
            }
            j = j + 1;
        }
        i = i + 1;
    }
    true
}

fn entries_all_wf(es: &Vec<(String, JsonValue)>) -> (r: bool)
    ensures
        r == entries_wf(entries_view(es@)),
    decreases es,
{
    let ghost ev = entries_view(es@);
    proof {
        lemma_entries_view(es@);
        assert(ev.subrange(0, 0) =~= Seq::<(Seq<char>, Json)>::empty());
    }
    let mut i: usize = 0;
    while i < es.len()
        invariant
            i <= es.len(),
            ev == entries_view(es@),
            ev.len() == es.len(),
            forall|j: int| 0 <= j < es.len() ==> #[trigger] ev[j] == (es@[j].0@, es@[j].1@),
            entries_wf(ev.subrange(0, i as int)),
        decreases es.len() - i,
    {
        let ghost sub = ev.subrange(0, i + 1);
        proof {
            assert(sub.subrange(0, sub.len() - 1) =~= ev.subrange(0, i as int));
            assert(sub[sub.len() - 1] == ev[i as int]);
        }
        if !es[i].1.well_formed() {
            proof {
                lemma_entries_wf_prefix(ev, i as int + 1);
            }
            return false;
        }
        i = i + 1;
    }
    proof {
        assert(ev.subrange(0, es.len() as int) =~= ev);
    }
    true
}

fn items_all_wf(items: &Vec<JsonValue>) -> (r: bool)
    ensures
        r == items_wf(items_view(items@)),
    decreases items,
{
    let ghost iv = items_view(items@);
    proof {
        lemma_items_view(items@);
        assert(iv.subrange(0, 0) =~= Seq::<Json>::empty());
    }
    let mut i: usize = 0;
    while i < items.len()
        invariant
            i <= items.len(),
            iv == items_view(items@),
            iv.len() == items.len(),
            forall|j: int| 0 <= j < items.len() ==> #[trigger] iv[j] == items@[j]@,
            items_wf(iv.subrange(0, i as int)),
        decreases items.len() - i,
    {
        let ghost sub = iv.subrange(0, i + 1);
        proof {
            assert(sub.subrange(0, sub.len() - 1) =~= iv.subrange(0, i as int));
            assert(sub[sub.len() - 1] == iv[i as int]);
        }
        if !items[i].well_formed() {
            proof {
                lemma_items_wf_prefix(iv, i as int + 1);
            }
            return false;
        }
        i = i + 1;
    }
    proof {
        assert(iv.subrange(0, items.len() as int) =~= iv);
    }
    true
}

proof fn lemma_entries_wf_prefix(s: Seq<(Seq<char>, Json)>, n: int)
    requires
        0 <= n <= s.len(),
        !entries_wf(s.subrange(0, n)),
    ensures
        !entries_wf(s),
    decreases s.len() - n,
{
    if n < s.len() {
        let t = s.subrange(0, n + 1);
        assert(t.subrange(0, t.len() - 1) =~= s.subrange(0, n));
        lemma_entries_wf_prefix(s, n + 1);
    } else {
        assert(s.subrange(0, n) =~= s);
    }
}

proof fn lemma_items_wf_prefix(s: Seq<Json>, n: int)
    requires
        0 <= n <= s.len(),
        !items_wf(s.subrange(0, n)),
    ensures
        !items_wf(s),
    decreases s.len() - n,
{
    if n < s.len() {
        let t = s.subrange(0, n + 1);
        assert(t.subrange(0, t.len() - 1) =~= s.subrange(0, n));
        lemma_items_wf_prefix(s, n + 1);
    } else {
        assert(s.subrange(0, n) =~= s);
    }
}

/// Whether the entries, taken as an object, repeat no key at any depth.
pub fn entries_well_formed(es: &Vec<(String, JsonValue)>) -> (r: bool)
    ensures
        r == json_wf(Json::Obj(entries_view(es@))),
{
    entries_keys_unique(es) && entries_all_wf(es)
}

impl JsonValue {
    /// Whether no object in the document, at any depth, repeats a key.
    pub fn well_formed(&self) -> (r: bool)
        ensures
            r == json_wf(self@),
        decreases self,
    {
        match self {
            JsonValue::Object(es) => entries_keys_unique(es) && entries_all_wf(es),
            JsonValue::Array(items) => items_all_wf(items),
            _ => true,
        }
    }
}

} // verus!
