//! JSON documents as plain values, and the deep merge of configuration
//! objects (`overlay` wins on leaf keys).

use vstd::prelude::*;
use crate::text::eq_chars;

verus! {

/// A JSON number, as `serde_json` holds it: a non-negative integer, a negative
/// integer, or a floating-point number kept as the text that denotes it.
#[derive(Debug, Clone)]
pub enum JsonNumber {
    PosInt(u64),
    NegInt(i64),
    Float(String),
}

/// A JSON value. Objects hold their entries in order, each key at most once.
#[derive(Debug)]
pub enum JsonValue {
    Null,
    Bool(bool),
    Number(JsonNumber),
    Str(String),
    Array(Vec<JsonValue>),
    Object(Vec<(String, JsonValue)>),
}

/// The mathematical value of a JSON number.
pub enum Num {
    PosInt(u64),
    NegInt(i64),
    Float(Seq<char>),
}

/// The mathematical value of a JSON document.
pub enum Json {
    Null,
    Bool(bool),
    Num(Num),
    Str(Seq<char>),
    Arr(Seq<Json>),
    Obj(Seq<(Seq<char>, Json)>),
}

pub open spec fn num_model(n: JsonNumber) -> Num {
    match n {
        JsonNumber::PosInt(u) => Num::PosInt(u),
        JsonNumber::NegInt(i) => Num::NegInt(i),
        JsonNumber::Float(s) => Num::Float(s@),
    }
}

pub open spec fn model(v: JsonValue) -> Json
    decreases v,
{
    match v {
        JsonValue::Null => Json::Null,
        JsonValue::Bool(b) => Json::Bool(b),
        JsonValue::Number(n) => Json::Num(num_model(n)),
        JsonValue::Str(s) => Json::Str(s@),
        JsonValue::Array(a) => Json::Arr(arr_model(a@)),
        JsonValue::Object(e) => Json::Obj(obj_model(e@)),
    }
}

pub open spec fn arr_model(s: Seq<JsonValue>) -> Seq<Json>
    decreases s,
{
    if s.len() == 0 {
        Seq::empty()
    } else {
        seq![model(s[0])] + arr_model(s.subrange(1, s.len() as int))
    }
}

pub open spec fn obj_model(s: Seq<(String, JsonValue)>) -> Seq<(Seq<char>, Json)>
    decreases s,
{
    if s.len() == 0 {
        Seq::empty()
    } else {
        seq![(s[0].0@, model(s[0].1))] + obj_model(s.subrange(1, s.len() as int))
    }
}

impl View for JsonValue {
    type V = Json;

    open spec fn view(&self) -> Json {
        model(*self)
    }
}

pub proof fn lemma_arr_model(s: Seq<JsonValue>)
    ensures
        arr_model(s).len() == s.len(),
        forall|i: int| 0 <= i < s.len() ==> #[trigger] arr_model(s)[i] == model(s[i]),
    decreases s.len(),
{
    if s.len() > 0 {
        let t = s.subrange(1, s.len() as int);
        lemma_arr_model(t);
        assert forall|i: int| 0 <= i < s.len() implies #[trigger] arr_model(s)[i] == model(s[i]) by {
            if i > 0 {
                assert(s[i] == t[i - 1]);
            }
        }
    }
}

pub proof fn lemma_obj_model(s: Seq<(String, JsonValue)>)
    ensures
        obj_model(s).len() == s.len(),
        forall|i: int|
            0 <= i < s.len() ==> #[trigger] obj_model(s)[i] == (s[i].0@, model(s[i].1)),
    decreases s.len(),
{
    if s.len() > 0 {
        let t = s.subrange(1, s.len() as int);
        lemma_obj_model(t);
        assert forall|i: int| 0 <= i < s.len() implies #[trigger] obj_model(s)[i] == (
            s[i].0@,
            model(s[i].1),
        ) by {
            if i > 0 {
                assert(s[i] == t[i - 1]);
            }
        }
    }
}

/// The position of the first entry with key `k`.
pub open spec fn key_pos(s: Seq<(Seq<char>, Json)>, k: Seq<char>) -> Option<int>
    decreases s.len(),
{
    if s.len() == 0 {
        None
    } else if s[0].0 == k {
        Some(0)
    } else {
        match key_pos(s.subrange(1, s.len() as int), k) {
            Some(i) => Some(i + 1),
            None => None,
        }
    }
}

pub proof fn lemma_key_pos(s: Seq<(Seq<char>, Json)>, k: Seq<char>)
    ensures
        key_pos(s, k) matches Some(i) ==> 0 <= i < s.len() && s[i].0 == k && forall|j: int|
            0 <= j < i ==> s[j].0 != k,
        key_pos(s, k) is None ==> forall|j: int| 0 <= j < s.len() ==> s[j].0 != k,
    decreases s.len(),
{
    if s.len() > 0 && s[0].0 != k {
        let t = s.subrange(1, s.len() as int);
        lemma_key_pos(t, k);
        assert forall|j: int| 0 < j < s.len() implies s[j] == t[j - 1] by {}
    }
}

/// What merging `o` over `b` gives: two objects merge key by key, anything
/// else is replaced by the overlay.
pub open spec fn merged(b: Json, o: Json) -> Json
    decreases o,
{
    match (b, o) {
        (Json::Obj(be), Json::Obj(oe)) => Json::Obj(merged_entries(be, oe)),
        _ => o,
    }
}

/// The entries `out` after each entry of `ov` is merged in, in order: an
/// entry whose key is present merges into that entry's value, any other is
/// appended.
pub open spec fn merged_entries(out: Seq<(Seq<char>, Json)>, ov: Seq<(Seq<char>, Json)>) -> Seq<
    (Seq<char>, Json),
>
    decreases ov,
{
    if ov.len() == 0 {
        out
    } else {
        let k = ov[0].0;
        let v = ov[0].1;
        let out2 = match key_pos(out, k) {
            Some(i) => out.update(i, (k, merged(out[i].1, v))),
            None => out.push((k, v)),
        };
        merged_entries(out2, ov.subrange(1, ov.len() as int))
    }
}

impl JsonValue {
    /// A deep copy.
    pub fn copy(&self) -> (r: JsonValue)
        ensures
            r@ == self@,
        decreases self,
    {
        match self {
            JsonValue::Null => JsonValue::Null,
            JsonValue::Bool(b) => JsonValue::Bool(*b),
            JsonValue::Number(n) => JsonValue::Number(
                match n {
                    JsonNumber::PosInt(u) => JsonNumber::PosInt(*u),
                    JsonNumber::NegInt(i) => JsonNumber::NegInt(*i),
                    JsonNumber::Float(s) => JsonNumber::Float(s.clone()),
                },
            ),
            JsonValue::Str(s) => JsonValue::Str(s.clone()),
            JsonValue::Array(a) => {
                let mut out: Vec<JsonValue> = Vec::new();
                let mut i: usize = 0;
                proof {
                    lemma_arr_model(a@);
                }
                while i < a.len()
                    invariant
                        *self is Array,
                        self->Array_0 == *a,
                        0 <= i <= a.len(),
                        out@.len() == i,
                        forall|j: int| 0 <= j < i ==> model(#[trigger] out@[j]) == model(a@[j]),
                    decreases a.len() - i,
                {
                    proof {
                        assert(decreases_to!(self->Array_0 => self->Array_0[i as int]));
                    }
                    let c = a[i].copy();
                    out.push(c);
                    i += 1;
                }
                proof {
                    lemma_arr_model(out@);
                    assert(arr_model(out@) =~= arr_model(a@));
                }
                JsonValue::Array(out)
            },
            JsonValue::Object(e) => {
                let mut out: Vec<(String, JsonValue)> = Vec::new();
                let mut i: usize = 0;
                proof {
                    lemma_obj_model(e@);
                }
                while i < e.len()
                    invariant
                        *self is Object,
                        self->Object_0 == *e,
                        0 <= i <= e.len(),
                        out@.len() == i,
                        forall|j: int|
                            0 <= j < i ==> (#[trigger] out@[j]).0@ == e@[j].0@ && model(out@[j].1)
                                == model(e@[j].1),
                    decreases e.len() - i,
                {
                    proof {
                        assert(decreases_to!(self->Object_0 => self->Object_0[i as int]));
                        assert(decreases_to!(self->Object_0[i as int] => self->Object_0[i as int].1));
                    }
                    let c = e[i].1.copy();
                    out.push((e[i].0.clone(), c));
                    i += 1;
                }
                proof {
                    lemma_obj_model(out@);
                    assert(obj_model(out@) =~= obj_model(e@));
                }
                JsonValue::Object(out)
            },
        }
    }

    /// The value of key `key` in an object (the first entry with that key).
    pub fn get(&self, key: &str) -> (r: Option<&JsonValue>)
        ensures
            match self@ {
                Json::Obj(es) => match key_pos(es, key@) {
                    Some(i) => r matches Some(v) && v@ == es[i].1,
                    None => r is None,
                },
                _ => r is None,
            },
    {
        match self {
            JsonValue::Object(e) => {
                let k = crate::text::chars_of(key);
                match find_key(e, k.as_slice()) {
                    Some(i) => {
                        proof {
                            lemma_obj_model(e@);
                            lemma_key_pos(obj_model(e@), k@);
                        }
                        Some(&e[i].1)
                    },
                    None => None,
                }
            },
            _ => None,
        }
    }
}

/// The position of the first entry with key `k`.
pub fn find_key(e: &Vec<(String, JsonValue)>, k: &[char]) -> (r: Option<usize>)
    ensures
        r matches Some(i) ==> key_pos(obj_model(e@), k@) == Some(i as int),
        r is None ==> key_pos(obj_model(e@), k@) is None,
{
    proof {
        lemma_obj_model(e@);
        lemma_key_pos(obj_model(e@), k@);
    }
    let mut i: usize = 0;
    while i < e.len()
        invariant
            0 <= i <= e.len(),
            obj_model(e@).len() == e@.len(),
            forall|j: int|
                0 <= j < e@.len() ==> #[trigger] obj_model(e@)[j] == (e@[j].0@, model(e@[j].1)),
            forall|j: int| 0 <= j < i ==> (#[trigger] obj_model(e@)[j]).0 != k@,
            key_pos(obj_model(e@), k@) matches Some(p) ==> 0 <= p < e@.len() && obj_model(e@)[p].0
                == k@ && forall|j: int| 0 <= j < p ==> obj_model(e@)[j].0 != k@,
            key_pos(obj_model(e@), k@) is None ==> forall|j: int|
                0 <= j < e@.len() ==> obj_model(e@)[j].0 != k@,
        decreases e.len() - i,
    {
        let kc = crate::text::chars_of(e[i].0.as_str());
        if eq_chars(kc.as_slice(), k) {
            assert(obj_model(e@)[i as int].0 == k@);
            return Some(i);
        }
        i += 1;
    }
    None
}

/// Deep-merges JSON objects: keys of `overlay` override those of `base`,
/// recursively where both values are objects; anything that is not an
/// object pair is replaced by `overlay`.
pub fn deep_merge(base: &JsonValue, overlay: &JsonValue) -> (r: JsonValue)
    ensures
        r@ == merged(base@, overlay@),
    decreases overlay,
{
    match (base, overlay) {
        (JsonValue::Object(b), JsonValue::Object(o)) => {
            let mut out: Vec<(String, JsonValue)> = Vec::new();
            let mut i: usize = 0;
            proof {
                lemma_obj_model(b@);
                lemma_obj_model(o@);
            }
            while i < b.len()
                invariant
                    0 <= i <= b.len(),
                    out@.len() == i,
                    forall|j: int|
                        0 <= j < i ==> (#[trigger] out@[j]).0@ == b@[j].0@ && model(out@[j].1)
                            == model(b@[j].1),
                decreases b.len() - i,
            {
                let c = b[i].1.copy();
                out.push((b[i].0.clone(), c));
                i += 1;
            }
            proof {
                lemma_obj_model(out@);
                assert(obj_model(out@) =~= obj_model(b@));
            }
            let ghost om = obj_model(o@);
            assert(om.subrange(0, om.len() as int) =~= om);
            let mut i: usize = 0;
            while i < o.len()
                invariant
                    *overlay is Object,
                    overlay->Object_0 == *o,
                    0 <= i <= o.len(),
                    om == obj_model(o@),
                    om.len() == o@.len(),
                    forall|j: int|
                        0 <= j < o@.len() ==> #[trigger] om[j] == (o@[j].0@, model(o@[j].1)),
                    merged_entries(obj_model(b@), om) == merged_entries(
                        obj_model(out@),
                        om.subrange(i as int, om.len() as int),
                    ),
                decreases o.len() - i,
            {
                let ghost cur = obj_model(out@);
                let ghost rest = om.subrange(i as int, om.len() as int);
                assert(rest.subrange(1, rest.len() as int) =~= om.subrange(
                    i + 1,
                    om.len() as int,
                ));
                assert(rest[0] == om[i as int]);
                let kc = crate::text::chars_of(o[i].0.as_str());
                proof {
                    lemma_obj_model(out@);
                }
                match find_key(&out, kc.as_slice()) {
                    Some(j) => {
                        proof {
                            lemma_key_pos(obj_model(out@), kc@);
                        }
                        proof {
                            assert(decreases_to!(overlay->Object_0 => overlay->Object_0[i as int]));
                            assert(decreases_to!(overlay->Object_0[i as int] => overlay->Object_0[i as int].1));
                        }
                        let m = deep_merge(&out[j].1, &o[i].1);
                        let ghost before = out@;
                        out.set(j, (o[i].0.clone(), m));
                        proof {
                            lemma_obj_model(out@);
                            assert(obj_model(out@) =~= cur.update(
                                j as int,
                                (om[i as int].0, merged(cur[j as int].1, om[i as int].1)),
                            ));
                        }
                    },
                    None => {
                        let c = o[i].1.copy();
                        out.push((o[i].0.clone(), c));
                        proof {
                            lemma_obj_model(out@);
                            assert(obj_model(out@) =~= cur.push(om[i as int]));
                        }
                    },
                }
                i += 1;
            }
            proof {
                assert(om.subrange(o.len() as int, om.len() as int) =~= Seq::<
                    (Seq<char>, Json),
                >::empty());
            }
            JsonValue::Object(out)
        },
        _ => overlay.copy(),
    }
}

/// The value of key `k` in a JSON object (its first entry with that key);
/// nothing for any other value.
pub open spec fn json_get(v: Json, k: Seq<char>) -> Option<Json> {
    match v {
        Json::Obj(es) => lookup(es, k),
        _ => None,
    }
}

/// An object entry whose value is a string.
pub fn str_entry(key: &str, value: String) -> (r: (String, JsonValue))
    ensures
        r.0@ == key@,
        r.1@ == Json::Str(value@),
{
    (String::from_str(key), JsonValue::Str(value))
}

/// An object entry whose value is a non-negative integer.
pub fn u64_entry(key: &str, value: u64) -> (r: (String, JsonValue))
    ensures
        r.0@ == key@,
        r.1@ == Json::Num(Num::PosInt(value)),
{
    (String::from_str(key), JsonValue::Number(JsonNumber::PosInt(value)))
}

/// An object entry.
pub fn entry(key: &str, value: JsonValue) -> (r: (String, JsonValue))
    ensures
        r.0@ == key@,
        r.1@ == value@,
{
    (String::from_str(key), value)
}

/// An object made of the given entries.
pub fn object(entries: Vec<(String, JsonValue)>) -> (r: JsonValue)
    ensures
        r@ == Json::Obj(obj_model(entries@)),
        obj_model(entries@).len() == entries@.len(),
        forall|i: int|
            0 <= i < entries@.len() ==> #[trigger] obj_model(entries@)[i] == (
                entries@[i].0@,
                model(entries@[i].1),
            ),
{
    proof {
        lemma_obj_model(entries@);
    }
    JsonValue::Object(entries)
}

/// The value of the first entry with key `k`.
pub open spec fn lookup(s: Seq<(Seq<char>, Json)>, k: Seq<char>) -> Option<Json> {
    match key_pos(s, k) {
        Some(i) => Some(s[i].1),
        None => None,
    }
}

/// No key occurs twice.
pub open spec fn unique_keys(s: Seq<(Seq<char>, Json)>) -> bool {
    forall|i: int, j: int| 0 <= i < j < s.len() ==> s[i].0 != s[j].0
}

/// What a key holds after a merge, given what the base and the overlay hold.
pub open spec fn merged_value(b: Option<Json>, o: Option<Json>) -> Option<Json> {
    match (b, o) {
        (Some(x), Some(y)) => Some(merged(x, y)),
        (Some(x), None) => Some(x),
        (None, Some(y)) => Some(y),
        (None, None) => None,
    }
}

pub proof fn lemma_key_pos_is(s: Seq<(Seq<char>, Json)>, k: Seq<char>, p: int)
    requires
        0 <= p < s.len(),
        s[p].0 == k,
        forall|j: int| 0 <= j < p ==> s[j].0 != k,
    ensures
        key_pos(s, k) == Some(p),
{
    lemma_key_pos(s, k);
    if key_pos(s, k) is Some {
        let q = key_pos(s, k)->0;
        if q < p {
            assert(s[q].0 == k);
        } else if q > p {
            assert(s[p].0 != k);
        }
    } else {
        assert(s[p].0 != k);
    }
}

pub proof fn lemma_key_pos_none(s: Seq<(Seq<char>, Json)>, k: Seq<char>)
    requires
        forall|j: int| 0 <= j < s.len() ==> s[j].0 != k,
    ensures
        key_pos(s, k) is None,
{
    lemma_key_pos(s, k);
}

/// One step of `merged_entries`: only the merged key changes what it holds.
proof fn lemma_merge_step(out: Seq<(Seq<char>, Json)>, k0: Seq<char>, v0: Json, k: Seq<char>)
    ensures
        ({
            let out2 = match key_pos(out, k0) {
                Some(i) => out.update(i, (k0, merged(out[i].1, v0))),
                None => out.push((k0, v0)),
            };
            &&& k == k0 ==> lookup(out2, k) == merged_value(lookup(out, k0), Some(v0))
            &&& k != k0 ==> lookup(out2, k) == lookup(out, k)
        }),
{
    lemma_key_pos(out, k0);
    lemma_key_pos(out, k);
    match key_pos(out, k0) {
        Some(i) => {
            let out2 = out.update(i, (k0, merged(out[i].1, v0)));
            if k == k0 {
                lemma_key_pos_is(out2, k, i);
            } else {
                match key_pos(out, k) {
                    Some(p) => {
                        assert(p != i);
                        lemma_key_pos_is(out2, k, p);
                    },
                    None => {
                        lemma_key_pos_none(out2, k);
                    },
                }
            }
        },
        None => {
            let out2 = out.push((k0, v0));
            if k == k0 {
                lemma_key_pos_is(out2, k, out.len() as int);
            } else {
                match key_pos(out, k) {
                    Some(p) => {
                        lemma_key_pos_is(out2, k, p);
                    },
                    None => {
                        lemma_key_pos_none(out2, k);
                    },
                }
            }
        },
    }
}

/// Overlay wins on leaf keys: after merging object entries `oe` (each key
/// once) over `be`, each key holds the merge of both values where both
/// objects have it, and otherwise the value of the object that has it.
pub proof fn law_deep_merge_keys(be: Seq<(Seq<char>, Json)>, oe: Seq<(Seq<char>, Json)>, k: Seq<char>)
    requires
        unique_keys(oe),
    ensures
        lookup(merged_entries(be, oe), k) == merged_value(lookup(be, k), lookup(oe, k)),
    decreases oe.len(),
{
    if oe.len() == 0 {
        lemma_key_pos_none(oe, k);
    } else {
        let k0 = oe[0].0;
        let v0 = oe[0].1;
        let out2 = match key_pos(be, k0) {
            Some(i) => be.update(i, (k0, merged(be[i].1, v0))),
            None => be.push((k0, v0)),
        };
        let rest = oe.subrange(1, oe.len() as int);
        assert(unique_keys(rest)) by {
            assert forall|i: int, j: int| 0 <= i < j < rest.len() implies rest[i].0 != rest[j].0 by {
                assert(rest[i] == oe[i + 1] && rest[j] == oe[j + 1]);
            }
        }
        law_deep_merge_keys(out2, rest, k);
        lemma_merge_step(be, k0, v0, k);
        lemma_key_pos_is(oe, k0, 0);
        if k == k0 {
            assert forall|j: int| 0 <= j < rest.len() implies rest[j].0 != k by {
                assert(rest[j] == oe[j + 1]);
            }
            lemma_key_pos_none(rest, k);
        } else {
            lemma_key_pos(rest, k);
            match key_pos(rest, k) {
                Some(p) => {
                    assert(rest[p] == oe[p + 1]);
                    assert forall|j: int| 0 <= j < p + 1 implies oe[j].0 != k by {
                        if j > 0 {
                            assert(oe[j] == rest[j - 1]);
                        }
                    }
                    lemma_key_pos_is(oe, k, p + 1);
                },
                None => {
                    assert forall|j: int| 0 <= j < oe.len() implies oe[j].0 != k by {
                        if j > 0 {
                            assert(oe[j] == rest[j - 1]);
                        }
                    }
                    lemma_key_pos_none(oe, k);
                },
            }
        }
    }
}

/// Merging anything with an overlay that is not an object, or merging an
/// overlay over a base that is not an object, gives the overlay.
pub proof fn law_deep_merge_non_object(b: Json, o: Json)
    requires
        !(b is Obj && o is Obj),
    ensures
        merged(b, o) == o,
{
}

} // verus!
