//! JSON values as the procedure runtime reads and builds them, with their
//! mathematical model, object lookup and insertion, and their compact JSON
//! text as `serde_json` writes it.
use vstd::prelude::*;

use serde_json::Value;

use crate::text::{chars_eq, chars_of};

verus! {

broadcast use vstd::std_specs::vec::group_vec_axioms;

/// A JSON number: a non-negative integer, a negative integer, or a
/// non-integer number carried as its rendered text.
#[derive(Debug, Clone, PartialEq)]
pub enum JsonNumber {
    PosInt(u64),
    NegInt(i64),
    Float(String),
}

/// A JSON value. Object entries are (key, value) pairs.
#[derive(Debug, PartialEq)]
pub enum JsonValue {
    Null,
    Bool(bool),
    Number(JsonNumber),
    String(String),
    Array(Vec<JsonValue>),
    Object(Vec<(String, JsonValue)>),
}

pub ghost enum NumberModel {
    PosInt(u64),
    NegInt(i64),
    Float(Seq<char>),
}

#[verifier::ext_equal]
pub ghost enum JsonModel {
    Null,
    Bool(bool),
    Number(NumberModel),
    Str(Seq<char>),
    Array(Seq<JsonModel>),
    Object(Seq<(Seq<char>, JsonModel)>),
}

impl JsonNumber {
    pub open spec fn model(self) -> NumberModel {
        match self {
            JsonNumber::PosInt(u) => NumberModel::PosInt(u),
            JsonNumber::NegInt(i) => NumberModel::NegInt(i),
            JsonNumber::Float(t) => NumberModel::Float(t@),
        }
    }

    pub fn deep_clone(&self) -> (r: JsonNumber)
        ensures
            r.model() == self.model(),
    {
        match self {
            JsonNumber::PosInt(u) => JsonNumber::PosInt(*u),
            JsonNumber::NegInt(i) => JsonNumber::NegInt(*i),
            JsonNumber::Float(t) => JsonNumber::Float(t.clone()),
        }
    }
}

/// The models of a sequence of values.
pub open spec fn items_model(items: Seq<JsonValue>) -> Seq<JsonModel>
    decreases items,
{
    Seq::new(
        items.len(),
        |i: int|
            if 0 <= i < items.len() {
                items[i].model()
            } else {
                JsonModel::Null
            },
    )
}

/// The models of a sequence of object entries.
pub open spec fn entries_model(entries: Seq<(String, JsonValue)>) -> Seq<(Seq<char>, JsonModel)>
    decreases entries,
{
    Seq::new(
        entries.len(),
        |i: int|
            if 0 <= i < entries.len() {
                (entries[i].0@, entries[i].1.model())
            } else {
                (Seq::empty(), JsonModel::Null)
            },
    )
}

/// The model of an optional borrowed value.
pub open spec fn ref_model(r: Option<&JsonValue>) -> Option<JsonModel> {
    match r {
        Some(v) => Some(v.model()),
        None => None,
    }
}

/// The model of an optional value.
pub open spec fn opt_model(r: Option<JsonValue>) -> Option<JsonModel> {
    match r {
        Some(v) => Some(v.model()),
        None => None,
    }
}

impl Clone for JsonValue {
    fn clone(&self) -> (r: JsonValue)
        ensures
            r.model() == self.model(),
    {
        self.deep_clone()
    }
}

impl JsonValue {
    pub open spec fn model(self) -> JsonModel
        decreases self,
    {
        match self {
            JsonValue::Null => JsonModel::Null,
            JsonValue::Bool(b) => JsonModel::Bool(b),
            JsonValue::Number(n) => JsonModel::Number(n.model()),
            JsonValue::String(s) => JsonModel::Str(s@),
            JsonValue::Array(items) => JsonModel::Array(items_model(items@)),
            JsonValue::Object(entries) => JsonModel::Object(entries_model(entries@)),
        }
    }

    /// A copy with the same model.
    #[verifier::loop_isolation(false)]
    pub fn deep_clone(&self) -> (r: JsonValue)
        ensures
            r.model() == self.model(),
        decreases self,
    {
        match self {
            JsonValue::Null => JsonValue::Null,
            JsonValue::Bool(b) => JsonValue::Bool(*b),
            JsonValue::Number(n) => JsonValue::Number(n.deep_clone()),
            JsonValue::String(s) => JsonValue::String(s.clone()),
            JsonValue::Array(items) => {
                let mut out: Vec<JsonValue> = Vec::new();
                let mut i: usize = 0;
                while i < items.len()
                    invariant
                        i <= items.len(),
                        out.len() == i,
                        forall|j: int| 0 <= j < i ==> #[trigger] out@[j].model() == items@[j].model(),
                    decreases items.len() - i,
                {
                    proof {
                        assert(decreases_to!(*self => items@[i as int]));
                    }
                    let c = items[i].deep_clone();
                    out.push(c);
                    i += 1;
                }
                proof {
                    assert(items_model(out@).len() == items_model(items@).len());
                    assert forall|k: int| 0 <= k < items.len() implies items_model(out@)[k] == items_model(items@)[k] by {
                        assert(items_model(out@)[k] == out@[k].model());
                        assert(items_model(items@)[k] == items@[k].model());
                    }
                    assert(items_model(out@) =~= items_model(items@));
                }
                JsonValue::Array(out)
            },
            JsonValue::Object(entries) => {
                let mut out: Vec<(String, JsonValue)> = Vec::new();
                let mut i: usize = 0;
                while i < entries.len()
                    invariant
                        i <= entries.len(),
                        out.len() == i,
                        forall|j: int|
                            0 <= j < i ==> #[trigger] out@[j].0@ == entries@[j].0@ && out@[j].1.model()
                                == entries@[j].1.model(),
                    decreases entries.len() - i,
                {
                    proof {
                        assert(decreases_to!(*self => entries@[i as int].1));
                    }
                    let k = entries[i].0.clone();
                    let v = entries[i].1.deep_clone();
                    out.push((k, v));
                    i += 1;
                }
                proof {
                    assert(entries_model(out@) =~= entries_model(entries@));
                }
                JsonValue::Object(out)
            },
        }
    }

    pub fn is_null(&self) -> (r: bool)
        ensures
            r == (self.model() is Null),
    {
        match self {
            JsonValue::Null => true,
            _ => false,
        }
    }

    /// The string held by a JSON string value.
    pub fn as_str(&self) -> (r: Option<&String>)
        ensures
            match self.model() {
                JsonModel::Str(s) => r is Some && r->0@ == s,
                _ => r is None,
            },
    {
        match self {
            JsonValue::String(s) => Some(s),
            _ => None,
        }
    }

    /// The value stored under `key` when `self` is an object; `None` otherwise.
    pub fn get(&self, key: &Vec<char>) -> (r: Option<&JsonValue>)
        ensures
            ref_model(r) == self.model().get(key@),
    {
        match self {
            JsonValue::Object(entries) => {
                let r = object_get(entries, key);
                r
            },
            _ => None,
        }
    }
}

impl JsonModel {
    /// Object member lookup (first entry with the key); `None` for non-objects.
    pub open spec fn get(self, key: Seq<char>) -> Option<JsonModel> {
        match self {
            JsonModel::Object(es) => obj_get(es, key),
            _ => None,
        }
    }
}

/// No two entries of an object share a key.
pub open spec fn keys_distinct(es: Seq<(Seq<char>, JsonModel)>) -> bool {
    forall|a: int, b: int| 0 <= a < b < es.len() ==> (#[trigger] es[a]).0 != (#[trigger] es[b]).0
}

impl JsonModel {
    /// A value as JSON text can hold it: no object, at any depth, has two
    /// entries with the same key.
    pub open spec fn well_formed(self) -> bool
        decreases self,
    {
        match self {
            JsonModel::Array(xs) => forall|i: int| 0 <= i < xs.len() ==> (#[trigger] xs[i]).well_formed(),
            JsonModel::Object(es) => keys_distinct(es) && forall|i: int|
                0 <= i < es.len() ==> (#[trigger] es[i]).1.well_formed(),
            _ => true,
        }
    }
}

/// Every entry of an object holds a well-formed value and no key repeats.
pub open spec fn entries_well_formed(es: Seq<(Seq<char>, JsonModel)>) -> bool {
    &&& keys_distinct(es)
    &&& forall|i: int| 0 <= i < es.len() ==> (#[trigger] es[i]).1.well_formed()
}

/// Inserting a well-formed value into well-formed entries keeps them
/// well-formed: an existing key is replaced, not repeated.
pub proof fn lemma_obj_insert_well_formed(es: Seq<(Seq<char>, JsonModel)>, k: Seq<char>, v: JsonModel)
    requires
        entries_well_formed(es),
        v.well_formed(),
    ensures
        entries_well_formed(obj_insert(es, k, v)),
        forall|i: int| 0 <= i < obj_insert(es, k, v).len() ==> #[trigger] obj_insert(es, k, v)[i].0 == k || (exists|j: int| 0 <= j < es.len() && es[j].0 == obj_insert(es, k, v)[i].0),
    decreases es.len(),
{
    let r = obj_insert(es, k, v);
    if es.len() == 0 {
    } else if es[0].0 == k {
        let t = es.drop_first();
        assert(r =~= seq![(k, v)] + t);
        assert forall|a: int, b: int| 0 <= a < b < r.len() implies (#[trigger] r[a]).0 != (#[trigger] r[b]).0 by {
            if a == 0 {
                assert(r[b] == es[b]);
            } else {
                assert(r[a] == es[a]);
                assert(r[b] == es[b]);
            }
        }
        assert forall|i: int| 0 <= i < r.len() implies (#[trigger] r[i]).1.well_formed() by {
            if i > 0 {
                assert(r[i] == es[i]);
            }
        }
        assert forall|i: int| 0 <= i < r.len() implies #[trigger] r[i].0 == k || (exists|j: int| 0 <= j < es.len() && es[j].0 == r[i].0) by {
            if i > 0 {
                assert(r[i] == es[i]);
            }
        }
    } else {
        let t = es.drop_first();
        assert forall|a: int, b: int| 0 <= a < b < t.len() implies (#[trigger] t[a]).0 != (#[trigger] t[b]).0 by {
            assert(t[a] == es[a + 1] && t[b] == es[b + 1]);
        }
        assert forall|i: int| 0 <= i < t.len() implies (#[trigger] t[i]).1.well_formed() by {
            assert(t[i] == es[i + 1]);
        }
        lemma_obj_insert_well_formed(t, k, v);
        let rt = obj_insert(t, k, v);
        assert(r =~= seq![es[0]] + rt);
        assert forall|i: int| 0 <= i < r.len() implies #[trigger] r[i].0 == k || (exists|j: int| 0 <= j < es.len() && es[j].0 == r[i].0) by {
            if i == 0 {
                assert(es[0].0 == r[0].0);
            } else {
                assert(r[i] == rt[i - 1]);
                if rt[i - 1].0 != k {
                    let j = choose|j: int| 0 <= j < t.len() && t[j].0 == rt[i - 1].0;
                    assert(es[j + 1].0 == r[i].0);
                }
            }
        }
        assert forall|a: int, b: int| 0 <= a < b < r.len() implies (#[trigger] r[a]).0 != (#[trigger] r[b]).0 by {
            if a == 0 {
                assert(r[b] == rt[b - 1]);
                if rt[b - 1].0 != k {
                    let j = choose|j: int| 0 <= j < t.len() && t[j].0 == rt[b - 1].0;
                    assert(t[j] == es[j + 1]);
                }
            } else {
                assert(r[a] == rt[a - 1]);
                assert(r[b] == rt[b - 1]);
            }
        }
        assert forall|i: int| 0 <= i < r.len() implies (#[trigger] r[i]).1.well_formed() by {
            if i > 0 {
                assert(r[i] == rt[i - 1]);
            }
        }
    }
}

/// The value of the first entry whose key is `k`.
pub open spec fn obj_get(es: Seq<(Seq<char>, JsonModel)>, k: Seq<char>) -> Option<JsonModel>
    decreases es.len(),
{
    if es.len() == 0 {
        None
    } else if es[0].0 == k {
        Some(es[0].1)
    } else {
        obj_get(es.drop_first(), k)
    }
}

/// Insertion into an object: the value of an existing key is replaced in
/// place; a new key is added at the end.
pub open spec fn obj_insert(es: Seq<(Seq<char>, JsonModel)>, k: Seq<char>, v: JsonModel) -> Seq<
    (Seq<char>, JsonModel),
>
    decreases es.len(),
{
    if es.len() == 0 {
        seq![(k, v)]
    } else if es[0].0 == k {
        seq![(k, v)] + es.drop_first()
    } else {
        seq![es[0]] + obj_insert(es.drop_first(), k, v)
    }
}

pub proof fn lemma_obj_get_prefix(es: Seq<(Seq<char>, JsonModel)>, k: Seq<char>, i: int)
    requires
        0 <= i <= es.len(),
        forall|j: int| 0 <= j < i ==> (#[trigger] es[j]).0 != k,
    ensures
        obj_get(es, k) == obj_get(es.skip(i), k),
    decreases i,
{
    if i > 0 {
        assert(es.skip(1) =~= es.drop_first());
        lemma_obj_get_prefix(es.drop_first(), k, i - 1);
        assert(es.drop_first().skip(i - 1) =~= es.skip(i));
    } else {
        assert(es.skip(0) =~= es);
    }
}

pub proof fn lemma_obj_insert_prefix(es: Seq<(Seq<char>, JsonModel)>, k: Seq<char>, v: JsonModel, i: int)
    requires
        0 <= i <= es.len(),
        forall|j: int| 0 <= j < i ==> (#[trigger] es[j]).0 != k,
    ensures
        obj_insert(es, k, v) == es.take(i) + obj_insert(es.skip(i), k, v),
    decreases i,
{
    if i > 0 {
        lemma_obj_insert_prefix(es.drop_first(), k, v, i - 1);
        assert(es.drop_first().skip(i - 1) =~= es.skip(i));
        assert(es.take(i) =~= seq![es[0]] + es.drop_first().take(i - 1));
        assert(obj_insert(es, k, v) =~= es.take(i) + obj_insert(es.skip(i), k, v));
    } else {
        assert(es.skip(0) =~= es);
        assert(es.take(0) + obj_insert(es, k, v) =~= obj_insert(es, k, v));
    }
}

/// Looks a key up among object entries.
pub fn object_get<'a>(entries: &'a Vec<(String, JsonValue)>, key: &Vec<char>) -> (r: Option<&'a JsonValue>)
    ensures
        ref_model(r) == obj_get(entries_model(entries@), key@),
{
    let ghost es = entries_model(entries@);
    let mut i: usize = 0;
    while i < entries.len()
        invariant
            i <= entries.len(),
            es == entries_model(entries@),
            forall|j: int| 0 <= j < i ==> (#[trigger] es[j]).0 != key@,
        decreases entries.len() - i,
    {
        let kv = chars_of(entries[i].0.as_str());
        if chars_eq(&kv, key) {
            proof {
                lemma_obj_get_prefix(es, key@, i as int);
                assert(es.skip(i as int)[0] == es[i as int]);
            }
            return Some(&entries[i].1);
        }
        proof {
            assert(es[i as int].0 == entries@[i as int].0@);
        }
        i += 1;
    }
    proof {
        lemma_obj_get_prefix(es, key@, i as int);
    }
    None
}

/// Inserts `key` with `value` into object entries: an existing key's value
/// is replaced in place, a new key is added at the end.
pub fn object_insert(entries: &mut Vec<(String, JsonValue)>, key: String, value: JsonValue)
    ensures
        entries_model(final(entries)@) == obj_insert(entries_model(old(entries)@), key@, value.model()),
        entries_well_formed(entries_model(old(entries)@)) && value.model().well_formed() ==> entries_well_formed(
            entries_model(final(entries)@),
        ),
{
    proof {
        if entries_well_formed(entries_model(entries@)) && value.model().well_formed() {
            lemma_obj_insert_well_formed(entries_model(entries@), key@, value.model());
        }
    }
    let ghost es = entries_model(entries@);
    let kv = chars_of(key.as_str());
    let mut i: usize = 0;
    while i < entries.len()
        invariant
            i <= entries.len(),
            entries@ == old(entries)@,
            es == entries_model(entries@),
            kv@ == key@,
            forall|j: int| 0 <= j < i ==> (#[trigger] es[j]).0 != key@,
        decreases entries.len() - i,
    {
        let ev = chars_of(entries[i].0.as_str());
        proof {
            assert(es[i as int].0 == entries@[i as int].0@);
            lemma_obj_insert_prefix(es, key@, value.model(), i as int);
            assert(es.skip(i as int)[0] == es[i as int]);
            assert(es.skip(i as int).drop_first() =~= es.skip(i + 1));
        }
        if chars_eq(&ev, &kv) {
            let ghost vm = value.model();
            entries.set(i, (key, value));
            proof {
                assert(entries_model(entries@) =~= es.take(i as int) + obj_insert(es.skip(i as int), kv@, vm));
            }
            return;
        }
        i += 1;
    }
    proof {
        lemma_obj_insert_prefix(es, key@, value.model(), i as int);
        assert(es.skip(i as int).len() == 0);
    }
    let ghost vm = value.model();
    entries.push((key, value));
    proof {
        assert(entries_model(entries@) =~= es.take(i as int) + obj_insert(es.skip(i as int), kv@, vm));
    }
}

/// Reading a key right after inserting it gives the inserted value.
pub proof fn lemma_obj_insert_get(es: Seq<(Seq<char>, JsonModel)>, k: Seq<char>, v: JsonModel)
    ensures
        obj_get(obj_insert(es, k, v), k) == Some(v),
    decreases es.len(),
{
    if es.len() > 0 && es[0].0 != k {
        lemma_obj_insert_get(es.drop_first(), k, v);
        let r = obj_insert(es, k, v);
        assert(r.drop_first() =~= obj_insert(es.drop_first(), k, v));
    }
}

/// Inserting one key leaves the values of all other keys unchanged.
pub proof fn lemma_obj_insert_get_other(es: Seq<(Seq<char>, JsonModel)>, k: Seq<char>, v: JsonModel, other: Seq<char>)
    requires
        other != k,
    ensures
        obj_get(obj_insert(es, k, v), other) == obj_get(es, other),
    decreases es.len(),
{
    let r = obj_insert(es, k, v);
    if es.len() == 0 {
        assert(r[0].0 == k);
        assert(obj_get(r, other) == obj_get(r.drop_first(), other));
        assert(r.drop_first() =~= Seq::<(Seq<char>, JsonModel)>::empty());
    } else if es[0].0 == k {
        assert(r[0].0 == k);
        assert(obj_get(r, other) == obj_get(r.drop_first(), other));
        assert(obj_get(es, other) == obj_get(es.drop_first(), other));
        assert(r.drop_first() =~= es.drop_first());
    } else {
        assert(r[0] == es[0]);
        lemma_obj_insert_get_other(es.drop_first(), k, v, other);
        assert(r.drop_first() =~= obj_insert(es.drop_first(), k, v));
    }
}

/// `serde_json`'s value type, carried through unchanged.
#[verifier::external_type_specification]
#[verifier::external_body]
pub struct ExSerdeValue(Value);

/// A JSON value converted to `serde_json`'s value type, one variant for one
/// (a non-integer number from its text), for `serde_json` to write. Nothing
/// is stated of the result.
#[verifier::external_body]
fn serde_value(v: &JsonValue) -> (r: Value) {
    match v {
        JsonValue::Null => Value::Null,
        JsonValue::Bool(b) => Value::Bool(*b),
        JsonValue::Number(JsonNumber::PosInt(u)) => Value::from(*u),
        JsonValue::Number(JsonNumber::NegInt(i)) => Value::from(*i),
        JsonValue::Number(JsonNumber::Float(t)) => serde_json::from_str(t).unwrap_or(Value::Null),
        JsonValue::String(s) => Value::String(s.clone()),
        JsonValue::Array(xs) => Value::Array(xs.iter().map(serde_value).collect()),
        JsonValue::Object(es) => Value::Object(es.iter().map(|(k, x)| (k.clone(), serde_value(x))).collect()),
    }
}

/// The compact JSON text `serde_json` writes for a value.
pub uninterp spec fn json_rendering(v: JsonModel) -> Seq<char>;

/// `serde_json::Value`'s `to_string` (compact JSON) of the value. The text
/// is a function of the value alone; what it is, is not stated here.
#[verifier::external_body]
pub fn json_string(v: &JsonValue) -> (r: String)
    ensures
        r@ == json_rendering(v.model()),
{
    serde_value(v).to_string()
}

} // verus!
