//! JSON values as plain data, and their text.
//!
//! [`Json`] is the tree that the other modules read and build. The text of a
//! value, in both directions, is `serde_json`'s work; the trusted items here say
//! what is taken from it.

use vstd::prelude::*;

use crate::text::same;
use serde_json::{Number, Value};

verus! {

/// `serde_json::Number`, a number as `serde_json` holds it.
#[verifier::external_type_specification]
#[verifier::external_body]
pub struct ExNumber(serde_json::Number);

/// `serde_json::Value`, a JSON value as `serde_json` holds it.
#[verifier::external_type_specification]
#[verifier::external_body]
pub struct ExValue(serde_json::Value);

/// What `serde_json::Number::as_u64` returns for a number.
pub uninterp spec fn number_u64(n: serde_json::Number) -> Option<u64>;

/// What a `serde_json::Value` holds.
pub uninterp spec fn value_model(v: serde_json::Value) -> JsonV;

/// What `serde_json::from_str` makes of a text: the value, or the error's message.
pub uninterp spec fn parsed(s: Seq<char>) -> Result<JsonV, Seq<char>>;

/// What `serde_json::from_slice` makes of bytes: the value, or the error's message.
pub uninterp spec fn parsed_bytes(b: Seq<u8>) -> Result<JsonV, Seq<char>>;

/// The number that `serde_json::Number`'s `From<i64>` gives.
pub uninterp spec fn signed(i: i64) -> Number;

/// The text that `serde_json::to_string` gives for a value.
pub uninterp spec fn compact(j: JsonV) -> Seq<char>;

/// The text that `serde_json::to_string_pretty` gives for a value.
pub uninterp spec fn pretty(j: JsonV) -> Seq<char>;

/// A JSON value. Where an object lists a key more than once, the last entry is
/// the one that counts.
#[derive(Debug)]
pub enum Json {
    /// `null`.
    Null,
    /// `true` or `false`.
    Bool(bool),
    /// A number.
    Number(Number),
    /// A string.
    Str(String),
    /// An array.
    Array(Vec<Json>),
    /// An object, as a list of entries.
    Object(Vec<(String, Json)>),
}

/// The mathematical model of a JSON value.
pub ghost enum JsonV {
    /// `null`.
    Null,
    /// `true` or `false`.
    Bool(bool),
    /// An integer from zero to the largest `u64`.
    Uint(u64),
    /// Any other number.
    Number(Number),
    /// A string.
    Str(Seq<char>),
    /// An array.
    Array(Seq<JsonV>),
    /// An object.
    Object(Map<Seq<char>, JsonV>),
}

impl JsonV {
    /// The value under `key`: of an object that has it.
    pub open spec fn get(self, key: Seq<char>) -> Option<JsonV> {
        match self {
            JsonV::Object(m) => if m.contains_key(key) {
                Some(m[key])
            } else {
                None
            },
            _ => None,
        }
    }

    /// The text, where the value is a string.
    pub open spec fn as_text(self) -> Option<Seq<char>> {
        match self {
            JsonV::Str(s) => Some(s),
            _ => None,
        }
    }

    /// The integer, where the value is one from zero to the largest `u64`.
    pub open spec fn as_uint(self) -> Option<u64> {
        match self {
            JsonV::Uint(n) => Some(n),
            _ => None,
        }
    }

    /// The string under `key`: of an object that has a string there.
    pub open spec fn text_at(self, key: Seq<char>) -> Option<Seq<char>> {
        match self.get(key) {
            Some(v) => v.as_text(),
            None => None,
        }
    }

    /// The integer under `key`: of an object that has one there.
    pub open spec fn uint_at(self, key: Seq<char>) -> Option<u64> {
        match self.get(key) {
            Some(v) => v.as_uint(),
            None => None,
        }
    }
}

/// The model of a number.
pub open spec fn number_model(n: Number) -> JsonV {
    match number_u64(n) {
        Some(u) => JsonV::Uint(u),
        None => JsonV::Number(n),
    }
}

/// The model of a value.
pub open spec fn model(j: Json) -> JsonV
    decreases j, 0nat,
{
    match j {
        Json::Null => JsonV::Null,
        Json::Bool(b) => JsonV::Bool(b),
        Json::Number(n) => number_model(n),
        Json::Str(s) => JsonV::Str(s@),
        Json::Array(a) => JsonV::Array(items(a@)),
        Json::Object(f) => JsonV::Object(fields(f@)),
    }
}

/// The models of a list of values.
pub open spec fn items(a: Seq<Json>) -> Seq<JsonV>
    decreases a, 1nat,
{
    if a.len() == 0 {
        seq![]
    } else {
        items(a.drop_last()).push(model(a.last()))
    }
}

/// The object that a list of entries stands for.
pub open spec fn fields(f: Seq<(String, Json)>) -> Map<Seq<char>, JsonV>
    decreases f, 1nat,
{
    if f.len() == 0 {
        Map::empty()
    } else {
        fields(f.drop_last()).insert(f.last().0@, model(f.last().1))
    }
}

impl View for Json {
    type V = JsonV;

    open spec fn view(&self) -> JsonV {
        model(*self)
    }
}

/// The models of a list are those of its members, in order.
pub proof fn lemma_items(a: Seq<Json>)
    ensures
        items(a).len() == a.len(),
        forall|i: int| 0 <= i < a.len() ==> #[trigger] items(a)[i] == a[i]@,
    decreases a.len(),
{
    if a.len() > 0 {
        lemma_items(a.drop_last());
        assert forall|i: int| 0 <= i < a.len() implies #[trigger] items(a)[i] == a[i]@ by {
            if i < a.len() - 1 {
                assert(items(a.drop_last())[i] == a.drop_last()[i]@);
            }
        }
    }
}

/// The object that a list of entries over models stands for.
pub open spec fn entries(e: Seq<(Seq<char>, JsonV)>) -> Map<Seq<char>, JsonV>
    decreases e.len(),
{
    if e.len() == 0 {
        Map::empty()
    } else {
        entries(e.drop_last()).insert(e.last().0, e.last().1)
    }
}

impl Json {
    /// The value under `key`: of an object that has it. `serde_json::Value::get`.
    pub fn get(&self, key: &str) -> (r: Option<&Json>)
        ensures
            match r {
                Some(v) => self@.get(key@) == Some(v@),
                None => self@.get(key@) is None,
            },
    {
        match self {
            Json::Object(f) => {
                let mut i: usize = f.len();
                assert(f@.take(i as int) == f@);
                while 0 < i
                    invariant
                        i <= f@.len(),
                        *self == Json::Object(*f),
                        fields(f@).contains_key(key@) == fields(f@.take(i as int)).contains_key(
                            key@,
                        ),
                        fields(f@).contains_key(key@) ==> fields(f@)[key@] == fields(
                            f@.take(i as int),
                        )[key@],
                    decreases i,
                {
                    assert(f@.take(i as int).drop_last() == f@.take(i - 1));
                    assert(f@.take(i as int).last() == f@[i - 1]);
                    if same(f[i - 1].0.as_str(), key) {
                        return Some(&f[i - 1].1);
                    }
                    i -= 1;
                }
                None
            },
            _ => None,
        }
    }

    /// The text, where the value is a string. `serde_json::Value::as_str`.
    pub fn as_str(&self) -> (r: Option<&str>)
        ensures
            match r {
                Some(s) => self@.as_text() == Some(s@),
                None => self@.as_text() is None,
            },
    {
        match self {
            Json::Str(s) => Some(s.as_str()),
            _ => None,
        }
    }

    /// The integer, where the value is one from zero to the largest `u64`.
    /// `serde_json::Value::as_u64`.
    pub fn as_u64(&self) -> (r: Option<u64>)
        ensures
            r == self@.as_uint(),
    {
        match self {
            Json::Number(n) => n.as_u64(),
            _ => None,
        }
    }

    /// The members, where the value is an array. `serde_json::Value::as_array`.
    pub fn as_array(&self) -> (r: Option<&Vec<Json>>)
        ensures
            match r {
                Some(a) => self@ == JsonV::Array(items(a@)),
                None => !(self@ is Array),
            },
    {
        match self {
            Json::Array(a) => Some(a),
            _ => None,
        }
    }

    /// The string under `key`: of an object that has a string there.
    pub fn str_at(&self, key: &str) -> (r: Option<&str>)
        ensures
            match r {
                Some(s) => self@.text_at(key@) == Some(s@),
                None => self@.text_at(key@) is None,
            },
    {
        match self.get(key) {
            Some(v) => v.as_str(),
            None => None,
        }
    }

    /// The integer under `key`: of an object that has one there.
    pub fn u64_at(&self, key: &str) -> (r: Option<u64>)
        ensures
            r == self@.uint_at(key@),
    {
        match self.get(key) {
            Some(v) => v.as_u64(),
            None => None,
        }
    }
}

/// `serde_json::Number::as_u64` gives the integer that a number is, if it is one
/// from zero to the largest `u64`; the result is named.
pub assume_specification[ serde_json::Number::as_u64 ](n: &serde_json::Number) -> (r: Option<u64>)
    ensures
        r == number_u64(*n),
;

/// `serde_json::Number`'s `Clone` gives the same number.
pub assume_specification[ <serde_json::Number as Clone>::clone ](n: &serde_json::Number) -> (r:
    serde_json::Number)
    ensures
        r == *n,
;

/// `serde_json::Number`'s `From<u64>` gives the number that `as_u64` gives back.
#[verifier::external_body]
fn number(u: u64) -> (r: Number)
    ensures
        number_u64(r) == Some(u),
{
    Number::from(u)
}

/// `serde_json::Number`'s `From<i64>`; the result is named. `as_u64` gives back
/// an integer that is not below zero, and gives none for one that is.
#[verifier::external_body]
fn signed_number(i: i64) -> (r: Number)
    ensures
        r == signed(i),
        number_u64(r) == (if i < 0 {
            None
        } else {
            Some(i as u64)
        }),
{
    Number::from(i)
}

/// One level of a `serde_json::Value`.
pub enum Shape {
    /// `null`.
    Null,
    /// `true` or `false`.
    Bool(bool),
    /// A number.
    Number(Number),
    /// A string.
    Str(String),
    /// An array.
    Array(Vec<Value>),
    /// An object.
    Object(Vec<(String, Value)>),
}

/// What a level holds.
pub open spec fn level(s: Shape) -> JsonV {
    match s {
        Shape::Null => JsonV::Null,
        Shape::Bool(b) => JsonV::Bool(b),
        Shape::Number(n) => number_model(n),
        Shape::Str(t) => JsonV::Str(t@),
        Shape::Array(a) => JsonV::Array(a@.map_values(|v: Value| value_model(v))),
        Shape::Object(f) => JsonV::Object(entries(held(f@))),
    }
}

/// The keys of a list of entries and what their values hold.
pub open spec fn held(f: Seq<(String, Value)>) -> Seq<(Seq<char>, JsonV)> {
    f.map_values(|p: (String, Value)| (p.0@, value_model(p.1)))
}

/// Whether no key occurs twice.
pub open spec fn distinct(e: Seq<(Seq<char>, JsonV)>) -> bool {
    forall|i: int, j: int| 0 <= i < j < e.len() ==> (#[trigger] e[i]).0 != (#[trigger] e[j]).0
}

/// An object made of entries with distinct keys has just those entries.
proof fn lemma_entries(e: Seq<(Seq<char>, JsonV)>)
    requires
        distinct(e),
    ensures
        entries(e).dom().finite(),
        forall|i: int|
            0 <= i < e.len() ==> entries(e).contains_key((#[trigger] e[i]).0) && entries(e)[e[i].0]
                == e[i].1,
        forall|k: Seq<char>| #[trigger]
            entries(e).contains_key(k) ==> exists|i: int| 0 <= i < e.len() && (#[trigger] e[i]).0
                == k,
    decreases e.len(),
{
    if e.len() > 0 {
        let d = e.drop_last();
        assert(distinct(d)) by {
            assert forall|i: int, j: int| 0 <= i < j < d.len() implies (#[trigger] d[i]).0 != (
            #[trigger] d[j]).0 by {
                assert(e[i] == d[i] && e[j] == d[j]);
            }
        }
        lemma_entries(d);
        assert forall|i: int| 0 <= i < e.len() implies entries(e).contains_key((#[trigger] e[i]).0)
            && entries(e)[e[i].0] == e[i].1 by {
            if i < e.len() - 1 {
                assert(d[i] == e[i]);
                assert(e[i].0 != e[e.len() - 1].0);
            }
        }
        assert forall|k: Seq<char>| #[trigger] entries(e).contains_key(k) implies exists|i: int|
            0 <= i < e.len() && (#[trigger] e[i]).0 == k by {
            if k == e.last().0 {
                assert(e[e.len() - 1].0 == k);
            } else {
                assert(entries(d).contains_key(k));
                let i = choose|i: int| 0 <= i < d.len() && (#[trigger] d[i]).0 == k;
                assert(e[i] == d[i]);
            }
        }
    }
}

/// Replacing the value of an entry replaces the value under its key.
proof fn lemma_entries_update(e: Seq<(Seq<char>, JsonV)>, k: int, v: JsonV)
    requires
        distinct(e),
        0 <= k < e.len(),
    ensures
        distinct(e.update(k, (e[k].0, v))),
        entries(e.update(k, (e[k].0, v))) == entries(e).insert(e[k].0, v),
{
    let u = e.update(k, (e[k].0, v));
    assert forall|i: int, j: int| 0 <= i < j < u.len() implies (#[trigger] u[i]).0 != (
    #[trigger] u[j]).0 by {
        assert(e[i].0 != e[j].0);
    }
    lemma_entries(e);
    lemma_entries(u);
    assert forall|key: Seq<char>| #[trigger] entries(u).contains_key(key) implies entries(e).insert(
        e[k].0,
        v,
    ).contains_key(key) by {
        let i = choose|i: int| 0 <= i < u.len() && (#[trigger] u[i]).0 == key;
        assert(e[i].0 == key);
    }
    assert forall|key: Seq<char>| #[trigger]
        entries(e).insert(e[k].0, v).contains_key(key) implies entries(u).contains_key(key)
        && entries(u)[key] == entries(e).insert(e[k].0, v)[key] by {
        if key == e[k].0 {
            assert(u[k].0 == key);
        } else {
            let i = choose|i: int| 0 <= i < e.len() && (#[trigger] e[i]).0 == key;
            assert(u[i] == e[i]);
        }
    }
    assert(entries(u) =~= entries(e).insert(e[k].0, v));
}

/// Tells the variants of `serde_json::Value` apart. The entries of an object are
/// those that its map iterates over, each key once.
#[verifier::external_body]
fn take_apart(v: Value) -> (r: Shape)
    ensures
        level(r) == value_model(v),
        r matches Shape::Object(f) ==> distinct(held(f@)),
{
    match v {
        Value::Null => Shape::Null,
        Value::Bool(b) => Shape::Bool(b),
        Value::Number(n) => Shape::Number(n),
        Value::String(s) => Shape::Str(s),
        Value::Array(a) => Shape::Array(a),
        Value::Object(m) => Shape::Object(m.into_iter().collect()),
    }
}

/// Builds a `serde_json::Value` of the variant that a level names. The entries of
/// an object are collected into its map.
#[verifier::external_body]
fn put_together(s: Shape) -> (r: Value)
    requires
        s matches Shape::Object(f) ==> distinct(held(f@)),
    ensures
        value_model(r) == level(s),
{
    match s {
        Shape::Null => Value::Null,
        Shape::Bool(b) => Value::Bool(b),
        Shape::Number(n) => Value::Number(n),
        Shape::Str(t) => Value::String(t),
        Shape::Array(a) => Value::Array(a),
        Shape::Object(f) => Value::Object(f.into_iter().collect()),
    }
}

/// Whether a value is made of `null`, booleans, integers from zero to the largest
/// `u64` and strings, in at most `depth` levels of arrays and objects.
pub open spec fn nested(j: JsonV, depth: nat) -> bool
    decreases depth,
{
    match j {
        JsonV::Number(_) => false,
        JsonV::Array(a) => depth > 0 && forall|i: int|
            0 <= i < a.len() ==> nested(#[trigger] a[i], (depth - 1) as nat),
        JsonV::Object(m) => depth > 0 && forall|k: Seq<char>|
            m.contains_key(k) ==> nested(#[trigger] m[k], (depth - 1) as nat),
        _ => true,
    }
}

/// Whether `serde_json::from_str` makes `j` of the text `s`.
pub open spec fn reads_back(s: Seq<char>, j: JsonV) -> bool {
    parsed(s) == Ok::<JsonV, Seq<char>>(j)
}

/// `serde_json::from_str` into a `serde_json::Value`; the result is named. An
/// error is kept as the message that its `Display` gives.
#[verifier::external_body]
fn value_from_str(s: &str) -> (r: Result<Value, String>)
    ensures
        match r {
            Ok(v) => parsed(s@) == Ok::<JsonV, Seq<char>>(value_model(v)),
            Err(e) => parsed(s@) == Err::<JsonV, Seq<char>>(e@),
        },
{
    serde_json::from_str(s).map_err(|e| e.to_string())
}

/// `serde_json::from_slice` into a `serde_json::Value`; the result is named. An
/// error is kept as the message that its `Display` gives.
#[verifier::external_body]
fn value_from_slice(b: &[u8]) -> (r: Result<Value, String>)
    ensures
        match r {
            Ok(v) => parsed_bytes(b@) == Ok::<JsonV, Seq<char>>(value_model(v)),
            Err(e) => parsed_bytes(b@) == Err::<JsonV, Seq<char>>(e@),
        },
{
    serde_json::from_slice(b).map_err(|e| e.to_string())
}

/// Whether a text holds no line break.
pub open spec fn one_line(s: Seq<char>) -> bool {
    forall|i: int| 0 <= i < s.len() ==> #[trigger] s[i] != '\n' && s[i] != '\r'
}

/// `serde_json::to_string` of a `serde_json::Value`; the result is named. It does
/// not fail on such a value, and writes line breaks inside strings as escapes and
/// none elsewhere. `from_str` gives back a value that it wrote, where
/// the value has no number but those that fit in `u64` and no more levels of
/// arrays and objects than `from_str` reads, which is 127.
#[verifier::external_body]
fn value_to_string(v: &Value) -> (r: String)
    ensures
        r@ == compact(value_model(*v)),
        one_line(r@),
        nested(value_model(*v), 127) ==> reads_back(r@, value_model(*v)),
{
    serde_json::to_string(v).unwrap_or_default()
}

/// `serde_json::to_string_pretty` of a `serde_json::Value`; the result is named.
/// It does not fail on such a value.
#[verifier::external_body]
fn value_to_string_pretty(v: &Value) -> (r: String)
    ensures
        r@ == pretty(value_model(*v)),
{
    serde_json::to_string_pretty(v).unwrap_or_default()
}

/// The tree that a `serde_json::Value` holds.
fn from_value(v: Value) -> (r: Json)
    ensures
        r@ == value_model(v),
    decreases value_model(v),
{
    let ghost whole = value_model(v);
    match take_apart(v) {
        Shape::Null => Json::Null,
        Shape::Bool(b) => Json::Bool(b),
        Shape::Number(n) => Json::Number(n),
        Shape::Str(s) => Json::Str(s),
        Shape::Array(a) => {
            let ghost all = a@;
            let mut out: Vec<Json> = Vec::new();
            for x in it: a
                invariant
                    it.seq() == all,
                    whole == JsonV::Array(all.map_values(|v: Value| value_model(v))),
                    whole == value_model(v),
                    items(out@) == all.take(it.index()).map_values(|v: Value| value_model(v)),
            {
                let ghost before = out@;
                let ghost models = all.map_values(|v: Value| value_model(v));
                assert(models[it.index()] == value_model(x));
                assert(decreases_to!(whole => whole->Array_0));
                assert(decreases_to!(whole->Array_0 => models[it.index()]));
                out.push(from_value(x));
                assert(out@.drop_last() == before);
            }
            assert(all.take(all.len() as int) == all);
            Json::Array(out)
        },
        Shape::Object(f) => {
            let ghost all = f@;
            let mut out: Vec<(String, Json)> = Vec::new();
            assert(held(all).take(0) == Seq::<(Seq<char>, JsonV)>::empty());
            for x in it: f
                invariant
                    it.seq() == all,
                    whole == JsonV::Object(entries(held(all))),
                    whole == value_model(v),
                    distinct(held(all)),
                    fields(out@) == entries(held(all).take(it.index())),
            {
                let ghost n = it.index();
                let ghost before = out@;
                let ghost h = held(all);
                assert(h[n] == (x.0@, value_model(x.1)));
                proof {
                    lemma_entries(h);
                    assert(h.take(n + 1).drop_last() == h.take(n));
                    assert(decreases_to!(whole => whole->Object_0));
                    vstd::map::axiom_map_index_decreases_finite(entries(h), h[n].0);
                }
                let (key, value) = x;
                out.push((key, from_value(value)));
                assert(out@.drop_last() == before);
            }
            assert(held(all).take(all.len() as int) == held(all));
            Json::Object(out)
        },
    }
}

/// The `serde_json::Value` that holds a tree.
fn to_value(j: &Json) -> (r: Value)
    ensures
        value_model(r) == j@,
    decreases j,
{
    match j {
        Json::Null => put_together(Shape::Null),
        Json::Bool(b) => put_together(Shape::Bool(*b)),
        Json::Number(n) => put_together(Shape::Number(n.clone())),
        Json::Str(s) => put_together(Shape::Str(s.clone())),
        Json::Array(a) => {
            let mut out: Vec<Value> = Vec::new();
            let mut i: usize = 0;
            while i < a.len()
                invariant
                    i <= a@.len(),
                    *j == Json::Array(*a),
                    out@.map_values(|v: Value| value_model(v)) == items(a@.take(i as int)),
                decreases a@.len() - i,
            {
                let ghost before = out@;
                assert(a@.take(i + 1).drop_last() == a@.take(i as int));
                assert(decreases_to!(*j => j->Array_0));
                assert(decreases_to!(a => a@));
                assert(decreases_to!(a@ => a@[i as int]));
                out.push(to_value(&a[i]));
                assert(out@.map_values(|v: Value| value_model(v)) == before.map_values(
                    |v: Value| value_model(v),
                ).push(a@[i as int]@));
                i += 1;
            }
            assert(a@.take(i as int) == a@);
            put_together(Shape::Array(out))
        },
        Json::Object(f) => {
            let mut out: Vec<(String, Value)> = Vec::new();
            let mut i: usize = 0;
            assert(held(out@) == Seq::<(Seq<char>, JsonV)>::empty());
            while i < f.len()
                invariant
                    i <= f@.len(),
                    *j == Json::Object(*f),
                    distinct(held(out@)),
                    entries(held(out@)) == fields(f@.take(i as int)),
                decreases f@.len() - i,
            {
                let ghost before = out@;
                assert(f@.take(i + 1).drop_last() == f@.take(i as int));
                assert(decreases_to!(*j => j->Object_0));
                assert(decreases_to!(f => f@));
                assert(decreases_to!(f@ => f@[i as int]));
                assert(decreases_to!(f@[i as int] => f@[i as int].1));
                let key: String = f[i].0.clone();
                let value = to_value(&f[i].1);
                let mut k: usize = 0;
                while k < out.len() && !same(out[k].0.as_str(), key.as_str())
                    invariant
                        k <= out@.len(),
                        out@ == before,
                        forall|m: int| 0 <= m < k ==> (#[trigger] held(out@)[m]).0 != key@,
                    decreases out@.len() - k,
                {
                    assert(held(out@)[k as int].0 == out@[k as int].0@);
                    k += 1;
                }
                if k < out.len() {
                    proof {
                        assert(held(before)[k as int].0 == key@);
                        lemma_entries_update(held(before), k as int, value_model(value));
                    }
                    out.set(k, (key, value));
                    assert(held(out@) == held(before).update(
                        k as int,
                        (key@, value_model(value)),
                    ));
                } else {
                    out.push((key, value));
                    assert(held(out@) == held(before).push((key@, value_model(value))));
                    assert(held(out@).drop_last() == held(before));
                }
                i += 1;
            }
            assert(f@.take(i as int) == f@);
            put_together(Shape::Object(out))
        },
    }
}

/// Adds an entry to an object, or replaces the one with its key.
pub fn put(f: &mut Vec<(String, Json)>, key: &str, value: Json)
    ensures
        fields(final(f)@) == fields(old(f)@).insert(key@, value@),
{
    let ghost before = f@;
    f.push((key.to_owned(), value));
    assert(f@.drop_last() == before);
}

/// Adds a member to an array.
pub fn append(a: &mut Vec<Json>, value: Json)
    ensures
        items(final(a)@) == items(old(a)@).push(value@),
{
    let ghost before = a@;
    a.push(value);
    assert(a@.drop_last() == before);
}

impl Json {
    /// A string.
    pub fn text(s: &str) -> (r: Json)
        ensures
            r@ == JsonV::Str(s@),
    {
        Json::Str(s.to_owned())
    }

    /// An integer.
    pub fn uint(u: u64) -> (r: Json)
        ensures
            r@ == JsonV::Uint(u),
    {
        Json::Number(number(u))
    }

    /// An integer that may be below zero.
    pub fn integer(i: i64) -> (r: Json)
        ensures
            r@ == number_model(signed(i)),
            i >= 0 ==> r@ == JsonV::Uint(i as u64),
    {
        Json::Number(signed_number(i))
    }

    /// The value that a text stands for, or why it stands for none.
    pub fn parse(s: &str) -> (r: Result<Json, String>)
        ensures
            match r {
                Ok(j) => parsed(s@) == Ok::<JsonV, Seq<char>>(j@),
                Err(e) => parsed(s@) == Err::<JsonV, Seq<char>>(e@),
            },
    {
        match value_from_str(s) {
            Ok(v) => Ok(from_value(v)),
            Err(e) => Err(e),
        }
    }

    /// The value that bytes stand for, or why they stand for none.
    pub fn parse_bytes(b: &[u8]) -> (r: Result<Json, String>)
        ensures
            match r {
                Ok(j) => parsed_bytes(b@) == Ok::<JsonV, Seq<char>>(j@),
                Err(e) => parsed_bytes(b@) == Err::<JsonV, Seq<char>>(e@),
            },
    {
        match value_from_slice(b) {
            Ok(v) => Ok(from_value(v)),
            Err(e) => Err(e),
        }
    }

    /// The text of the value, on one line. What is written so reads back.
    pub fn to_text(&self) -> (r: String)
        ensures
            r@ == compact(self@),
            one_line(r@),
            nested(self@, 127) ==> reads_back(r@, self@),
    {
        value_to_string(&to_value(self))
    }

    /// The text of the value, laid out over several lines.
    pub fn to_pretty(&self) -> (r: String)
        ensures
            r@ == pretty(self@),
    {
        value_to_string_pretty(&to_value(self))
    }

    /// The same value once more.
    pub fn copy(&self) -> (r: Json)
        ensures
            r@ == self@,
    {
        from_value(to_value(self))
    }
}

} // verus!
