//! What JSON values hold, and what is found in them.

use serde_json::Number;
use vstd::prelude::*;

use crate::json::{fields, items, number_model, number_u64, Json, JsonV};

verus! {

/// A value holds what it was made of.
pub proof fn law_values_hold(
    b: bool,
    n: Number,
    s: String,
    a: Vec<Json>,
    f: Vec<(String, Json)>,
)
    ensures
        Json::Null@ == JsonV::Null,
        Json::Bool(b)@ == JsonV::Bool(b),
        Json::Str(s)@ == JsonV::Str(s@),
        Json::Array(a)@ == JsonV::Array(items(a@)),
        Json::Object(f)@ == JsonV::Object(fields(f@)),
        Json::Number(n)@ == match number_u64(n) {
            Some(u) => JsonV::Uint(u),
            None => JsonV::Number(n),
        },
        Json::Number(n)@ == number_model(n),
{
}

/// The members of an array are in order, and the last entry with a key is the one
/// that counts.
pub proof fn law_members_and_entries(
    a: Seq<Json>,
    x: Json,
    f: Seq<(String, Json)>,
    key: String,
)
    ensures
        items(seq![]) == Seq::<JsonV>::empty(),
        items(a.push(x)) == items(a).push(x@),
        fields(seq![]) == Map::<Seq<char>, JsonV>::empty(),
        fields(f.push((key, x))) == fields(f).insert(key@, x@),
{
    assert(a.push(x).drop_last() =~= a);
    assert(f.push((key, x)).drop_last() =~= f);
    assert(fields(seq![]) =~= Map::<Seq<char>, JsonV>::empty());
}

/// A key finds what an object has under it, of the right type, and finds nothing
/// in any other value.
pub proof fn law_lookup(m: Map<Seq<char>, JsonV>, key: Seq<char>, v: JsonV)
    ensures
        JsonV::Object(m).get(key) == if m.dom().contains(key) {
            Some(m[key])
        } else {
            None
        },
        !(v is Object) ==> v.get(key) is None,
        v.text_at(key) == match v.get(key) {
            Some(JsonV::Str(s)) => Some(s),
            _ => None,
        },
        v.uint_at(key) == match v.get(key) {
            Some(JsonV::Uint(n)) => Some(n),
            _ => None,
        },
{
}

} // verus!
