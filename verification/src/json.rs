//! JSON values: the executable tree and its mathematical model.

use vstd::prelude::*;

verus! {

/// A JSON number, carried through unchanged.
#[verifier::external_type_specification]
#[verifier::external_body]
pub struct ExNumber(serde_json::Number);

/// A JSON value.
///
/// An object is a list of members, each a key and a value, in the order the
/// parser's map gives them. Objects that come out of the parser never hold a
/// key twice (see [`well_formed`](crate::policy::well_formed)); the checks
/// look at every member all the same, so an object built by hand with a key
/// twice is judged by all of its members.
#[derive(PartialEq, Debug)]
pub enum JsonValue {
    /// `null`
    Null,
    /// `true` or `false`
    Bool(bool),
    /// A number, integer or floating point.
    Number(serde_json::Number),
    /// A string.
    String(String),
    /// An array.
    Array(Vec<JsonValue>),
    /// An object, as its members in order.
    Object(Vec<(String, JsonValue)>),
}

/// The mathematical model of a JSON value: strings as character sequences,
/// arrays and objects as sequences.
pub enum Json {
    Null,
    Bool(bool),
    Number(serde_json::Number),
    Str(Seq<char>),
    Array(Seq<Json>),
    Object(Seq<(Seq<char>, Json)>),
}

/// The model of a value.
pub open spec fn model(v: JsonValue) -> Json
    decreases v,
{
    match v {
        JsonValue::Null => Json::Null,
        JsonValue::Bool(b) => Json::Bool(b),
        JsonValue::Number(n) => Json::Number(n),
        JsonValue::String(s) => Json::Str(s@),
        JsonValue::Array(items) => Json::Array(items_model(items@)),
        JsonValue::Object(members) => Json::Object(members_model(members@)),
    }
}

/// The models of a sequence of values.
pub open spec fn items_model(s: Seq<JsonValue>) -> Seq<Json>
    decreases s,
{
    Seq::new(
        s.len(),
        |i: int|
            if 0 <= i < s.len() {
                model(s[i])
            } else {
                Json::Null
            },
    )
}

/// The models of a sequence of object members.
pub open spec fn members_model(s: Seq<(String, JsonValue)>) -> Seq<(Seq<char>, Json)>
    decreases s,
{
    Seq::new(
        s.len(),
        |i: int|
            if 0 <= i < s.len() {
                (s[i].0@, model(s[i].1))
            } else {
                (Seq::empty(), Json::Null)
            },
    )
}

/// The number of nodes in a tree.
pub open spec fn size(v: Json) -> nat
    decreases v,
{
    match v {
        Json::Array(items) => 1 + items_size(items),
        Json::Object(members) => 1 + members_size(members),
        _ => 1,
    }
}

/// The number of nodes in a sequence of trees.
pub open spec fn items_size(s: Seq<Json>) -> nat
    decreases s,
{
    if s.len() == 0 {
        0
    } else {
        items_size(s.drop_last()) + size(s.last())
    }
}

/// The number of nodes under a sequence of object members.
pub open spec fn members_size(s: Seq<(Seq<char>, Json)>) -> nat
    decreases s,
{
    if s.len() == 0 {
        0
    } else {
        members_size(s.drop_last()) + size(s.last().1)
    }
}

impl View for JsonValue {
    type V = Json;

    open spec fn view(&self) -> Json {
        model(*self)
    }
}

} // verus!

verus! {

/// Appending a value appends its model and adds its nodes.
pub proof fn lemma_items_push(s: Seq<JsonValue>, x: JsonValue)
    ensures
        items_model(s.push(x)) == items_model(s).push(model(x)),
        items_size(items_model(s.push(x))) == items_size(items_model(s)) + size(model(x)),
{
    assert(items_model(s.push(x)) =~= items_model(s).push(model(x)));
    assert(items_model(s).push(model(x)).drop_last() =~= items_model(s));
}

/// Appending a member appends its model and adds its nodes.
pub proof fn lemma_members_push(s: Seq<(String, JsonValue)>, x: (String, JsonValue))
    ensures
        members_model(s.push(x)) == members_model(s).push((x.0@, model(x.1))),
        members_size(members_model(s.push(x))) == members_size(members_model(s)) + size(
            model(x.1),
        ),
{
    assert(members_model(s.push(x)) =~= members_model(s).push((x.0@, model(x.1))));
    assert(members_model(s).push((x.0@, model(x.1))).drop_last() =~= members_model(s));
}

} // verus!
