//! JSON documents as plain values, and their parsing by serde_json.

use serde_json::Value;
use vstd::prelude::*;

verus! {

/// serde_json's value tree; only `json_of_value` looks inside it.
#[verifier::external_type_specification]
#[verifier::external_body]
pub struct ExValue(Value);

/// A JSON number as the parser read it: a non-negative integer, a negative
/// integer, or any other number, kept as the text serde_json writes for it.
#[derive(Debug, Clone, PartialEq, Eq)]
pub enum JsonNumber {
    Unsigned(u64),
    Negative(i64),
    Decimal(String),
}

/// Mathematical value of a `JsonNumber`.
pub enum NumberModel {
    Unsigned(u64),
    Negative(i64),
    Decimal(Seq<char>),
}

impl View for JsonNumber {
    type V = NumberModel;

    open spec fn view(&self) -> NumberModel {
        match self {
            JsonNumber::Unsigned(u) => NumberModel::Unsigned(*u),
            JsonNumber::Negative(i) => NumberModel::Negative(*i),
            JsonNumber::Decimal(s) => NumberModel::Decimal(s@),
        }
    }
}

/// A JSON document held as plain values. An object keeps its members in the
/// order given.
#[derive(Debug, PartialEq, Eq)]
pub enum Json {
    Null,
    Bool(bool),
    Number(JsonNumber),
    Str(String),
    Array(Vec<Json>),
    Object(Vec<(String, Json)>),
}

/// Mathematical value of a `Json` document.
pub enum JsonModel {
    Null,
    Bool(bool),
    Number(NumberModel),
    Str(Seq<char>),
    Array(Seq<JsonModel>),
    Object(Seq<(Seq<char>, JsonModel)>),
}

pub open spec fn json_view(j: Json) -> JsonModel
    decreases j,
{
    match j {
        Json::Null => JsonModel::Null,
        Json::Bool(b) => JsonModel::Bool(b),
        Json::Number(n) => JsonModel::Number(n@),
        Json::Str(s) => JsonModel::Str(s@),
        Json::Array(items) => JsonModel::Array(items_view(items@)),
        Json::Object(members) => JsonModel::Object(members_view(members@)),
    }
}

pub open spec fn items_view(items: Seq<Json>) -> Seq<JsonModel>
    decreases items,
{
    if items.len() == 0 {
        Seq::empty()
    } else {
        items_view(items.drop_last()).push(json_view(items.last()))
    }
}

pub open spec fn members_view(members: Seq<(String, Json)>) -> Seq<(Seq<char>, JsonModel)>
    decreases members,
{
    if members.len() == 0 {
        Seq::empty()
    } else {
        members_view(members.drop_last()).push(
            (members.last().0@, json_view(members.last().1)),
        )
    }
}

impl View for Json {
    type V = JsonModel;

    open spec fn view(&self) -> JsonModel {
        json_view(*self)
    }
}

/// The document that a text holds, as serde_json reads it, or `None` when the
/// text is not JSON.
pub uninterp spec fn parsed_json(text: Seq<char>) -> Option<JsonModel>;

/// Relies on serde_json::from_str into a `serde_json::Value`: it fails on text
/// that is not one JSON value, and otherwise its result depends on the text
/// alone. The parser's message is kept on failure.
#[verifier::external_body]
pub fn parse_json(text: &str) -> (r: Result<Json, String>)
    ensures
        match r {
            Ok(j) => parsed_json(text@) == Some(j@),
            Err(_) => parsed_json(text@) is None,
        },
{
    match serde_json::from_str::<Value>(text) {
        Ok(v) => Ok(json_of_value(v)),
        Err(e) => Err(e.to_string()),
    }
}

/// Moves serde_json's value tree into a `Json`, variant for variant; a number
/// becomes `Unsigned` when it fits in u64, else `Negative` when it fits in i64,
/// else `Decimal` with serde_json's text for it. Used by `parse_json` alone.
#[verifier::external_body]
fn json_of_value(v: Value) -> Json {
    match v {
        Value::Null => Json::Null,
        Value::Bool(b) => Json::Bool(b),
        Value::Number(n) => Json::Number(match (n.as_u64(), n.as_i64()) {
            (Some(u), _) => JsonNumber::Unsigned(u),
            (None, Some(i)) => JsonNumber::Negative(i),
            (None, None) => JsonNumber::Decimal(n.to_string()),
        }),
        Value::String(s) => Json::Str(s),
        Value::Array(a) => Json::Array(a.into_iter().map(json_of_value).collect()),
        Value::Object(o) => Json::Object(o.into_iter().map(|(k, x)| (k, json_of_value(x))).collect()),
    }
}

impl JsonNumber {
    /// A copy of this number.
    pub fn duplicate(&self) -> (r: JsonNumber)
        ensures
            r@ == self@,
    {
        match self {
            JsonNumber::Unsigned(u) => JsonNumber::Unsigned(*u),
            JsonNumber::Negative(i) => JsonNumber::Negative(*i),
            JsonNumber::Decimal(t) => JsonNumber::Decimal(t.clone()),
        }
    }
}

/// The model of an optional borrowed value.
pub open spec fn opt_json_view(v: Option<&Json>) -> Option<JsonModel> {
    match v {
        Some(j) => Some(json_view(*j)),
        None => None,
    }
}

pub proof fn lemma_items_view(items: Seq<Json>)
    ensures
        items_view(items).len() == items.len(),
        forall|i: int| 0 <= i < items.len() ==> #[trigger] items_view(items)[i] == json_view(items[i]),
    decreases items.len(),
{
    if items.len() > 0 {
        lemma_items_view(items.drop_last());
    }
}

pub proof fn lemma_members_view(members: Seq<(String, Json)>)
    ensures
        members_view(members).len() == members.len(),
        forall|i: int|
            0 <= i < members.len() ==> #[trigger] members_view(members)[i] == (
                members[i].0@,
                json_view(members[i].1),
            ),
    decreases members.len(),
{
    if members.len() > 0 {
        lemma_members_view(members.drop_last());
    }
}

} // verus!
