//! The explained statement, and the decoding of the server's answer to it.

use vstd::prelude::*;

use crate::json::{
    items_view, json_view, lemma_items_view, lemma_members_view, members_view, parse_json,
    parsed_json, Json, JsonModel,
};
use crate::plan::{
    decode_plan, encode_plan, key_index, lemma_plan_round_trip, member, member_value, plan_json, plan_of,
    ExplainPlan, PlanModel,
};
use vstd::string::StringExecFns;

verus! {

/// Why no plan came back.
#[derive(Debug, PartialEq, Eq)]
pub enum ExplainError {
    /// The statement returned no row.
    NoRows,
    /// The row is not JSON; the parser's message.
    InvalidJson(String),
    /// The JSON is not an array of objects whose "Plan" member is a plan node.
    InvalidPlan,
    /// The array of plans is empty.
    NoPlan,
}

pub open spec fn explain_prefix_spec() -> Seq<char> {
    "EXPLAIN (FORMAT JSON) "@
}

/// The text put before a statement to have its plan described as JSON.
pub fn explain_prefix() -> (r: &'static str)
    ensures
        r@ == explain_prefix_spec(),
{
    "EXPLAIN (FORMAT JSON) "
}

/// The statement that asks for the plan of `sql` instead of running it.
pub fn explain_statement(sql: &str) -> (r: String)
    ensures
        r@ == explain_prefix_spec() + sql@,
{
    let s = String::from_str(explain_prefix());
    s.concat(sql)
}

/// The root plan held by one element of the server's answer.
pub open spec fn envelope_plan(j: JsonModel) -> Option<PlanModel> {
    match j {
        JsonModel::Object(m) => match member(m, "Plan"@) {
            Some(v) => plan_of(v),
            None => None,
        },
        _ => None,
    }
}

/// What the server's answer decodes to: every element must hold a plan, and
/// the first one is the result.
pub open spec fn document_plan(j: JsonModel) -> Result<PlanModel, ExplainError> {
    match j {
        JsonModel::Array(items) => {
            if exists|i: int| 0 <= i < items.len() && #[trigger] envelope_plan(items[i]) is None {
                Err(ExplainError::InvalidPlan)
            } else if items.len() == 0 {
                Err(ExplainError::NoPlan)
            } else {
                Ok(envelope_plan(items[0])->0)
            }
        },
        _ => Err(ExplainError::InvalidPlan),
    }
}

pub open spec fn result_model(r: Result<ExplainPlan, ExplainError>) -> Result<PlanModel, ExplainError> {
    match r {
        Ok(p) => Ok(p@),
        Err(e) => Err(e),
    }
}

/// What decoding the text of an answer gives.
pub open spec fn text_result(text: Seq<char>, r: Result<ExplainPlan, ExplainError>) -> bool {
    match parsed_json(text) {
        None => r is Err && r->Err_0 is InvalidJson,
        Some(j) => result_model(r) == document_plan(j),
    }
}

/// The server's answer that holds exactly the plan `p`.
pub open spec fn document_json(p: PlanModel) -> JsonModel {
    JsonModel::Array(seq![JsonModel::Object(seq![("Plan"@, plan_json(p))])])
}

/// Encodes a plan in the shape of the server's answer.
pub fn encode_document(p: &ExplainPlan) -> (r: Json)
    ensures
        r@ == document_json(p@),
{
    let mut envelope: Vec<(String, Json)> = Vec::new();
    envelope.push((String::from_str("Plan"), encode_plan(p)));
    let mut items: Vec<Json> = Vec::new();
    items.push(Json::Object(envelope));
    proof {
        lemma_members_view(envelope@);
        lemma_items_view(items@);
        assert(members_view(envelope@) =~= seq![("Plan"@, plan_json(p@))]);
        assert(items_view(items@) =~= document_json(p@)->Array_0);
    }
    Json::Array(items)
}

/// Decoding undoes encoding at the level of the server's answer: a plan put
/// in that shape decodes to itself.
pub proof fn lemma_document_round_trip(p: PlanModel)
    ensures
        document_plan(document_json(p)) == Ok::<PlanModel, ExplainError>(p),
{
    lemma_plan_round_trip(p);
    let items = document_json(p)->Array_0;
    let m = items[0]->Object_0;
    assert(key_index(m, "Plan"@, 0) == 0);
    assert(envelope_plan(items[0]) == Some(p));
    assert(!exists|i: int| 0 <= i < items.len() && #[trigger] envelope_plan(items[i]) is None);
}

/// Of an answer whose every element holds a plan, the first plan is taken,
/// whatever follows it; an empty answer is `NoPlan`.
pub proof fn lemma_first_plan_taken(items: Seq<JsonModel>)
    requires
        forall|i: int| 0 <= i < items.len() ==> #[trigger] envelope_plan(items[i]) is Some,
    ensures
        items.len() == 0 ==> document_plan(JsonModel::Array(items)) == Err::<PlanModel, ExplainError>(
            ExplainError::NoPlan,
        ),
        items.len() > 0 ==> Some(document_plan(JsonModel::Array(items))->Ok_0) == envelope_plan(
            items[0],
        ),
        items.len() > 0 ==> document_plan(JsonModel::Array(items)) is Ok,
{
    if items.len() > 0 {
        assert(envelope_plan(items[0]) is Some);
    }
}

/// Decodes one element of the server's answer.
pub fn decode_envelope(j: &Json) -> (r: Option<ExplainPlan>)
    ensures
        match r {
            Some(p) => envelope_plan(j@) == Some(p@),
            None => envelope_plan(j@) is None,
        },
{
    match j {
        Json::Object(members) => match member_value(members, "Plan") {
            Some(v) => decode_plan(v),
            None => None,
        },
        _ => None,
    }
}

/// Decodes the server's answer: an array of objects, each holding a plan
/// under "Plan". All of them must decode; the first one is returned.
pub fn plan_from_json(j: &Json) -> (r: Result<ExplainPlan, ExplainError>)
    ensures
        result_model(r) == document_plan(j@),
{
    match j {
        Json::Array(items) => {
            proof {
                lemma_items_view(items@);
            }
            let ghost s = j@->Array_0;
            let mut first: Option<ExplainPlan> = None;
            let mut i: usize = 0;
            while i < items.len()
                invariant
                    i <= items.len(),
                    s == j@->Array_0,
                    s.len() == items@.len(),
                    forall|k: int| 0 <= k < items@.len() ==> #[trigger] s[k] == json_view(items@[k]),
                    forall|k: int| 0 <= k < i ==> #[trigger] envelope_plan(s[k]) is Some,
                    i == 0 ==> first is None,
                    i > 0 ==> first is Some && envelope_plan(s[0]) == Some(first->0@),
                decreases items.len() - i,
            {
                match decode_envelope(&items[i]) {
                    Some(p) => {
                        if i == 0 {
                            first = Some(p);
                        }
                    },
                    None => {
                        assert(envelope_plan(s[i as int]) is None);
                        return Err(ExplainError::InvalidPlan);
                    },
                }
                i = i + 1;
            }
            match first {
                Some(p) => Ok(p),
                None => Err(ExplainError::NoPlan),
            }
        },
        _ => Err(ExplainError::InvalidPlan),
    }
}

/// Parses and decodes the text of the server's answer.
pub fn plan_from_text(text: &str) -> (r: Result<ExplainPlan, ExplainError>)
    ensures
        text_result(text@, r),
{
    match parse_json(text) {
        Ok(j) => plan_from_json(&j),
        Err(message) => Err(ExplainError::InvalidJson(message)),
    }
}

/// Decodes the rows returned by an explained statement: the first row holds
/// the answer; no row at all is an error.
pub fn plan_from_rows(rows: &Vec<String>) -> (r: Result<ExplainPlan, ExplainError>)
    ensures
        rows@.len() == 0 ==> r is Err && r->Err_0 is NoRows,
        rows@.len() > 0 ==> text_result(rows@[0]@, r),
{
    if rows.len() == 0 {
        Err(ExplainError::NoRows)
    } else {
        plan_from_text(rows[0].as_str())
    }
}

} // verus!
