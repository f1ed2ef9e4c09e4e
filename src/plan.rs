//! The plan tree, its decoding from JSON and its encoding back.

use vstd::prelude::*;

use crate::json::{
    items_view, json_view, lemma_items_view, lemma_members_view, members_view, opt_json_view, Json,
    JsonModel, JsonNumber, NumberModel,
};
use vstd::string::StringExecFns;

verus! {

broadcast use {vstd::std_specs::vec::group_vec_axioms, vstd::seq::group_seq_axioms};

/// One node of a query execution plan, with the children that feed it.
///
/// The two cost estimates are kept as the JSON numbers the server wrote.
#[derive(Debug, PartialEq, Eq)]
pub struct ExplainPlan {
    /// Operator of this node, such as "Seq Scan" or "Hash Join".
    pub node_type: String,
    /// Role of this node for its parent ("Outer", "Inner", "Subquery", ...).
    pub parent_relationship: Option<String>,
    /// Whether the node takes part in a parallel plan.
    pub parallel_aware: bool,
    /// Whether the node can run asynchronously.
    pub async_capable: bool,
    /// Estimated cost before the first row comes out.
    pub startup_cost: JsonNumber,
    /// Estimated cost of producing every row.
    pub total_cost: JsonNumber,
    /// Estimated number of rows.
    pub plan_rows: u64,
    /// Estimated average width of a row, in bytes.
    pub plan_width: u64,
    /// Child nodes, in the order the server gave them.
    pub plans: Vec<ExplainPlan>,
}

/// Mathematical value of an `ExplainPlan`.
pub struct PlanModel {
    pub node_type: Seq<char>,
    pub parent_relationship: Option<Seq<char>>,
    pub parallel_aware: bool,
    pub async_capable: bool,
    pub startup_cost: NumberModel,
    pub total_cost: NumberModel,
    pub plan_rows: u64,
    pub plan_width: u64,
    pub plans: Seq<PlanModel>,
}

pub open spec fn opt_str_view(s: Option<String>) -> Option<Seq<char>> {
    match s {
        Some(t) => Some(t@),
        None => None,
    }
}

pub open spec fn plan_view(p: ExplainPlan) -> PlanModel
    decreases p,
{
    PlanModel {
        node_type: p.node_type@,
        parent_relationship: opt_str_view(p.parent_relationship),
        parallel_aware: p.parallel_aware,
        async_capable: p.async_capable,
        startup_cost: p.startup_cost@,
        total_cost: p.total_cost@,
        plan_rows: p.plan_rows,
        plan_width: p.plan_width,
        plans: plans_view(p.plans@),
    }
}

pub open spec fn plans_view(ps: Seq<ExplainPlan>) -> Seq<PlanModel>
    decreases ps,
{
    if ps.len() == 0 {
        Seq::empty()
    } else {
        plans_view(ps.drop_last()).push(plan_view(ps.last()))
    }
}

impl View for ExplainPlan {
    type V = PlanModel;

    open spec fn view(&self) -> PlanModel {
        plan_view(*self)
    }
}

// Member names of a plan node in PostgreSQL's EXPLAIN JSON output.
pub open spec fn node_type_key() -> Seq<char> {
    "Node Type"@
}

pub open spec fn parent_relationship_key() -> Seq<char> {
    "Parent Relationship"@
}

pub open spec fn parallel_aware_key() -> Seq<char> {
    "Parallel Aware"@
}

pub open spec fn async_capable_key() -> Seq<char> {
    "Async Capable"@
}

pub open spec fn startup_cost_key() -> Seq<char> {
    "Startup Cost"@
}

pub open spec fn total_cost_key() -> Seq<char> {
    "Total Cost"@
}

pub open spec fn plan_rows_key() -> Seq<char> {
    "Plan Rows"@
}

pub open spec fn plan_width_key() -> Seq<char> {
    "Plan Width"@
}

pub open spec fn plans_key() -> Seq<char> {
    "Plans"@
}

/// Index of the first member named `key` at or after `i`, or the number of
/// members when there is none.
pub open spec fn key_index(members: Seq<(Seq<char>, JsonModel)>, key: Seq<char>, i: int) -> int
    decreases members.len() - i,
{
    if i < 0 || i >= members.len() {
        members.len() as int
    } else if members[i].0 == key {
        i
    } else {
        key_index(members, key, i + 1)
    }
}

/// Value of the first member named `key`.
pub open spec fn member(members: Seq<(Seq<char>, JsonModel)>, key: Seq<char>) -> Option<JsonModel> {
    let k = key_index(members, key, 0);
    if 0 <= k < members.len() {
        Some(members[k].1)
    } else {
        None
    }
}

pub open spec fn required_str(v: Option<JsonModel>) -> Option<Seq<char>> {
    match v {
        Some(JsonModel::Str(s)) => Some(s),
        _ => None,
    }
}

/// An optional text member: absent or null is `None`; a string is itself.
pub open spec fn optional_str(v: Option<JsonModel>) -> Option<Option<Seq<char>>> {
    match v {
        None => Some(None),
        Some(JsonModel::Null) => Some(None),
        Some(JsonModel::Str(s)) => Some(Some(s)),
        _ => None,
    }
}

pub open spec fn required_bool(v: Option<JsonModel>) -> Option<bool> {
    match v {
        Some(JsonModel::Bool(b)) => Some(b),
        _ => None,
    }
}

/// A cost accepts any JSON number.
pub open spec fn required_number(v: Option<JsonModel>) -> Option<NumberModel> {
    match v {
        Some(JsonModel::Number(n)) => Some(n),
        _ => None,
    }
}

/// A count accepts only a non-negative integer that fits in 64 bits.
pub open spec fn required_u64(v: Option<JsonModel>) -> Option<u64> {
    match v {
        Some(JsonModel::Number(NumberModel::Unsigned(u))) => Some(u),
        _ => None,
    }
}

/// The plan node that a JSON value describes, or `None` when a required
/// member is missing or any member has the wrong type. Members of other names
/// are ignored; a missing "Plans" member means no children.
pub open spec fn plan_of(j: JsonModel) -> Option<PlanModel>
    decreases j,
{
    match j {
        JsonModel::Object(m) => {
            let k = key_index(m, plans_key(), 0);
            let children = if 0 <= k < m.len() {
                match m[k].1 {
                    JsonModel::Array(items) => plans_of(items),
                    _ => None,
                }
            } else {
                Some(Seq::empty())
            };
            let node_type = required_str(member(m, node_type_key()));
            let parent = optional_str(member(m, parent_relationship_key()));
            let parallel = required_bool(member(m, parallel_aware_key()));
            let asynchronous = required_bool(member(m, async_capable_key()));
            let startup = required_number(member(m, startup_cost_key()));
            let total = required_number(member(m, total_cost_key()));
            let rows = required_u64(member(m, plan_rows_key()));
            let width = required_u64(member(m, plan_width_key()));
            if node_type is Some && parent is Some && parallel is Some && asynchronous is Some
                && startup is Some && total is Some && rows is Some && width is Some
                && children is Some {
                Some(
                    PlanModel {
                        node_type: node_type->0,
                        parent_relationship: parent->0,
                        parallel_aware: parallel->0,
                        async_capable: asynchronous->0,
                        startup_cost: startup->0,
                        total_cost: total->0,
                        plan_rows: rows->0,
                        plan_width: width->0,
                        plans: children->0,
                    },
                )
            } else {
                None
            }
        },
        _ => None,
    }
}

/// The plan nodes of a sequence of JSON values, in order, or `None` when any
/// of them is not a plan node.
pub open spec fn plans_of(items: Seq<JsonModel>) -> Option<Seq<PlanModel>>
    decreases items,
{
    if items.len() == 0 {
        Some(Seq::empty())
    } else {
        match (plans_of(items.drop_last()), plan_of(items.last())) {
            (Some(ps), Some(p)) => Some(ps.push(p)),
            _ => None,
        }
    }
}

} // verus!

verus! {

pub proof fn lemma_plans_view(ps: Seq<ExplainPlan>)
    ensures
        plans_view(ps).len() == ps.len(),
        forall|i: int| 0 <= i < ps.len() ==> #[trigger] plans_view(ps)[i] == plan_view(ps[i]),
    decreases ps.len(),
{
    if ps.len() > 0 {
        lemma_plans_view(ps.drop_last());
    }
}

proof fn lemma_plans_of_prefix(s: Seq<JsonModel>, n: int)
    requires
        0 <= n <= s.len(),
        plans_of(s.take(n)) is None,
    ensures
        plans_of(s) is None,
    decreases s.len() - n,
{
    if n < s.len() {
        assert(s.take(n + 1).drop_last() =~= s.take(n));
        lemma_plans_of_prefix(s, n + 1);
    } else {
        assert(s.take(n) =~= s);
    }
}

/// Position of the first member named `key`, or the number of members.
fn find_member(members: &Vec<(String, Json)>, key: &String) -> (r: usize)
    ensures
        r == key_index(members_view(members@), key@, 0),
{
    proof {
        lemma_members_view(members@);
    }
    let mut i: usize = 0;
    while i < members.len()
        invariant
            0 <= i <= members.len(),
            members_view(members@).len() == members@.len(),
            forall|k: int|
                0 <= k < members.len() ==> #[trigger] members_view(members@)[k] == (
                    members@[k].0@,
                    json_view(members@[k].1),
                ),
            key_index(members_view(members@), key@, i as int) == key_index(
                members_view(members@),
                key@,
                0,
            ),
        decreases members.len() - i,
    {
        if members[i].0 == *key {
            return i;
        }
        i = i + 1;
    }
    i
}

/// Value of the first member named `key`.
pub(crate) fn member_value<'a>(members: &'a Vec<(String, Json)>, key: &str) -> (r: Option<&'a Json>)
    ensures
        opt_json_view(r) == member(members_view(members@), key@),
{
    proof {
        lemma_members_view(members@);
    }
    let name = String::from_str(key);
    let k = find_member(members, &name);
    if k < members.len() {
        Some(&members[k].1)
    } else {
        None
    }
}

fn read_str(v: Option<&Json>) -> (r: Option<String>)
    ensures
        opt_str_view(r) == required_str(opt_json_view(v)),
{
    match v {
        Some(Json::Str(s)) => Some(s.clone()),
        _ => None,
    }
}

fn read_optional_str(v: Option<&Json>) -> (r: Option<Option<String>>)
    ensures
        match r {
            Some(o) => optional_str(opt_json_view(v)) == Some(opt_str_view(o)),
            None => optional_str(opt_json_view(v)) is None,
        },
{
    match v {
        None => Some(None),
        Some(Json::Null) => Some(None),
        Some(Json::Str(s)) => Some(Some(s.clone())),
        _ => None,
    }
}

fn read_bool(v: Option<&Json>) -> (r: Option<bool>)
    ensures
        r == required_bool(opt_json_view(v)),
{
    match v {
        Some(Json::Bool(b)) => Some(*b),
        _ => None,
    }
}

fn read_number(v: Option<&Json>) -> (r: Option<JsonNumber>)
    ensures
        match r {
            Some(n) => required_number(opt_json_view(v)) == Some(n@),
            None => required_number(opt_json_view(v)) is None,
        },
{
    match v {
        Some(Json::Number(n)) => Some(n.duplicate()),
        _ => None,
    }
}

fn read_u64(v: Option<&Json>) -> (r: Option<u64>)
    ensures
        r == required_u64(opt_json_view(v)),
{
    match v {
        Some(Json::Number(JsonNumber::Unsigned(u))) => Some(*u),
        _ => None,
    }
}

/// Decodes one plan node and, recursively, its children. All or nothing: the
/// result is `None` exactly when the value does not describe a plan node.
pub fn decode_plan(j: &Json) -> (r: Option<ExplainPlan>)
    ensures
        match r {
            Some(p) => plan_of(j@) == Some(p@),
            None => plan_of(j@) is None,
        },
    decreases j,
{
    match j {
        Json::Object(members) => {
            proof {
                lemma_members_view(members@);
            }
            let plans_name = String::from_str("Plans");
            let k = find_member(members, &plans_name);
            let children = if k < members.len() {
                match &members[k].1 {
                    Json::Array(items) => decode_plans(items),
                    _ => None,
                }
            } else {
                Some(Vec::new())
            };
            let node_type = read_str(member_value(members, "Node Type"));
            let parent = read_optional_str(member_value(members, "Parent Relationship"));
            let parallel = read_bool(member_value(members, "Parallel Aware"));
            let asynchronous = read_bool(member_value(members, "Async Capable"));
            let startup = read_number(member_value(members, "Startup Cost"));
            let total = read_number(member_value(members, "Total Cost"));
            let rows = read_u64(member_value(members, "Plan Rows"));
            let width = read_u64(member_value(members, "Plan Width"));
            match (node_type, parent, parallel, asynchronous, startup, total, rows, width, children) {
                (
                    Some(node_type),
                    Some(parent_relationship),
                    Some(parallel_aware),
                    Some(async_capable),
                    Some(startup_cost),
                    Some(total_cost),
                    Some(plan_rows),
                    Some(plan_width),
                    Some(plans),
                ) => Some(
                    ExplainPlan {
                        node_type,
                        parent_relationship,
                        parallel_aware,
                        async_capable,
                        startup_cost,
                        total_cost,
                        plan_rows,
                        plan_width,
                        plans,
                    },
                ),
                _ => None,
            }
        },
        _ => None,
    }
}

/// Decodes a sequence of plan nodes in order; `None` when any of them fails.
pub fn decode_plans(items: &Vec<Json>) -> (r: Option<Vec<ExplainPlan>>)
    ensures
        match r {
            Some(ps) => plans_of(items_view(items@)) == Some(plans_view(ps@)),
            None => plans_of(items_view(items@)) is None,
        },
    decreases items,
{
    proof {
        lemma_items_view(items@);
    }
    let ghost s = items_view(items@);
    let mut out: Vec<ExplainPlan> = Vec::new();
    let mut i: usize = 0;
    assert(s.take(0) =~= Seq::<JsonModel>::empty());
    while i < items.len()
        invariant
            i <= items.len(),
            s == items_view(items@),
            s.len() == items@.len(),
            forall|k: int| 0 <= k < items@.len() ==> #[trigger] s[k] == json_view(items@[k]),
            plans_of(s.take(i as int)) == Some(plans_view(out@)),
        decreases items.len() - i,
    {
        assert(s.take(i + 1).drop_last() =~= s.take(i as int));
        match decode_plan(&items[i]) {
            Some(p) => {
                proof {
                    assert(out@.push(p).drop_last() =~= out@);
                }
                out.push(p);
            },
            None => {
                proof {
                    lemma_plans_of_prefix(s, i + 1);
                }
                return None;
            },
        }
        i = i + 1;
    }
    assert(s.take(i as int) =~= s);
    Some(out)
}

} // verus!

verus! {

pub open spec fn opt_str_json(s: Option<Seq<char>>) -> JsonModel {
    match s {
        Some(t) => JsonModel::Str(t),
        None => JsonModel::Null,
    }
}

/// The JSON object that describes a plan node, members in PostgreSQL's order.
pub open spec fn plan_json(p: PlanModel) -> JsonModel
    decreases p,
{
    JsonModel::Object(
        seq![
            (node_type_key(), JsonModel::Str(p.node_type)),
            (parent_relationship_key(), opt_str_json(p.parent_relationship)),
            (parallel_aware_key(), JsonModel::Bool(p.parallel_aware)),
            (async_capable_key(), JsonModel::Bool(p.async_capable)),
            (startup_cost_key(), JsonModel::Number(p.startup_cost)),
            (total_cost_key(), JsonModel::Number(p.total_cost)),
            (plan_rows_key(), JsonModel::Number(NumberModel::Unsigned(p.plan_rows))),
            (plan_width_key(), JsonModel::Number(NumberModel::Unsigned(p.plan_width))),
            (plans_key(), JsonModel::Array(plans_json(p.plans))),
        ],
    )
}

pub open spec fn plans_json(ps: Seq<PlanModel>) -> Seq<JsonModel>
    decreases ps,
{
    if ps.len() == 0 {
        Seq::empty()
    } else {
        plans_json(ps.drop_last()).push(plan_json(ps.last()))
    }
}

/// Decoding undoes encoding: the JSON object that describes a plan node
/// decodes to that same node, children included.
pub proof fn lemma_plan_round_trip(p: PlanModel)
    ensures
        plan_of(plan_json(p)) == Some(p),
    decreases p,
{
    lemma_plans_round_trip(p.plans);
    reveal_strlit("Node Type");
    reveal_strlit("Parent Relationship");
    reveal_strlit("Parallel Aware");
    reveal_strlit("Async Capable");
    reveal_strlit("Startup Cost");
    reveal_strlit("Total Cost");
    reveal_strlit("Plan Rows");
    reveal_strlit("Plan Width");
    reveal_strlit("Plans");
    reveal_with_fuel(key_index, 10);
    assert(node_type_key().len() == 9);
    assert(parent_relationship_key().len() == 19);
    assert(parallel_aware_key().len() == 14);
    assert(async_capable_key().len() == 13);
    assert(startup_cost_key().len() == 12);
    assert(total_cost_key().len() == 10);
    assert(plan_rows_key().len() == 9);
    assert(plan_width_key().len() == 10);
    assert(plans_key().len() == 5);
    assert(node_type_key()[0] != plan_rows_key()[0]);
    assert(total_cost_key()[0] != plan_width_key()[0]);
}

/// Decoding undoes encoding on a sequence of plan nodes, order kept.
pub proof fn lemma_plans_round_trip(ps: Seq<PlanModel>)
    ensures
        plans_of(plans_json(ps)) == Some(ps),
    decreases ps,
{
    if ps.len() > 0 {
        lemma_plans_round_trip(ps.drop_last());
        lemma_plan_round_trip(ps.last());
        assert(plans_json(ps).drop_last() =~= plans_json(ps.drop_last()));
        assert(ps.drop_last().push(ps.last()) =~= ps);
    } else {
        assert(ps =~= Seq::<PlanModel>::empty());
    }
}

} // verus!

verus! {

fn opt_string_json(s: &Option<String>) -> (r: Json)
    ensures
        r@ == opt_str_json(opt_str_view(*s)),
{
    match s {
        Some(t) => Json::Str(t.clone()),
        None => Json::Null,
    }
}

/// The JSON object that describes a plan node and its children.
pub fn encode_plan(p: &ExplainPlan) -> (r: Json)
    ensures
        r@ == plan_json(p@),
    decreases p,
{
    let mut members: Vec<(String, Json)> = Vec::new();
    members.push((String::from_str("Node Type"), Json::Str(p.node_type.clone())));
    members.push(
        (String::from_str("Parent Relationship"), opt_string_json(&p.parent_relationship)),
    );
    members.push((String::from_str("Parallel Aware"), Json::Bool(p.parallel_aware)));
    members.push((String::from_str("Async Capable"), Json::Bool(p.async_capable)));
    members.push((String::from_str("Startup Cost"), Json::Number(p.startup_cost.duplicate())));
    members.push((String::from_str("Total Cost"), Json::Number(p.total_cost.duplicate())));
    members.push(
        (String::from_str("Plan Rows"), Json::Number(JsonNumber::Unsigned(p.plan_rows))),
    );
    members.push(
        (String::from_str("Plan Width"), Json::Number(JsonNumber::Unsigned(p.plan_width))),
    );
    let children = encode_plans(&p.plans);
    members.push((String::from_str("Plans"), Json::Array(children)));
    proof {
        lemma_members_view(members@);
        assert(members_view(members@) =~= plan_json(p@)->Object_0);
    }
    Json::Object(members)
}

/// The JSON objects that describe a sequence of plan nodes, in order.
pub fn encode_plans(ps: &Vec<ExplainPlan>) -> (r: Vec<Json>)
    ensures
        items_view(r@) == plans_json(plans_view(ps@)),
    decreases ps,
{
    proof {
        lemma_plans_view(ps@);
    }
    let ghost s = plans_view(ps@);
    let mut out: Vec<Json> = Vec::new();
    let mut i: usize = 0;
    assert(s.take(0) =~= Seq::<PlanModel>::empty());
    while i < ps.len()
        invariant
            i <= ps.len(),
            s == plans_view(ps@),
            s.len() == ps@.len(),
            forall|k: int| 0 <= k < ps@.len() ==> #[trigger] s[k] == plan_view(ps@[k]),
            items_view(out@) == plans_json(s.take(i as int)),
        decreases ps.len() - i,
    {
        let j = encode_plan(&ps[i]);
        proof {
            assert(s.take(i + 1).drop_last() =~= s.take(i as int));
            assert(out@.push(j).drop_last() =~= out@);
        }
        out.push(j);
        i = i + 1;
    }
    assert(s.take(i as int) =~= s);
    out
}

} // verus!

verus! {

/// Children keep their order: a sequence of JSON values decodes exactly when
/// each of them does, and then the i-th node comes from the i-th value.
pub proof fn lemma_children_in_order(items: Seq<JsonModel>)
    ensures
        plans_of(items) is Some <==> forall|i: int|
            0 <= i < items.len() ==> #[trigger] plan_of(items[i]) is Some,
        plans_of(items) is Some ==> plans_of(items)->0.len() == items.len() && forall|i: int|
            0 <= i < items.len() ==> plan_of(items[i]) == Some(#[trigger] plans_of(items)->0[i]),
    decreases items.len(),
{
    if items.len() > 0 {
        let front = items.drop_last();
        let last = items.len() - 1;
        lemma_children_in_order(front);
        assert forall|i: int| 0 <= i < front.len() implies #[trigger] front[i] == items[i] by {}
        if plans_of(items) is Some {
            assert forall|i: int| 0 <= i < items.len() implies #[trigger] plan_of(items[i]) is Some by {
                if i < last {
                    assert(plan_of(front[i]) is Some);
                }
            }
        }
        if forall|i: int| 0 <= i < items.len() ==> #[trigger] plan_of(items[i]) is Some {
            assert(plan_of(items[last]) is Some);
            assert forall|i: int| 0 <= i < front.len() implies #[trigger] plan_of(front[i]) is Some by {
                assert(plan_of(items[i]) is Some);
            }
        }
    }
}

proof fn lemma_key_index_push(m: Seq<(Seq<char>, JsonModel)>, x: (Seq<char>, JsonModel), key: Seq<char>, i: int)
    requires
        0 <= i <= m.len(),
    ensures
        key_index(m, key, i) < m.len() ==> key_index(m.push(x), key, i) == key_index(m, key, i),
        key_index(m, key, i) >= m.len() && x.0 == key ==> key_index(m.push(x), key, i) == m.len(),
        key_index(m, key, i) >= m.len() && x.0 != key ==> key_index(m.push(x), key, i) == m.len() + 1,
    decreases m.len() - i,
{
    if i < m.len() {
        assert(m.push(x)[i] == m[i]);
        lemma_key_index_push(m, x, key, i + 1);
    } else {
        assert(m.push(x)[i] == x);
        assert(key_index(m.push(x), key, i + 1) == m.len() + 1);
    }
}

/// An absent "Parent Relationship" member is no error: an object without it
/// decodes exactly as the same object with that member set to null, and a
/// node decoded from it has no parent relationship.
pub proof fn lemma_absent_parent_relationship(m: Seq<(Seq<char>, JsonModel)>)
    requires
        member(m, parent_relationship_key()) is None,
    ensures
        plan_of(JsonModel::Object(m)) == plan_of(
            JsonModel::Object(m.push((parent_relationship_key(), JsonModel::Null))),
        ),
        plan_of(JsonModel::Object(m)) is Some ==> plan_of(
            JsonModel::Object(m),
        )->0.parent_relationship is None,
{
    let x = (parent_relationship_key(), JsonModel::Null);
    let n = m.push(x);
    reveal_strlit("Node Type");
    reveal_strlit("Parent Relationship");
    reveal_strlit("Parallel Aware");
    reveal_strlit("Async Capable");
    reveal_strlit("Startup Cost");
    reveal_strlit("Total Cost");
    reveal_strlit("Plan Rows");
    reveal_strlit("Plan Width");
    reveal_strlit("Plans");
    assert(node_type_key().len() == 9);
    assert(parent_relationship_key().len() == 19);
    assert(parallel_aware_key().len() == 14);
    assert(async_capable_key().len() == 13);
    assert(startup_cost_key().len() == 12);
    assert(total_cost_key().len() == 10);
    assert(plan_rows_key().len() == 9);
    assert(plan_width_key().len() == 10);
    assert(plans_key().len() == 5);
    lemma_key_index_push(m, x, node_type_key(), 0);
    lemma_key_index_push(m, x, parent_relationship_key(), 0);
    lemma_key_index_push(m, x, parallel_aware_key(), 0);
    lemma_key_index_push(m, x, async_capable_key(), 0);
    lemma_key_index_push(m, x, startup_cost_key(), 0);
    lemma_key_index_push(m, x, total_cost_key(), 0);
    lemma_key_index_push(m, x, plan_rows_key(), 0);
    lemma_key_index_push(m, x, plan_width_key(), 0);
    lemma_key_index_push(m, x, plans_key(), 0);
    lemma_key_index_range(m, plans_key(), 0);
    lemma_key_index_range(m, node_type_key(), 0);
    lemma_key_index_range(m, parent_relationship_key(), 0);
    lemma_key_index_range(m, parallel_aware_key(), 0);
    lemma_key_index_range(m, async_capable_key(), 0);
    lemma_key_index_range(m, startup_cost_key(), 0);
    lemma_key_index_range(m, total_cost_key(), 0);
    lemma_key_index_range(m, plan_rows_key(), 0);
    lemma_key_index_range(m, plan_width_key(), 0);
    let k = key_index(m, plans_key(), 0);
    if 0 <= k < m.len() {
        assert(n[k] == m[k]);
    }
    assert(member(n, node_type_key()) == member(m, node_type_key()));
    assert(member(n, parallel_aware_key()) == member(m, parallel_aware_key()));
    assert(member(n, async_capable_key()) == member(m, async_capable_key()));
    assert(member(n, startup_cost_key()) == member(m, startup_cost_key()));
    assert(member(n, total_cost_key()) == member(m, total_cost_key()));
    assert(member(n, plan_rows_key()) == member(m, plan_rows_key()));
    assert(member(n, plan_width_key()) == member(m, plan_width_key()));
    assert(member(n, parent_relationship_key()) == Some(JsonModel::Null));
}

proof fn lemma_key_index_range(m: Seq<(Seq<char>, JsonModel)>, key: Seq<char>, i: int)
    requires
        0 <= i <= m.len(),
    ensures
        i <= key_index(m, key, i) <= m.len(),
    decreases m.len() - i,
{
    if i < m.len() {
        lemma_key_index_range(m, key, i + 1);
    }
}

} // verus!
