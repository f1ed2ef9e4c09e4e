use diesel_pg_explain::explain::{
    decode_envelope, encode_document, explain_prefix, explain_statement, plan_from_json, plan_from_rows,
    plan_from_text, ExplainError,
};
use diesel_pg_explain::json::{parse_json, Json, JsonNumber};
use diesel_pg_explain::plan::{decode_plan, decode_plans, encode_plan, encode_plans, ExplainPlan};

const SEQ_SCAN: &str = r#"[{"Plan":{"Node Type":"Seq Scan","Parallel Aware":false,"Async Capable":false,"Startup Cost":0.0,"Total Cost":10.5,"Plan Rows":100,"Plan Width":32,"Plans":[]}}]"#;

fn node(node_type: &str, rows: u64, plans: Vec<ExplainPlan>) -> ExplainPlan {
    ExplainPlan {
        node_type: node_type.to_string(),
        parent_relationship: None,
        parallel_aware: false,
        async_capable: false,
        startup_cost: JsonNumber::Unsigned(0),
        total_cost: JsonNumber::Decimal("10.5".to_string()),
        plan_rows: rows,
        plan_width: 8,
        plans,
    }
}

fn node_text(node_type: &str, extra: &str) -> String {
    format!(
        r#"{{"Node Type":"{}","Parallel Aware":true,"Async Capable":false,"Startup Cost":1.25,"Total Cost":7,"Plan Rows":3,"Plan Width":4{}}}"#,
        node_type, extra
    )
}

fn render(j: &Json) -> String {
    match j {
        Json::Null => "null".to_string(),
        Json::Bool(b) => b.to_string(),
        Json::Number(JsonNumber::Unsigned(u)) => u.to_string(),
        Json::Number(JsonNumber::Negative(i)) => i.to_string(),
        Json::Number(JsonNumber::Decimal(t)) => t.clone(),
        Json::Str(s) => serde_json::to_string(s).unwrap(),
        Json::Array(items) => {
            let parts: Vec<String> = items.iter().map(render).collect();
            format!("[{}]", parts.join(","))
        }
        Json::Object(members) => {
            let parts: Vec<String> = members
                .iter()
                .map(|(k, v)| format!("{}:{}", serde_json::to_string(k).unwrap(), render(v)))
                .collect();
            format!("{{{}}}", parts.join(","))
        }
    }
}

fn full_tree(depth: u32, label: &mut u64) -> ExplainPlan {
    *label += 1;
    let me = *label;
    let plans = if depth == 0 {
        Vec::new()
    } else {
        vec![full_tree(depth - 1, label), full_tree(depth - 1, label)]
    };
    node("Hash Join", me, plans)
}

#[test]
fn decodes_seq_scan_scenario() {
    let plan = plan_from_text(SEQ_SCAN).unwrap();
    assert_eq!(plan.node_type, "Seq Scan");
    assert!(plan.plans.is_empty());
    assert_eq!(plan.parent_relationship, None);
    assert!(!plan.parallel_aware);
    assert!(!plan.async_capable);
    assert_eq!(plan.startup_cost, JsonNumber::Decimal("0.0".to_string()));
    assert_eq!(plan.total_cost, JsonNumber::Decimal("10.5".to_string()));
    assert_eq!(plan.plan_rows, 100);
    assert_eq!(plan.plan_width, 32);
}

#[test]
fn statement_gets_explain_prefix() {
    assert_eq!(explain_prefix(), "EXPLAIN (FORMAT JSON) ");
    assert_eq!(
        explain_statement("SELECT \"users\".\"id\" FROM \"users\" WHERE \"users\".\"name\" LIKE $1"),
        "EXPLAIN (FORMAT JSON) SELECT \"users\".\"id\" FROM \"users\" WHERE \"users\".\"name\" LIKE $1"
    );
    assert_eq!(explain_statement(""), "EXPLAIN (FORMAT JSON) ");
}

#[test]
fn encoded_tree_decodes_to_itself() {
    let mut leaf = node("Index Scan", 1, Vec::new());
    leaf.parent_relationship = Some("Inner".to_string());
    leaf.startup_cost = JsonNumber::Negative(-3);
    let mut outer = node("Seq Scan", 2, Vec::new());
    outer.parent_relationship = Some("Outer".to_string());
    outer.async_capable = true;
    let root = node("Nested Loop", 3, vec![outer, leaf]);
    let json = encode_plan(&root);
    assert_eq!(decode_plan(&json), Some(node("Nested Loop", 3, vec![
        {
            let mut p = node("Seq Scan", 2, Vec::new());
            p.parent_relationship = Some("Outer".to_string());
            p.async_capable = true;
            p
        },
        {
            let mut p = node("Index Scan", 1, Vec::new());
            p.parent_relationship = Some("Inner".to_string());
            p.startup_cost = JsonNumber::Negative(-3);
            p
        },
    ])));
    let text = format!("[{{\"Plan\":{}}}]", render(&json));
    assert_eq!(plan_from_text(&text), Ok(root));
}

#[test]
fn encoded_children_decode_in_order() {
    let children = vec![node("A", 1, Vec::new()), node("B", 2, Vec::new()), node("C", 3, Vec::new())];
    let items = encode_plans(&children);
    assert_eq!(items.len(), 3);
    assert_eq!(decode_plans(&items), Some(children));
    assert_eq!(decode_plans(&Vec::new()), Some(Vec::new()));
}

#[test]
fn first_of_several_plans_is_taken() {
    let text = format!(
        "[{{\"Plan\":{}}},{{\"Plan\":{}}}]",
        node_text("Result", ""),
        node_text("Limit", "")
    );
    let plan = plan_from_text(&text).unwrap();
    assert_eq!(plan.node_type, "Result");
    assert_eq!(plan.startup_cost, JsonNumber::Decimal("1.25".to_string()));
    assert_eq!(plan.total_cost, JsonNumber::Unsigned(7));
}

#[test]
fn every_plan_of_several_must_decode() {
    let text = format!("[{{\"Plan\":{}}},{{\"Plan\":3}}]", node_text("Result", ""));
    assert_eq!(plan_from_text(&text), Err(ExplainError::InvalidPlan));
    let text = format!("[{{\"Plan\":{}}},{{\"Other\":1}}]", node_text("Result", ""));
    assert_eq!(plan_from_text(&text), Err(ExplainError::InvalidPlan));
}

#[test]
fn empty_plan_array_is_no_plan() {
    assert_eq!(plan_from_text("[]"), Err(ExplainError::NoPlan));
    assert_eq!(plan_from_text(" [ ] "), Err(ExplainError::NoPlan));
}

#[test]
fn no_rows_is_an_error() {
    assert_eq!(plan_from_rows(&Vec::new()), Err(ExplainError::NoRows));
}

#[test]
fn first_row_is_decoded() {
    let rows = vec![SEQ_SCAN.to_string(), "not json".to_string()];
    assert_eq!(plan_from_rows(&rows).unwrap().node_type, "Seq Scan");
    let rows = vec!["[]".to_string(), SEQ_SCAN.to_string()];
    assert_eq!(plan_from_rows(&rows), Err(ExplainError::NoPlan));
}

#[test]
fn absent_parent_relationship_is_none() {
    let text = format!("[{{\"Plan\":{}}}]", node_text("Sort", ""));
    assert_eq!(plan_from_text(&text).unwrap().parent_relationship, None);
    let text = format!("[{{\"Plan\":{}}}]", node_text("Sort", ",\"Parent Relationship\":null"));
    assert_eq!(plan_from_text(&text).unwrap().parent_relationship, None);
    let text = format!("[{{\"Plan\":{}}}]", node_text("Sort", ",\"Parent Relationship\":\"Subquery\""));
    assert_eq!(
        plan_from_text(&text).unwrap().parent_relationship,
        Some("Subquery".to_string())
    );
    let text = format!("[{{\"Plan\":{}}}]", node_text("Sort", ",\"Parent Relationship\":5"));
    assert_eq!(plan_from_text(&text), Err(ExplainError::InvalidPlan));
}

#[test]
fn absent_plans_member_means_no_children() {
    let text = format!("[{{\"Plan\":{}}}]", node_text("Sort", ""));
    assert!(plan_from_text(&text).unwrap().plans.is_empty());
    let text = format!("[{{\"Plan\":{}}}]", node_text("Sort", ",\"Plans\":null"));
    assert_eq!(plan_from_text(&text), Err(ExplainError::InvalidPlan));
}

#[test]
fn unknown_members_are_ignored() {
    let text = format!(
        "[{{\"Plan\":{},\"Planning Time\":0.1}}]",
        node_text("Sort", ",\"Sort Key\":[\"x\"],\"Relation Name\":\"users\"")
    );
    assert_eq!(plan_from_text(&text).unwrap().node_type, "Sort");
}

#[test]
fn deep_tree_keeps_child_order() {
    let mut text = node_text("Leaf", "");
    for level in 0..20 {
        let side = node_text(&format!("Side{}", level), "");
        text = node_text(&format!("Level{}", level), &format!(",\"Plans\":[{},{}]", text, side));
    }
    let mut plan = plan_from_text(&format!("[{{\"Plan\":{}}}]", text)).unwrap();
    for level in (0..20).rev() {
        assert_eq!(plan.node_type, format!("Level{}", level));
        assert_eq!(plan.plans.len(), 2);
        assert_eq!(plan.plans[1].node_type, format!("Side{}", level));
        plan = plan.plans.remove(0);
    }
    assert_eq!(plan.node_type, "Leaf");
}

#[test]
fn full_binary_tree_round_trips() {
    let mut label = 0;
    let tree = full_tree(12, &mut label);
    let mut again = 0;
    let json = encode_plan(&tree);
    assert_eq!(decode_plan(&json), Some(full_tree(12, &mut again)));
    let text = format!("[{{\"Plan\":{}}}]", render(&json));
    let decoded = plan_from_text(&text).unwrap();
    assert_eq!(decoded.plan_rows, 1);
    assert_eq!(decoded.plans[0].plan_rows, 2);
    assert_eq!(decoded.plans[1].plan_rows, 4097);
    assert_eq!(decoded, tree);
}

#[test]
fn malformed_text_is_invalid_json() {
    assert!(matches!(plan_from_text(r#"[{"Plan":{"Node Type":"Seq"#), Err(ExplainError::InvalidJson(_))));
    assert!(matches!(plan_from_text(""), Err(ExplainError::InvalidJson(_))));
    assert!(matches!(plan_from_text("[] []"), Err(ExplainError::InvalidJson(_))));
}

#[test]
fn wrong_member_types_are_invalid_plan() {
    let cases = [
        r#"[{"Plan":{"Node Type":"Seq Scan","Parallel Aware":false,"Async Capable":false,"Startup Cost":"0.0","Total Cost":10.5,"Plan Rows":100,"Plan Width":32}}]"#,
        r#"[{"Plan":{"Node Type":"Seq Scan","Parallel Aware":false,"Async Capable":false,"Startup Cost":0.0,"Total Cost":10.5,"Plan Rows":"100","Plan Width":32}}]"#,
        r#"[{"Plan":{"Node Type":"Seq Scan","Parallel Aware":false,"Async Capable":false,"Startup Cost":0.0,"Total Cost":10.5,"Plan Rows":-1,"Plan Width":32}}]"#,
        r#"[{"Plan":{"Node Type":"Seq Scan","Parallel Aware":false,"Async Capable":false,"Startup Cost":0.0,"Total Cost":10.5,"Plan Rows":1.5,"Plan Width":32}}]"#,
        r#"[{"Plan":{"Node Type":"Seq Scan","Parallel Aware":0,"Async Capable":false,"Startup Cost":0.0,"Total Cost":10.5,"Plan Rows":100,"Plan Width":32}}]"#,
        r#"[{"Plan":{"Parallel Aware":false,"Async Capable":false,"Startup Cost":0.0,"Total Cost":10.5,"Plan Rows":100,"Plan Width":32}}]"#,
        r#"[{"Plan":{"Node Type":"Seq Scan","Parallel Aware":false,"Async Capable":false,"Startup Cost":0.0,"Total Cost":10.5,"Plan Rows":100,"Plan Width":32,"Plans":[{"Node Type":"Bad"}]}}]"#,
        r#"{"Plan":{"Node Type":"Seq Scan","Parallel Aware":false,"Async Capable":false,"Startup Cost":0.0,"Total Cost":10.5,"Plan Rows":100,"Plan Width":32}}"#,
        r#"[{"Plan":[]}]"#,
        "[1]",
        "null",
    ];
    for case in cases.iter() {
        assert_eq!(plan_from_text(case), Err(ExplainError::InvalidPlan), "{}", case);
    }
}

#[test]
fn parser_reads_every_kind_of_value() {
    let j = parse_json(r#" [1, -2, 2.5, "x\n", null, true, {"b": [], "a": {}}] "#).unwrap();
    let expected = Json::Array(vec![
        Json::Number(JsonNumber::Unsigned(1)),
        Json::Number(JsonNumber::Negative(-2)),
        Json::Number(JsonNumber::Decimal("2.5".to_string())),
        Json::Str("x\n".to_string()),
        Json::Null,
        Json::Bool(true),
        Json::Object(vec![
            ("a".to_string(), Json::Object(Vec::new())),
            ("b".to_string(), Json::Array(Vec::new())),
        ]),
    ]);
    assert_eq!(j, expected);
    assert!(parse_json("{").is_err());
}

#[test]
fn counts_reach_u64_limits() {
    let text = r#"[{"Plan":{"Node Type":"Seq Scan","Parallel Aware":false,"Async Capable":false,"Startup Cost":0,"Total Cost":0,"Plan Rows":18446744073709551615,"Plan Width":0}}]"#;
    let plan = plan_from_text(text).unwrap();
    assert_eq!(plan.plan_rows, u64::MAX);
    assert_eq!(plan.plan_width, 0);
    let text = r#"[{"Plan":{"Node Type":"Seq Scan","Parallel Aware":false,"Async Capable":false,"Startup Cost":0,"Total Cost":0,"Plan Rows":18446744073709551616,"Plan Width":0}}]"#;
    assert_eq!(plan_from_text(text), Err(ExplainError::InvalidPlan));
}

#[test]
fn decodes_from_json_values() {
    let envelope = Json::Object(vec![("Plan".to_string(), encode_plan(&node("Append", 9, Vec::new())))]);
    assert_eq!(decode_envelope(&envelope), Some(node("Append", 9, Vec::new())));
    assert_eq!(plan_from_json(&Json::Array(vec![envelope])), Ok(node("Append", 9, Vec::new())));
    assert_eq!(plan_from_json(&Json::Array(Vec::new())), Err(ExplainError::NoPlan));
    assert_eq!(plan_from_json(&Json::Null), Err(ExplainError::InvalidPlan));
    assert_eq!(decode_envelope(&Json::Object(Vec::new())), None);
}

#[test]
fn encoded_document_decodes_to_its_plan() {
    let mut child = node("Materialize", 5, Vec::new());
    child.parent_relationship = Some("Inner".to_string());
    let root = node("Merge Join", 6, vec![child]);
    let doc = encode_document(&root);
    match &doc {
        Json::Array(items) => assert_eq!(items.len(), 1),
        _ => panic!("the answer is not an array"),
    }
    assert_eq!(plan_from_json(&doc), Ok(node("Merge Join", 6, vec![{
        let mut c = node("Materialize", 5, Vec::new());
        c.parent_relationship = Some("Inner".to_string());
        c
    }])));
    assert_eq!(plan_from_text(&render(&doc)), Ok(root));
}
