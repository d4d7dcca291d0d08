use cortex_rmvm::json::{Json, JsonNumber};
use cortex_rmvm::planner::guard::{
    build_plan_only_prompt, deterministic_plan_from_manifest, extract_json_object,
    validate_plan_against_manifest,
};
use cortex_rmvm::planner::parse::{parse_assertion_type, parse_edge_type, plan_from_json};
use cortex_rmvm::proto::{
    AssertionType, EdgeType, Float64, HandleAvailability, HandleMeta, HandleRef, Op, PlanBudget,
    PublicManifest, RmvmPlan, Scope, SelectorRef, SelectorReturn, TrustTier,
};

fn float(v: f64) -> Float64 {
    Float64 { bits: v.to_bits(), text: format!("{}", v) }
}

/// The library's model of a parsed JSON document.
fn to_json(v: &serde_json::Value) -> Json {
    match v {
        serde_json::Value::Null => Json::Null,
        serde_json::Value::Bool(b) => Json::Bool(*b),
        serde_json::Value::Number(n) => Json::Number(JsonNumber {
            int: n.as_i64(),
            float: float(n.as_f64().unwrap_or(0.0)),
        }),
        serde_json::Value::String(s) => Json::Str(s.clone()),
        serde_json::Value::Array(a) => Json::Array(a.iter().map(to_json).collect()),
        serde_json::Value::Object(o) => {
            Json::Object(o.iter().map(|(k, v)| (k.clone(), to_json(v))).collect())
        }
    }
}

fn parse_plan_json(text: &str, fallback: &str) -> Result<RmvmPlan, String> {
    let root: serde_json::Value = serde_json::from_str(text).map_err(|e| e.to_string())?;
    plan_from_json(&to_json(&root), fallback)
}

fn sample_manifest() -> PublicManifest {
    PublicManifest {
        request_id: "req-1".to_string(),
        handles: vec![HandleRef {
            ref_id: "H1".to_string(),
            type_id: "normative.preference".to_string(),
            availability: HandleAvailability::Ready as i32,
            meta: Some(HandleMeta {
                subject: "user:demo".to_string(),
                predicate_label: "prefers_beverage".to_string(),
                trust_tier: TrustTier::Tier3Confirmed as i32,
                taint: vec![],
                temporal: None,
                scope: Scope::Global as i32,
            }),
            signature_summary: "prefers_beverage=tea".to_string(),
            conflict_group_id: "c1".to_string(),
        }],
        selectors: vec![SelectorRef {
            sel: "S0".to_string(),
            description: "selector".to_string(),
            params: vec![],
            cost_weight_bits: float(1.0).bits,
            return_type: SelectorReturn::ReturnHandleSet as i32,
        }],
        context: vec![],
        budget: Some(PlanBudget {
            max_ops: 10,
            max_join_depth: 3,
            max_fanout: 10,
            max_total_cost_bits: float(10.0).bits,
        }),
    }
}

#[test]
fn deterministic_plan_validates() {
    let manifest = sample_manifest();
    let plan = deterministic_plan_from_manifest("req-1", "user:demo", &manifest).unwrap();
    validate_plan_against_manifest(&plan, &manifest).unwrap();
}

#[test]
fn parse_unified_plan_json() {
    let manifest = sample_manifest();
    let json = r#"{
      "requestId": "req-1",
      "steps": [
        {"out":"r0","op":{"kind":"fetch","handleRef":"H1"}},
        {"out":"r1","op":{"kind":"project","inReg":"r0","fieldPaths":["meta.subject"]}},
        {"out":"r2","op":{"kind":"assert","assertionType":"ASSERT_WORLD_FACT","bindings":{"subject":{"reg":"r1","fieldPath":"meta.subject"}}}}
      ],
      "outputs": ["r2"]
    }"#;

    let plan = parse_plan_json(json, "fallback-req").unwrap();
    validate_plan_against_manifest(&plan, &manifest).unwrap();
    assert_eq!(plan.request_id, "req-1");
}

#[test]
fn extract_json_handles_fence() {
    let s = "```json\n{\"requestId\":\"x\",\"steps\":[],\"outputs\":[]}\n```";
    let out = extract_json_object(s).unwrap();
    assert!(out.starts_with('{'));
}

#[test]
fn extract_json_returns_the_outer_braces() {
    let out = extract_json_object("Here you go: {\"a\":{\"b\":1}} thanks").unwrap();
    assert_eq!(out, "{\"a\":{\"b\":1}}");
}

#[test]
fn extract_json_without_object_is_an_error() {
    assert!(extract_json_object("no json here").is_err());
    assert!(extract_json_object("} backwards {").is_err());
}

#[test]
fn plan_json_falls_back_to_the_given_request_id() {
    let plan = parse_plan_json(r#"{"steps":[],"outputs":[]}"#, "fallback-req").unwrap();
    assert_eq!(plan.request_id, "fallback-req");
    assert!(plan.steps.is_empty());
}

#[test]
fn plan_json_reads_proto_style_steps() {
    let json = r#"{"request_id":"r","steps":[{"out":"r0","fetch":{"handle_ref":"H1"}}],"outputs":[{"reg":"r0"}]}"#;
    let plan = parse_plan_json(json, "x").unwrap();
    assert_eq!(plan.request_id, "r");
    assert_eq!(plan.steps.len(), 1);
    match &plan.steps[0].op {
        Some(Op::Fetch(f)) => assert_eq!(f.handle_ref, "H1"),
        _ => panic!("fetch expected"),
    }
    assert_eq!(plan.outputs.len(), 1);
    assert_eq!(plan.outputs[0].reg, "r0");
}

#[test]
fn plan_json_errors() {
    assert!(parse_plan_json("[1,2]", "x").is_err());
    assert!(parse_plan_json(r#"{"steps":{}}"#, "x").is_err());
    assert!(parse_plan_json(r#"{"steps":[{"op":{"kind":"fetch","handleRef":"H1"}}]}"#, "x").is_err());
    assert!(parse_plan_json(r#"{"steps":[{"out":"r0","op":{"kind":"teleport"}}]}"#, "x").is_err());
}

#[test]
fn validation_rejects_unknown_handles_and_registers() {
    let manifest = sample_manifest();
    let unknown = parse_plan_json(
        r#"{"steps":[{"out":"r0","op":{"kind":"fetch","handleRef":"H9"}}],"outputs":["r0"]}"#,
        "x",
    )
    .unwrap();
    assert!(validate_plan_against_manifest(&unknown, &manifest).is_err());
    let undefined = parse_plan_json(
        r#"{"steps":[{"out":"r0","op":{"kind":"project","inReg":"r7","fieldPaths":["meta.subject"]}}],"outputs":["r0"]}"#,
        "x",
    )
    .unwrap();
    assert_eq!(
        validate_plan_against_manifest(&undefined, &manifest).unwrap_err(),
        "invalid plan: input register not defined (r7)"
    );
    let unchecked_output = parse_plan_json(
        r#"{"steps":[{"out":"r0","op":{"kind":"fetch","handleRef":"H1"}}],"outputs":["r7"]}"#,
        "x",
    )
    .unwrap();
    assert!(validate_plan_against_manifest(&unchecked_output, &manifest).is_ok());
}

#[test]
fn names_of_edges_and_assertions() {
    assert_eq!(parse_edge_type("EDGE_PROVENANCE").unwrap(), EdgeType::EdgeProvenance as i32);
    assert!(parse_edge_type("EDGE_NOPE").is_err());
    assert_eq!(
        parse_assertion_type("ASSERT_DECISION").unwrap(),
        AssertionType::AssertDecision as i32
    );
    assert!(parse_assertion_type("ASSERT_NOPE").is_err());
}

#[test]
fn prompt_names_the_message_and_manifest() {
    let prompt = build_plan_only_prompt("what do I drink?", &sample_manifest());
    assert!(prompt.contains("what do I drink?"));
    assert!(prompt.contains("H1"));
}

fn describe(op: &Op) -> String {
    match op {
        Op::Fetch(f) => format!("fetch {}", f.handle_ref),
        Op::Resolve(r) => format!("resolve {} {}", r.in_reg, r.policy_id),
        Op::Join(j) => format!("join {} {} {}", j.left_reg, j.right_reg, j.edge_type),
        Op::Project(p) => format!("project {} {:?}", p.in_reg, p.field_paths),
        Op::AssertOp(a) => {
            let mut out = format!("assert {}", a.assertion_type);
            for i in 0..a.bindings.len() {
                let b = a.bindings.value_at(i);
                out.push_str(&format!(" {}={}.{}", a.bindings.key_at(i), b.reg, b.field_path));
            }
            out.push_str(&format!(" cites={}", a.citations.len()));
            out
        }
        _ => "other".to_string(),
    }
}

fn op_of(text: &str) -> Result<Op, String> {
    let v: serde_json::Value = serde_json::from_str(text).unwrap();
    cortex_rmvm::planner::parse::parse_unified_op(&to_json(&v))
}

fn proto_op_of(text: &str) -> Result<Op, String> {
    let v: serde_json::Value = serde_json::from_str(text).unwrap();
    match to_json(&v) {
        Json::Object(o) => cortex_rmvm::planner::parse::parse_proto_style_op(&o),
        _ => panic!("not an object"),
    }
}

#[test]
fn camel_and_snake_keys_read_alike() {
    let pairs = [
        (r#"{"kind":"fetch","handleRef":"H0"}"#, r#"{"kind":"fetch","handle_ref":"H0"}"#),
        (r#"{"kind":"join","leftReg":"a","rightReg":"b","edgeType":"EDGE_PROVENANCE"}"#,
         r#"{"kind":"join","left_reg":"a","right_reg":"b","edge_type":"EDGE_PROVENANCE"}"#),
        (r#"{"kind":"project","inReg":"r0","fieldPaths":["meta.subject"]}"#,
         r#"{"kind":"project","in_reg":"r0","field_paths":["meta.subject"]}"#),
        (r#"{"kind":"assert","assertionType":"ASSERT_WORLD_FACT","bindings":{"s":{"reg":"r0","fieldPath":"meta.subject"}},"citations":[{"handleRef":"H0"}]}"#,
         r#"{"kind":"assert","assertion_type":"ASSERT_WORLD_FACT","bindings":{"s":{"reg":"r0","field_path":"meta.subject"}},"citations":[{"handle_ref":"H0"}]}"#),
        (r#"{"kind":"join","leftReg":"a"}"#, r#"{"kind":"join","left_reg":"a"}"#),
    ];
    for (camel, snake) in pairs {
        let a = op_of(camel);
        let b = op_of(snake);
        assert_eq!(a.is_ok(), b.is_ok());
        match (a, b) {
            (Ok(x), Ok(y)) => assert_eq!(describe(&x), describe(&y)),
            (Err(x), Err(y)) => assert_eq!(x, y),
            _ => unreachable!(),
        }
    }
    assert!(op_of(r#"{"kind":"sort","inReg":"r0"}"#).is_err());
}

#[test]
fn protocol_and_kind_shapes_agree() {
    let pairs = [
        (r#"{"fetch":{"handle_ref":"H0"}}"#, r#"{"kind":"fetch","handle_ref":"H0"}"#),
        (r#"{"resolve":{"in_reg":"r0","policy_id":"p"}}"#, r#"{"kind":"resolve","in_reg":"r0","policy_id":"p"}"#),
        (r#"{"assert_op":{"assertion_type":"ASSERT_DECISION","bindings":{},"citations":[]}}"#,
         r#"{"kind":"assert","assertion_type":"ASSERT_DECISION","bindings":{},"citations":[]}"#),
        (r#"{"join":{"left_reg":"a","right_reg":"b","edge_type":"NOPE"}}"#,
         r#"{"kind":"join","left_reg":"a","right_reg":"b","edge_type":"NOPE"}"#),
    ];
    for (proto, unified) in pairs {
        let a = proto_op_of(proto);
        let b = op_of(unified);
        assert_eq!(a.is_ok(), b.is_ok());
        if let (Ok(x), Ok(y)) = (a, b) {
            assert_eq!(describe(&x), describe(&y));
        }
    }
}
