use cortex_rmvm::conformance::check::{baseline_failure, compare_expected, observed_expectations};
use cortex_rmvm::conformance::convert::{to_execute_options, to_execute_request};
use cortex_rmvm::conformance::vector::{
    BudgetInput, ConformanceVector, DeterminismExpectations, ExecuteOptionsInput, ExecutionResult,
    ExpectedOutcome, HandleInput, ManifestInput, OpInput, PlanInput, StepInput,
};
use cortex_rmvm::hash::sha256_hex;
use cortex_rmvm::kernel::machine::execute;
use cortex_rmvm::proto::Float64;

fn float(v: f64) -> Float64 {
    Float64 { bits: v.to_bits(), text: v.to_string() }
}

fn vector(handle_availability: &str) -> ConformanceVector {
    ConformanceVector {
        vector_id: "fetch_one".to_string(),
        spec_version: "conformance/v1.0.0".to_string(),
        proto_version: "cortex_rmvm_v3_1".to_string(),
        description: "fetch one handle".to_string(),
        manifest: ManifestInput {
            request_id: "req-1".to_string(),
            handles: vec![HandleInput {
                ref_id: "H0".to_string(),
                type_id: "normative.preference".to_string(),
                availability: handle_availability.to_string(),
                subject: Some("user:vinz".to_string()),
                predicate_label: Some("prefers_beverage".to_string()),
                trust_tier: Some("TIER_3_CONFIRMED".to_string()),
                taint: Vec::new(),
                scope: Some("SCOPE_GLOBAL".to_string()),
                signature_summary: None,
                conflict_group_id: None,
                open_end: Some(true),
            }],
            selectors: Vec::new(),
            context: Vec::new(),
            budget: Some(BudgetInput { max_ops: 128, max_join_depth: 3, max_fanout: 64, max_total_cost: float(256.0) }),
        },
        plan: PlanInput {
            request_id: "req-1".to_string(),
            steps: vec![StepInput { out: "r0".to_string(), op: OpInput::Fetch { handle_ref: "H0".to_string() } }],
            outputs: vec!["r0".to_string()],
        },
        execute_options: ExecuteOptionsInput {
            allow_partial_on_stall: false,
            degraded_mode: false,
            broken_lineage_handles: Vec::new(),
            narrative_templates: Vec::new(),
        },
        expect: ExpectedOutcome {
            status: "OK".to_string(),
            error_code: None,
            semantic_root: None,
            verified_blocks: None,
            stall: None,
        },
        determinism: DeterminismExpectations { assert_response_cpe_sha256: None, assert_semantic_root: true },
    }
}

fn run(v: &ConformanceVector) -> ExecutionResult {
    let req = to_execute_request(v).unwrap();
    let response = execute(req, to_execute_options(&v.execute_options), true);
    let bytes = format!("{:?}", response.status).into_bytes();
    let sha = sha256_hex(&bytes);
    ExecutionResult { response, response_bytes: bytes, response_sha256: sha }
}

#[test]
fn a_synced_vector_passes_against_its_run() {
    for availability in ["READY", "OFFLINE"] {
        let mut v = vector(availability);
        let result = run(&v);
        v.expect = observed_expectations(&result.response);
        v.determinism.assert_response_cpe_sha256 = Some(result.response_sha256.clone());
        assert!(compare_expected(&v, &result).is_empty());
    }
}

#[test]
fn differences_are_reported_in_order() {
    let mut v = vector("READY");
    let result = run(&v);
    v.expect.status = "STALL".to_string();
    v.determinism.assert_response_cpe_sha256 = Some("00".to_string());
    let failures = compare_expected(&v, &result);
    assert_eq!(failures.len(), 2);
    assert_eq!(failures[0], format!("status mismatch: expected STALL, got {}", "OK"));
    assert!(failures[1].starts_with("response sha256 mismatch: expected 00, got "));
}

#[test]
fn baseline_checks() {
    assert_eq!(baseline_failure(&None, "ab").unwrap(), "baseline missing");
    assert_eq!(
        baseline_failure(&Some("cd".to_string()), "ab").unwrap(),
        "baseline hash mismatch: expected cd, got ab"
    );
    assert!(baseline_failure(&Some("ab".to_string()), "ab").is_none());
}
