use cortex_rmvm::kernel::machine::execute;
use cortex_rmvm::kernel::options::{normalize_budget, ExecuteOptions};
use cortex_rmvm::kernel::validate::{cost_terms, CostTerm};
use cortex_rmvm::proto::{
    AssertionType, ContextVar, EdgeType, ErrorCode, ExecuteRequest, ExecutionStatus, Float64,
    HandleAvailability, HandleMeta, HandleRef, Op, OpApplySelector, OpAssert, OpFetch, OpJoin,
    OpProject, OutputSpec, ParamSpec, ParamType, PlanBudget, PublicManifest, RmvmPlan, Scope,
    SelectorRef, SelectorReturn, Step, TemporalBound, TrustTier, Value, ValueKind, ValueRef,
};
use cortex_rmvm::smap::StrMap;

fn float(v: f64) -> Float64 {
    Float64 { bits: v.to_bits(), text: format!("{}", v) }
}

/// Whether the plan's cost stays within the manifest's ceiling, summed in
/// `f64` as the kernel's cost guard does.
fn within_cost(manifest: &PublicManifest, plan: &RmvmPlan) -> bool {
    let budget = normalize_budget(&manifest.budget);
    let mut total = 0.0f64;
    for term in cost_terms(manifest, plan, budget) {
        match term {
            CostTerm::Fixed(c) => total += c as f64,
            CostTerm::Selector { weight_bits, rows } => {
                let w = f64::from_bits(weight_bits);
                let w = if w <= 0.0 { 1.0 } else { w };
                total += w * (rows as f64).powf(1.2);
            }
        }
    }
    let max = match &manifest.budget {
        Some(b) => {
            let m = f64::from_bits(b.max_total_cost_bits);
            if m <= 0.0 {
                512.0
            } else {
                m
            }
        }
        None => 512.0,
    };
    !(total > max)
}

fn run(req: ExecuteRequest) -> cortex_rmvm::proto::ExecuteResponse {
    let ok = within_cost(req.manifest.as_ref().unwrap(), req.plan.as_ref().unwrap());
    execute(req, ExecuteOptions::default(), ok)
}

fn value_s(v: &str) -> Value {
    Value { v: Some(ValueKind::S(v.to_string())) }
}

fn ready_handle(ref_id: &str, trust_tier: TrustTier) -> HandleRef {
    HandleRef {
        ref_id: ref_id.to_string(),
        type_id: "normative.preference".to_string(),
        availability: HandleAvailability::Ready as i32,
        meta: Some(HandleMeta {
            subject: "user:vinz".to_string(),
            predicate_label: "prefers_beverage".to_string(),
            trust_tier: trust_tier as i32,
            taint: Vec::new(),
            temporal: Some(TemporalBound { valid_from: None, valid_to: None, open_end: true }),
            scope: Scope::Global as i32,
        }),
        signature_summary: "test".to_string(),
        conflict_group_id: "conflict:user:vinz:beverage".to_string(),
    }
}

fn base_manifest() -> PublicManifest {
    PublicManifest {
        request_id: "req-1".to_string(),
        handles: vec![ready_handle("H0", TrustTier::Tier3Confirmed)],
        selectors: vec![SelectorRef {
            sel: "S0".to_string(),
            description: "By subject".to_string(),
            params: vec![ParamSpec {
                name: "subject".to_string(),
                param_type: ParamType::ParamString as i32,
                enum_values: Vec::new(),
            }],
            cost_weight_bits: float(1.0).bits,
            return_type: SelectorReturn::ReturnHandleSet as i32,
        }],
        context: vec![ContextVar { name: "scope".to_string(), value: Some(value_s("global")) }],
        budget: Some(PlanBudget {
            max_ops: 128,
            max_join_depth: 3,
            max_fanout: 64,
            max_total_cost_bits: float(256.0).bits,
        }),
    }
}

#[test]
fn stalls_on_non_ready_fetch() {
    let mut manifest = base_manifest();
    let mut h1 = ready_handle("H1", TrustTier::Tier3Confirmed);
    h1.availability = HandleAvailability::Offline as i32;
    manifest.handles.push(h1);

    let plan = RmvmPlan {
        request_id: "req-1".to_string(),
        steps: vec![Step {
            out: "r0".to_string(),
            op: Some(Op::Fetch(OpFetch { handle_ref: "H1".to_string() })),
        }],
        outputs: Vec::new(),
    };
    let resp = run(ExecuteRequest { manifest: Some(manifest), plan: Some(plan) });

    assert_eq!(resp.status, ExecutionStatus::Stall as i32);
    let stall = resp.stall.expect("stall expected");
    assert_eq!(stall.handle_ref, "H1");
}

#[test]
fn rejects_unknown_selector_ref() {
    let manifest = base_manifest();
    let plan = RmvmPlan {
        request_id: "req-1".to_string(),
        steps: vec![Step {
            out: "r0".to_string(),
            op: Some(Op::ApplySelector(OpApplySelector {
                selector_ref: "S404".to_string(),
                params: StrMap::new(),
            })),
        }],
        outputs: vec![OutputSpec { reg: "r0".to_string() }],
    };
    let resp = run(ExecuteRequest { manifest: Some(manifest), plan: Some(plan) });

    assert_eq!(resp.status, ExecutionStatus::Rejected as i32);
    assert_eq!(resp.error.expect("error expected").code, ErrorCode::UnknownSelectorRef as i32);
}

#[test]
fn enforces_trust_gate_for_policy_assertions() {
    let mut manifest = base_manifest();
    manifest.handles = vec![ready_handle("H0", TrustTier::Tier1Asserted)];

    let mut bindings = StrMap::new();
    bindings.insert(
        "subject".to_string(),
        ValueRef { reg: "r0".to_string(), field_path: "meta.subject".to_string() },
    );
    let plan = RmvmPlan {
        request_id: "req-1".to_string(),
        steps: vec![
            Step {
                out: "r0".to_string(),
                op: Some(Op::Fetch(OpFetch { handle_ref: "H0".to_string() })),
            },
            Step {
                out: "r1".to_string(),
                op: Some(Op::AssertOp(OpAssert {
                    assertion_type: AssertionType::AssertDecision as i32,
                    bindings,
                    citations: Vec::new(),
                })),
            },
        ],
        outputs: Vec::new(),
    };
    let resp = run(ExecuteRequest { manifest: Some(manifest), plan: Some(plan) });

    assert_eq!(resp.status, ExecutionStatus::Rejected as i32);
    assert_eq!(resp.error.expect("error expected").code, ErrorCode::UntrustedProvenance as i32);
}

fn proof_plan() -> RmvmPlan {
    let mut bindings = StrMap::new();
    bindings.insert(
        "subject".to_string(),
        ValueRef { reg: "r1".to_string(), field_path: "meta.subject".to_string() },
    );
    RmvmPlan {
        request_id: "req-1".to_string(),
        steps: vec![
            Step {
                out: "r0".to_string(),
                op: Some(Op::Fetch(OpFetch { handle_ref: "H0".to_string() })),
            },
            Step {
                out: "r1".to_string(),
                op: Some(Op::Project(OpProject {
                    in_reg: "r0".to_string(),
                    field_paths: vec!["meta.subject".to_string()],
                })),
            },
            Step {
                out: "r2".to_string(),
                op: Some(Op::AssertOp(OpAssert {
                    assertion_type: AssertionType::AssertWorldFact as i32,
                    bindings,
                    citations: Vec::new(),
                })),
            },
            Step {
                out: "r3".to_string(),
                op: Some(Op::Join(OpJoin {
                    left_reg: "r0".to_string(),
                    right_reg: "r0".to_string(),
                    edge_type: EdgeType::EdgeProvenance as i32,
                })),
            },
        ],
        outputs: vec![OutputSpec { reg: "r2".to_string() }],
    }
}

#[test]
fn proof_roots_are_deterministic() {
    let manifest = base_manifest();
    let plan = proof_plan();

    let req = ExecuteRequest { manifest: Some(manifest.clone()), plan: Some(plan.clone()) };
    let a = run(req);
    let b = run(ExecuteRequest { manifest: Some(manifest), plan: Some(plan) });
    assert_eq!(a.status, ExecutionStatus::Okay as i32);
    assert_eq!(b.status, ExecutionStatus::Okay as i32);
    let pa = a.proof.expect("proof expected");
    let pb = b.proof.expect("proof expected");
    assert_eq!(pa.semantic_root, pb.semantic_root);
    assert_eq!(pa.trace_root, pb.trace_root);
}
