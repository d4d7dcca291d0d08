use cortex_rmvm::conformance::check::{availability_name, error_code_name, status_name};
use cortex_rmvm::hash::{hex_encode, sha256_hex};
use cortex_rmvm::kernel::machine::execute;
use cortex_rmvm::kernel::merkle::build_proof;
use cortex_rmvm::kernel::options::ExecuteOptions;
use cortex_rmvm::proto::{
    AssertionType, CanonicalCitation, Cite, CitationRef, ErrorCode, ExecuteRequest,
    ExecuteResponse, ExecutionStatus, Float64, HandleAvailability, HandleMeta, HandleRef, Op,
    OpAssert, OpFetch, OutputSpec, PlanBudget, PublicManifest, RmvmPlan, Scope, Step,
    TemporalBound, TrustTier, Value, ValueKind, ValueRef, VerifiedAssertion,
};
use cortex_rmvm::kernel::options::normalize_budget;
use cortex_rmvm::kernel::validate::cost_hints_exec;
use cortex_rmvm::proto::{OpApplySelector, OpJoin, SelectorRef, SelectorReturn};
use cortex_rmvm::smap::StrMap;
use cortex_rmvm::wire::canonical_assertion_hash;
use cortex_rmvm::wire::canonical_assertion_bytes;
use sha2::Digest;

fn handle(ref_id: &str) -> HandleRef {
    HandleRef {
        ref_id: ref_id.to_string(),
        type_id: "normative.preference".to_string(),
        availability: HandleAvailability::Ready as i32,
        meta: Some(HandleMeta {
            subject: "user:vinz".to_string(),
            predicate_label: "prefers_beverage".to_string(),
            trust_tier: TrustTier::Tier3Confirmed as i32,
            taint: Vec::new(),
            temporal: Some(TemporalBound { valid_from: None, valid_to: None, open_end: true }),
            scope: Scope::Global as i32,
        }),
        signature_summary: "test".to_string(),
        conflict_group_id: "c".to_string(),
    }
}

fn manifest(max_ops: u32) -> PublicManifest {
    PublicManifest {
        request_id: "req-1".to_string(),
        handles: vec![handle("H0"), handle("H1")],
        selectors: Vec::new(),
        context: Vec::new(),
        budget: Some(PlanBudget {
            max_ops,
            max_join_depth: 3,
            max_fanout: 64,
            max_total_cost_bits: 256.0f64.to_bits(),
        }),
    }
}

fn fetch(out: &str, h: &str) -> Step {
    Step { out: out.to_string(), op: Some(Op::Fetch(OpFetch { handle_ref: h.to_string() })) }
}

fn assert_step(out: &str, cites: &[&str]) -> Step {
    let mut bindings = StrMap::new();
    bindings.insert(
        "subject".to_string(),
        ValueRef { reg: "r0".to_string(), field_path: "meta.subject".to_string() },
    );
    Step {
        out: out.to_string(),
        op: Some(Op::AssertOp(OpAssert {
            assertion_type: AssertionType::AssertUserPreference as i32,
            bindings,
            citations: cites
                .iter()
                .map(|c| CitationRef { cite: Some(Cite::HandleRef(c.to_string())) })
                .collect(),
        })),
    }
}

fn run(plan: RmvmPlan, m: PublicManifest, within_cost: bool) -> ExecuteResponse {
    execute(ExecuteRequest { manifest: Some(m), plan: Some(plan) }, ExecuteOptions::default(), within_cost)
}

fn plan(steps: Vec<Step>, outputs: &[&str]) -> RmvmPlan {
    RmvmPlan {
        request_id: "req-1".to_string(),
        steps,
        outputs: outputs.iter().map(|r| OutputSpec { reg: r.to_string() }).collect(),
    }
}

#[test]
fn citation_order_does_not_change_the_result() {
    let a = run(plan(vec![fetch("r0", "H0"), fetch("r1", "H1"), assert_step("r2", &["H0", "H1"])], &["r2"]), manifest(128), true);
    let b = run(plan(vec![fetch("r0", "H0"), fetch("r1", "H1"), assert_step("r2", &["H1", "H0"])], &["r2"]), manifest(128), true);
    assert_eq!(a.status, ExecutionStatus::Okay as i32);
    assert_eq!(b.status, ExecutionStatus::Okay as i32);
    let ca: Vec<&str> = a.assertions[0].citations.iter().map(|c| c.anchor_digest.as_str()).collect();
    let cb: Vec<&str> = b.assertions[0].citations.iter().map(|c| c.anchor_digest.as_str()).collect();
    assert_eq!(ca, cb);
    let mut sorted = ca.clone();
    sorted.sort();
    assert_eq!(ca, sorted);
    assert_eq!(a.proof.unwrap().semantic_root, b.proof.unwrap().semantic_root);
}

#[test]
fn over_budget_plans_are_rejected() {
    let r = run(plan(vec![fetch("r0", "H0"), fetch("r1", "H1")], &["r1"]), manifest(1), true);
    assert_eq!(r.status, ExecutionStatus::Rejected as i32);
    assert_eq!(r.error.unwrap().code, ErrorCode::GraphTraversalLimit as i32);
    assert!(r.assertions.is_empty());
    let r = run(plan(vec![fetch("r0", "H0")], &["r0"]), manifest(128), false);
    assert_eq!(r.status, ExecutionStatus::Rejected as i32);
    assert_eq!(r.error.unwrap().code, ErrorCode::CostGuardRejected as i32);
}

#[test]
fn unknown_handles_and_registers_are_schema_errors() {
    let r = run(plan(vec![fetch("r0", "H9")], &["r0"]), manifest(128), true);
    assert_eq!(r.error.unwrap().code, ErrorCode::UnknownHandleRef as i32);
    let r = run(plan(vec![fetch("r0", "H0"), fetch("r0", "H1")], &["r0"]), manifest(128), true);
    assert_eq!(r.error.unwrap().code, ErrorCode::SchemaViolation as i32);
    let r = run(plan(vec![fetch("r0", "H0")], &["r5"]), manifest(128), true);
    assert_eq!(r.error.unwrap().code, ErrorCode::SchemaViolation as i32);
}

fn assertion(subject: &str) -> VerifiedAssertion {
    let mut fields = StrMap::new();
    fields.insert("subject".to_string(), Value { v: Some(ValueKind::S(subject.to_string())) });
    VerifiedAssertion {
        assertion_type: AssertionType::AssertWorldFact as i32,
        fields,
        citations: vec![CanonicalCitation { anchor_digest: "handle:H0".to_string() }],
    }
}

fn sha(b: &[u8]) -> Vec<u8> {
    sha2::Sha256::digest(b).to_vec()
}

#[test]
fn inclusion_paths_lead_back_to_the_semantic_root() {
    let assertions = vec![assertion("a"), assertion("b"), assertion("c")];
    let proof = build_proof(&assertions, &vec!["FETCH H0".to_string(), "ASSERT".to_string()]);
    assert_eq!(proof.inclusion.len(), 3);
    assert_eq!(proof.trace_root, sha256_hex(b"FETCH H0\nASSERT"));
    for (i, inc) in proof.inclusion.iter().enumerate() {
        assert_eq!(inc.assertion_index as usize, i);
        let mut cur = sha(&canonical_assertion_bytes(&assertions[i]));
        let mut idx = i;
        for s in &inc.sibling_hashes {
            let sib = (0..s.len() / 2).map(|k| u8::from_str_radix(&s[2 * k..2 * k + 2], 16).unwrap()).collect::<Vec<u8>>();
            cur = if idx % 2 == 0 { sha(&[cur.clone(), sib].concat()) } else { sha(&[sib, cur.clone()].concat()) };
            idx /= 2;
        }
        assert_eq!(hex_encode(&cur), proof.semantic_root);
    }
}

#[test]
fn an_empty_proof_hashes_nothing() {
    let proof = build_proof(&Vec::new(), &Vec::new());
    assert_eq!(proof.semantic_root, "e3b0c44298fc1c149afbf4c8996fb92427ae41e4649b934ca495991b7852b855");
    assert!(proof.inclusion.is_empty());
}

#[test]
fn hex_and_digests() {
    assert_eq!(hex_encode(&[0x00, 0xab, 0x10]), "00ab10");
    assert_eq!(sha256_hex(b"abc"), "ba7816bf8f01cfea414140de5dae2223b00361a396177a9cb410ff61f20015ad");
}

#[test]
fn protocol_names() {
    assert_eq!(status_name(1), "OK");
    assert_eq!(status_name(2), "STALL");
    assert_eq!(status_name(3), "REJECTED");
    assert_eq!(error_code_name(ErrorCode::UnknownSelectorRef as i32), "UNKNOWN_SELECTOR_REF");
    assert_eq!(availability_name(HandleAvailability::Offline as i32), "OFFLINE");
    let f = Float64 { bits: 1.5f64.to_bits(), text: "1.5".to_string() };
    assert_eq!(f.text, "1.5");
}

#[test]
fn cost_guard_rejections_carry_pruning_hints() {
    let steps = vec![fetch("r0", "H0"), fetch("r1", "H0"), fetch("r2", "H0")];
    let r = run(plan(steps, &[]), manifest(128), false);
    assert_eq!(r.status, ExecutionStatus::Rejected as i32);
    let err = r.error.unwrap();
    assert_eq!(err.code, ErrorCode::CostGuardRejected as i32);
    assert_eq!(err.message, "plan rejected by COST_GUARD");
    let hints: Vec<&str> = err.hints.iter().map(|h| h.text.as_str()).collect();
    assert_eq!(hints, vec!["remove steps: the plan's 3 steps exceed max_total_cost"]);
    let ok = run(plan(vec![fetch("r0", "H0"), fetch("r1", "H0")], &[]), manifest(128), true);
    assert_eq!(ok.status, ExecutionStatus::Okay as i32);
}

#[test]
fn expensive_steps_get_their_own_hints() {
    let mut m = manifest(128);
    m.selectors.push(SelectorRef {
        sel: "S0".to_string(),
        description: String::new(),
        params: Vec::new(),
        cost_weight_bits: 1.0f64.to_bits(),
        return_type: SelectorReturn::ReturnHandleSet as i32,
    });
    let steps = vec![
        fetch("r0", "H0"),
        Step {
            out: "r1".to_string(),
            op: Some(Op::ApplySelector(OpApplySelector { selector_ref: "S0".to_string(), params: StrMap::new() })),
        },
        Step {
            out: "r2".to_string(),
            op: Some(Op::Join(OpJoin { left_reg: "r0".to_string(), right_reg: "r1".to_string(), edge_type: 0 })),
        },
    ];
    let p = plan(steps, &[]);
    let hints = cost_hints_exec(&m, &p, normalize_budget(&m.budget));
    let texts: Vec<&str> = hints.iter().map(|h| h.text.as_str()).collect();
    assert_eq!(
        texts,
        vec![
            "narrow or remove APPLY_SELECTOR step r1 (about 2 rows)",
            "remove JOIN step r2 or split the plan",
            "remove steps: the plan's 3 steps exceed max_total_cost",
        ]
    );
}

#[test]
fn canonical_bytes_ignore_citation_order() {
    let mut a = assertion("a");
    a.citations = vec![
        CanonicalCitation { anchor_digest: "handle:H1".to_string() },
        CanonicalCitation { anchor_digest: "handle:H0".to_string() },
        CanonicalCitation { anchor_digest: "handle:H2".to_string() },
    ];
    let mut b = assertion("a");
    b.citations = vec![
        CanonicalCitation { anchor_digest: "handle:H2".to_string() },
        CanonicalCitation { anchor_digest: "handle:H1".to_string() },
        CanonicalCitation { anchor_digest: "handle:H0".to_string() },
    ];
    assert_eq!(canonical_assertion_bytes(&a), canonical_assertion_bytes(&b));
    let h = canonical_assertion_hash(&a);
    assert_eq!(h, canonical_assertion_hash(&b));
    assert_eq!(h.len(), 64);
    assert!(h.chars().all(|c| c.is_ascii_digit() || ('a'..='f').contains(&c)));
    assert_eq!(h, sha256_hex(&canonical_assertion_bytes(&a)));
    assert_eq!(a.citations[0].anchor_digest, "handle:H1");
}

fn pb_delimited(tag: u32, body: &[u8], buf: &mut Vec<u8>) {
    prost::encoding::encode_key(tag, prost::encoding::WireType::LengthDelimited, buf);
    prost::encoding::encode_varint(body.len() as u64, buf);
    buf.extend_from_slice(body);
}

fn pb_value(v: &ValueKind) -> Vec<u8> {
    let mut b = Vec::new();
    match v {
        ValueKind::S(s) => prost::encoding::string::encode(1, s, &mut b),
        ValueKind::B(x) => prost::encoding::bool::encode(2, x, &mut b),
        ValueKind::I64(i) => prost::encoding::int64::encode(3, i, &mut b),
        ValueKind::F64(f) => prost::encoding::double::encode(4, &f64::from_bits(f.bits), &mut b),
        ValueKind::E(s) => prost::encoding::string::encode(6, s, &mut b),
        _ => unreachable!(),
    }
    b
}

#[test]
fn canonical_bytes_match_protobuf_encoding() {
    let kinds = vec![
        ("count".to_string(), ValueKind::I64(-3)),
        ("flag".to_string(), ValueKind::B(true)),
        ("predicate".to_string(), ValueKind::S("prefers_beverage".to_string())),
        ("status".to_string(), ValueKind::E("ACTIVE".to_string())),
        ("weight".to_string(), ValueKind::F64(Float64 { bits: 1.5f64.to_bits(), text: "1.5".to_string() })),
    ];
    let mut fields = StrMap::new();
    for (k, v) in &kinds {
        let v = match v {
            ValueKind::I64(i) => ValueKind::I64(*i),
            ValueKind::B(b) => ValueKind::B(*b),
            ValueKind::S(s) => ValueKind::S(s.clone()),
            ValueKind::E(s) => ValueKind::E(s.clone()),
            ValueKind::F64(f) => ValueKind::F64(Float64 { bits: f.bits, text: f.text.clone() }),
            _ => unreachable!(),
        };
        fields.insert(k.clone(), Value { v: Some(v) });
    }
    let a = VerifiedAssertion {
        assertion_type: AssertionType::AssertWorldFact as i32,
        fields,
        citations: vec![
            CanonicalCitation { anchor_digest: "handle:H1".to_string() },
            CanonicalCitation { anchor_digest: "handle:H0".to_string() },
        ],
    };
    let mut expected = Vec::new();
    prost::encoding::int32::encode(1, &(AssertionType::AssertWorldFact as i32), &mut expected);
    for (k, v) in &kinds {
        let mut entry = Vec::new();
        prost::encoding::string::encode(1, k, &mut entry);
        pb_delimited(2, &pb_value(v), &mut entry);
        pb_delimited(2, &entry, &mut expected);
    }
    for d in ["handle:H0", "handle:H1"] {
        let mut c = Vec::new();
        prost::encoding::string::encode(1, &d.to_string(), &mut c);
        pb_delimited(3, &c, &mut expected);
    }
    assert_eq!(canonical_assertion_bytes(&a), expected);
}
