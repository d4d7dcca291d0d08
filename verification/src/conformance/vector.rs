//! Conformance vectors: a manifest, a plan and options written with names
//! instead of wire numbers, and the outcome they are expected to produce.
use vstd::prelude::*;

use crate::proto::{ExecuteResponse, Float64};

verus! {

/// The conformance suite version vectors are written for.
pub const CONFORMANCE_SPEC_VERSION: &'static str = "conformance/v1.0.0";

/// The protocol version vectors are written for.
pub const CONFORMANCE_PROTO_VERSION: &'static str = "cortex_rmvm_v3_1";

/// A handle of a vector's manifest; metadata fields are optional.
pub struct HandleInput {
    pub ref_id: String,
    pub type_id: String,
    pub availability: String,
    pub subject: Option<String>,
    pub predicate_label: Option<String>,
    pub trust_tier: Option<String>,
    pub taint: Vec<String>,
    pub scope: Option<String>,
    pub signature_summary: Option<String>,
    pub conflict_group_id: Option<String>,
    pub open_end: Option<bool>,
}

/// A selector parameter of a vector.
pub struct ParamInput {
    pub name: String,
    pub param_type: String,
    pub enum_values: Vec<String>,
}

/// A selector of a vector's manifest.
pub struct SelectorInput {
    pub sel: String,
    pub description: String,
    pub params: Vec<ParamInput>,
    pub cost_weight: Float64,
    pub return_type: String,
}

/// A scalar value of a vector.
pub enum ScalarValueInput {
    S(String),
    B(bool),
    I64(i64),
    F64(Float64),
    E(String),
}

/// A context variable of a vector's manifest.
pub struct ContextVarInput {
    pub name: String,
    pub value: ScalarValueInput,
}

/// The budget of a vector's manifest.
pub struct BudgetInput {
    pub max_ops: u32,
    pub max_join_depth: u32,
    pub max_fanout: u32,
    pub max_total_cost: Float64,
}

/// The manifest of a vector.
pub struct ManifestInput {
    pub request_id: String,
    pub handles: Vec<HandleInput>,
    pub selectors: Vec<SelectorInput>,
    pub context: Vec<ContextVarInput>,
    pub budget: Option<BudgetInput>,
}

/// An ASSERT binding of a vector.
pub struct BindingInput {
    pub reg: String,
    pub field_path: String,
}

/// A citation of a vector.
pub enum CitationInput {
    HandleRef(String),
    AnchorRef(String),
}

/// An operation of a vector; maps are given in key order.
pub enum OpInput {
    Fetch { handle_ref: String },
    ApplySelector { selector_ref: String, params: Vec<(String, ScalarValueInput)> },
    Resolve { in_reg: String, policy_id: String },
    Filter { in_reg: String, filter_ref: String, params: Vec<(String, ScalarValueInput)> },
    Join { left_reg: String, right_reg: String, edge_type: String },
    Project { in_reg: String, field_paths: Vec<String> },
    Assert {
        assertion_type: String,
        bindings: Vec<(String, BindingInput)>,
        citations: Vec<CitationInput>,
    },
}

/// A step of a vector's plan.
pub struct StepInput {
    pub out: String,
    pub op: OpInput,
}

/// The plan of a vector.
pub struct PlanInput {
    pub request_id: String,
    pub steps: Vec<StepInput>,
    pub outputs: Vec<String>,
}

/// The execution options of a vector.
pub struct ExecuteOptionsInput {
    pub allow_partial_on_stall: bool,
    pub degraded_mode: bool,
    pub broken_lineage_handles: Vec<String>,
    pub narrative_templates: Vec<String>,
}

/// The stall a vector expects.
pub struct ExpectedStall {
    pub handle_ref: String,
    pub availability: String,
    pub retrieval_ticket_present: bool,
}

/// The outcome a vector expects; absent parts are not compared.
pub struct ExpectedOutcome {
    pub status: String,
    pub error_code: Option<String>,
    pub semantic_root: Option<String>,
    pub verified_blocks: Option<Vec<String>>,
    pub stall: Option<ExpectedStall>,
}

/// What a vector asks of determinism.
pub struct DeterminismExpectations {
    pub assert_response_cpe_sha256: Option<String>,
    pub assert_semantic_root: bool,
}

/// A conformance vector.
pub struct ConformanceVector {
    pub vector_id: String,
    pub spec_version: String,
    pub proto_version: String,
    pub description: String,
    pub manifest: ManifestInput,
    pub plan: PlanInput,
    pub execute_options: ExecuteOptionsInput,
    pub expect: ExpectedOutcome,
    pub determinism: DeterminismExpectations,
}

/// The result of running a vector: the response, its encoding and the hex
/// SHA-256 of the encoding.
pub struct ExecutionResult {
    pub response: ExecuteResponse,
    pub response_bytes: Vec<u8>,
    pub response_sha256: String,
}

/// The report on one vector.
pub struct VectorReport {
    pub vector_id: String,
    pub status: String,
    pub success: bool,
    pub failures: Vec<String>,
    pub response_sha256: String,
    pub response_len: usize,
    pub semantic_root: Option<String>,
}

/// The default of `assert_semantic_root` when a vector's determinism
/// section leaves it out.
pub fn true_default() -> (b: bool)
    ensures
        b,
{
    true
}

} // verus!
