//! The golden execute request: one ready handle, one selector, and a plan
//! that fetches the handle, projects its subject and asserts it.
use vstd::prelude::*;

use crate::proto::{
    ContextVar, ContextVarView, ExecuteRequest, ExecuteRequestView, HandleMeta, HandleMetaView,
    HandleRef, HandleRefView, OutputSpec, ParamSpec, ParamSpecView, PlanBudget, PlanBudgetView,
    PublicManifest, PublicManifestView, RmvmPlan, SelectorRef, SelectorRefView, TemporalBound,
    TemporalBoundView, Value, ValueKind, ValueKindView, ValueView,
};
use crate::planner::guard::{assert_step, handle_plan, project_step};
use crate::text::owned;

verus! {

/// The golden manifest.
pub open spec fn golden_manifest() -> PublicManifestView {
    PublicManifestView {
        request_id: "golden-req-001"@,
        handles: seq![
            HandleRefView {
                ref_id: "H0"@,
                type_id: "normative.preference"@,
                availability: 1,
                meta: Some(
                    HandleMetaView {
                        subject: "user:vinz"@,
                        predicate_label: "prefers_beverage"@,
                        trust_tier: 4,
                        taint: Seq::empty(),
                        temporal: Some(
                            TemporalBoundView { valid_from: None, valid_to: None, open_end: true },
                        ),
                        scope: 1,
                    },
                ),
                signature_summary: "User stated a hot drink preference"@,
                conflict_group_id: "conflict:prefers_beverage:user:vinz:global"@,
            },
        ],
        selectors: seq![
            SelectorRefView {
                sel: "S0"@,
                description: "Find preferences by subject"@,
                params: seq![
                    ParamSpecView { name: "subject"@, param_type: 1, enum_values: Seq::empty() },
                ],
                cost_weight_bits: 0x3FF4_0000_0000_0000u64,
                return_type: 2,
            },
        ],
        context: seq![
            ContextVarView {
                name: "scope"@,
                value: Some(ValueView { v: Some(ValueKindView::E("SCOPE_GLOBAL"@)) }),
            },
        ],
        budget: Some(
            PlanBudgetView {
                max_ops: 128,
                max_join_depth: 3,
                max_fanout: 64,
                max_total_cost_bits: 0x4070_0000_0000_0000u64,
            },
        ),
    }
}

/// The golden request: the golden manifest and the fetch, project, assert
/// plan over its handle, both under request id `golden-req-001`.
pub open spec fn golden_request_spec() -> ExecuteRequestView {
    ExecuteRequestView {
        manifest: Some(golden_manifest()),
        plan: Some(handle_plan("golden-req-001"@, "H0"@)),
    }
}

/// The golden request (see [`golden_request_spec`]); the selector weighs
/// 1.25 and the budget allows a total cost of 256.
pub fn golden_execute_request() -> (r: ExecuteRequest)
    ensures
        r@ == golden_request_spec(),
{
    let taint: Vec<i32> = Vec::new();
    let handle = HandleRef {
        ref_id: owned("H0"),
        type_id: owned("normative.preference"),
        availability: 1,
        meta: Some(
            HandleMeta {
                subject: owned("user:vinz"),
                predicate_label: owned("prefers_beverage"),
                trust_tier: 4,
                taint,
                temporal: Some(TemporalBound { valid_from: None, valid_to: None, open_end: true }),
                scope: 1,
            },
        ),
        signature_summary: owned("User stated a hot drink preference"),
        conflict_group_id: owned("conflict:prefers_beverage:user:vinz:global"),
    };
    let mut handles: Vec<HandleRef> = Vec::new();
    handles.push(handle);
    let mut params: Vec<ParamSpec> = Vec::new();
    params.push(ParamSpec { name: owned("subject"), param_type: 1, enum_values: Vec::new() });
    let mut selectors: Vec<SelectorRef> = Vec::new();
    selectors.push(
        SelectorRef {
            sel: owned("S0"),
            description: owned("Find preferences by subject"),
            params,
            cost_weight_bits: 0x3FF4_0000_0000_0000u64,
            return_type: 2,
        },
    );
    let mut context: Vec<ContextVar> = Vec::new();
    context.push(
        ContextVar {
            name: owned("scope"),
            value: Some(Value { v: Some(ValueKind::E(owned("SCOPE_GLOBAL"))) }),
        },
    );
    let manifest = PublicManifest {
        request_id: owned("golden-req-001"),
        handles,
        selectors,
        context,
        budget: Some(
            PlanBudget {
                max_ops: 128,
                max_join_depth: 3,
                max_fanout: 64,
                max_total_cost_bits: 0x4070_0000_0000_0000u64,
            },
        ),
    };
    let mut steps: Vec<crate::proto::Step> = Vec::new();
    steps.push(
        crate::proto::Step {
            out: owned("r0"),
            op: Some(crate::proto::Op::Fetch(crate::proto::OpFetch { handle_ref: owned("H0") })),
        },
    );
    steps.push(project_step("meta.subject"));
    steps.push(assert_step("r1", "meta.subject"));
    let mut outputs: Vec<OutputSpec> = Vec::new();
    outputs.push(OutputSpec { reg: owned("r2") });
    let plan = RmvmPlan { request_id: owned("golden-req-001"), steps, outputs };
    let r = ExecuteRequest { manifest: Some(manifest), plan: Some(plan) };
    proof {
        assert(r@.manifest->Some_0.handles[0].meta->Some_0.taint =~= Seq::<i32>::empty());
        assert(r@.manifest->Some_0.selectors[0].params[0].enum_values =~= Seq::<Seq<char>>::empty());
        let m = r@.manifest->Some_0;
        let g = golden_manifest();
        assert(m.handles[0].meta =~= g.handles[0].meta);
        assert(m.handles[0] =~= g.handles[0]);
        assert(m.handles =~= g.handles);
        assert(m.selectors[0].params =~= g.selectors[0].params);
        assert(m.selectors =~= g.selectors);
        assert(m.context =~= g.context);
        assert(m =~= g);
        assert(r@.plan->Some_0 =~= handle_plan("golden-req-001"@, "H0"@));
    }
    r
}

} // verus!
