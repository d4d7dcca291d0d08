//! Running a plan: static validation, the steps in order, the proof and the
//! rendered output, and the response that reports the outcome.
use vstd::prelude::*;

use crate::kernel::asserts::{assert_spec, exec_assert};
use crate::kernel::merkle::{build_proof, proof_spec};
use crate::kernel::ops::{apply_selector_spec, exec_apply_selector, exec_fetch, fetch_spec};
use crate::kernel::ops2::{
    exec_filter, exec_join, exec_project, exec_resolve, filter_op_spec, join_spec,
    lemma_reg_lookup_in, project_spec, resolve_spec,
};
use crate::kernel::options::{
    normalize_budget, normalize_budget_spec, ExecuteOptions, NormalizedBudget, OptionsView,
};
use crate::kernel::regs::{
    fail, reg_lookup, regs_view, rejected, ExecStop, RegValue, RegView, StopView,
};
use crate::kernel::render::{render_output, render_output_spec};
use crate::kernel::validate::{check_steps, cost_hints, validate_static, validate_static_spec};
use crate::proto::{
    error_code_number, AssertionMerkleProofView, ErrorCode, ExecuteRequest, ExecuteRequestView,
    ExecuteResponse, ExecuteResponseView, ExecutionError, ExecutionErrorView, HintView, Op, OpView,
    PublicManifest, PublicManifestView, RenderedOutputView, RmvmPlan, StepView, VerifiedAssertion,
    VerifiedAssertionView,
};
use crate::text::{dec_nat, push_str, push_u64, str_eq, str_is_empty};

verus! {

/// The state of a run after some steps: the registers in definition order,
/// the assertions made and the trace tokens.
pub struct RunState {
    pub regs: Seq<(Seq<char>, RegView)>,
    pub asserts: Seq<VerifiedAssertionView>,
    pub trace: Seq<Seq<char>>,
}

/// The trace name of an operation.
pub open spec fn op_name(op: OpView) -> Seq<char> {
    match op {
        OpView::Fetch(_) => "FETCH"@,
        OpView::ApplySelector(_) => "APPLY_SELECTOR"@,
        OpView::Resolve(_) => "RESOLVE"@,
        OpView::Filter(_) => "FILTER"@,
        OpView::Join(_) => "JOIN"@,
        OpView::Project(_) => "PROJECT"@,
        OpView::AssertOp(_) => "ASSERT"@,
    }
}

/// The trace token of step `idx`: `idx:out:NAME`.
pub open spec fn trace_token(idx: nat, out: Seq<char>, name: Seq<char>) -> Seq<char> {
    dec_nat(idx) + ":"@ + out + ":"@ + name
}

/// The register an operation defines, and the assertion it makes if any.
pub open spec fn step_result(
    op: OpView,
    m: PublicManifestView,
    regs: Seq<(Seq<char>, RegView)>,
    opts: OptionsView,
    budget: NormalizedBudget,
) -> Result<(RegView, Option<VerifiedAssertionView>), StopView> {
    match op {
        OpView::Fetch(f) => match fetch_spec(f, m.handles, opts) {
            Ok(r) => Ok((r, None)),
            Err(e) => Err(e),
        },
        OpView::ApplySelector(a) => match apply_selector_spec(a, m, budget) {
            Ok(r) => Ok((r, None)),
            Err(e) => Err(e),
        },
        OpView::Resolve(r) => match resolve_spec(r, regs) {
            Ok(r) => Ok((r, None)),
            Err(e) => Err(e),
        },
        OpView::Filter(f) => match filter_op_spec(f, regs, budget) {
            Ok(r) => Ok((r, None)),
            Err(e) => Err(e),
        },
        OpView::Join(j) => match join_spec(j, regs, budget) {
            Ok(r) => Ok((r, None)),
            Err(e) => Err(e),
        },
        OpView::Project(p) => match project_spec(p, regs) {
            Ok(r) => Ok((r, None)),
            Err(e) => Err(e),
        },
        OpView::AssertOp(a) => match assert_spec(a, regs, opts) {
            Ok((r, asr)) => Ok((r, Some(asr))),
            Err(e) => Err(e),
        },
    }
}

/// The steps run in order; the first failing step stops the run.
pub open spec fn run_steps(
    steps: Seq<StepView>,
    m: PublicManifestView,
    opts: OptionsView,
    budget: NormalizedBudget,
) -> Result<RunState, StopView>
    decreases steps.len(),
{
    if steps.len() == 0 {
        Ok(RunState { regs: Seq::empty(), asserts: Seq::empty(), trace: Seq::empty() })
    } else {
        match run_steps(steps.drop_last(), m, opts, budget) {
            Err(e) => Err(e),
            Ok(st) => {
                let step = steps.last();
                match step.op {
                    None => Err(rejected(ErrorCode::SchemaViolation, "step missing op")),
                    Some(op) => match step_result(op, m, st.regs, opts, budget) {
                        Err(e) => Err(e),
                        Ok((r, a)) => Ok(
                            RunState {
                                regs: st.regs.push((step.out, r)),
                                asserts: match a {
                                    Some(x) => st.asserts.push(x),
                                    None => st.asserts,
                                },
                                trace: st.trace.push(
                                    trace_token((steps.len() - 1) as nat, step.out, op_name(op)),
                                ),
                            },
                        ),
                    },
                }
            },
        }
    }
}

/// What a run produces: its assertions, their proof and the rendered output.
pub open spec fn execute_outcome(req: ExecuteRequestView, opts: OptionsView, within_cost: bool) -> Result<
    (Seq<VerifiedAssertionView>, AssertionMerkleProofView, RenderedOutputView),
    StopView,
> {
    match req.manifest {
        None => Err(rejected(ErrorCode::SchemaViolation, "missing manifest")),
        Some(m) => match req.plan {
            None => Err(rejected(ErrorCode::SchemaViolation, "missing plan")),
            Some(p) => if m.request_id.len() > 0 && p.request_id.len() > 0 && m.request_id
                != p.request_id {
                Err(rejected(ErrorCode::SchemaViolation, "manifest and plan request_id mismatch"))
            } else {
                let budget = normalize_budget_spec(m.budget);
                match validate_static_spec(m, p, budget, within_cost) {
                    Err(e) => Err(e),
                    Ok(_) => match run_steps(p.steps, m, opts, budget) {
                        Err(e) => Err(e),
                        Ok(st) => match render_output_spec(p.outputs, st.regs, st.asserts, opts) {
                            Err(e) => Err(e),
                            Ok(r) => Ok((st.asserts, proof_spec(st.asserts, st.trace), r)),
                        },
                    },
                }
            },
        },
    }
}

/// Whether the cost guard is what rejects a request: manifest and plan are
/// present with consistent request ids, the plan is within `max_ops` and
/// every step passes its static check, but its cost is over the ceiling.
pub open spec fn cost_guard_rejects(req: ExecuteRequestView, within_cost: bool) -> bool {
    &&& req.manifest is Some
    &&& req.plan is Some
    &&& !(req.manifest->Some_0.request_id.len() > 0 && req.plan->Some_0.request_id.len() > 0
        && req.manifest->Some_0.request_id != req.plan->Some_0.request_id)
    &&& (req.plan->Some_0.steps.len() as u32) <= normalize_budget_spec(req.manifest->Some_0.budget).max_ops
    &&& check_steps(
        req.plan->Some_0.steps,
        req.manifest->Some_0,
        normalize_budget_spec(req.manifest->Some_0.budget),
    ) is Ok
    &&& !within_cost
}

/// The response reporting a stopped run: `STALL` with the stall, or
/// `REJECTED` with the error code and message.
pub open spec fn stop_response(e: StopView) -> ExecuteResponseView {
    match e {
        StopView::Stall(s) => ExecuteResponseView {
            status: 2,
            assertions: Seq::empty(),
            proof: None,
            rendered: None,
            stall: Some(s),
            error: None,
        },
        StopView::Failure(code, message, hints) => ExecuteResponseView {
            status: 3,
            assertions: Seq::empty(),
            proof: None,
            rendered: None,
            stall: None,
            error: Some(
                ExecutionErrorView {
                    code: error_code_number(code),
                    message,
                    hints,
                },
            ),
        },
    }
}

/// The response of `execute`: `OK` with the assertions, proof and rendered
/// output, or the response of the stop.
pub open spec fn execute_spec(req: ExecuteRequestView, opts: OptionsView, within_cost: bool) -> ExecuteResponseView {
    match execute_outcome(req, opts, within_cost) {
        Ok((a, p, r)) => ExecuteResponseView {
            status: 1,
            assertions: a,
            proof: Some(p),
            rendered: Some(r),
            stall: None,
            error: None,
        },
        Err(e) => stop_response(e),
    }
}

/// Once a prefix of the steps stops, the run stops the same way.
proof fn lemma_run_prefix(
    steps: Seq<StepView>,
    k: int,
    m: PublicManifestView,
    opts: OptionsView,
    budget: NormalizedBudget,
)
    requires
        0 <= k <= steps.len(),
        run_steps(steps.take(k), m, opts, budget) is Err,
    ensures
        run_steps(steps, m, opts, budget) == run_steps(steps.take(k), m, opts, budget),
    decreases steps.len(),
{
    if k == steps.len() {
        assert(steps.take(k) =~= steps);
    } else {
        assert(steps.drop_last().take(k) =~= steps.take(k));
        lemma_run_prefix(steps.drop_last(), k, m, opts, budget);
    }
}

/// A register found by name has a join depth within a bound that all have.
proof fn lemma_lookup_depth(regs: Seq<(String, RegValue)>, name: Seq<char>, b: nat)
    requires
        forall|j: int| 0 <= j < regs.len() ==> (#[trigger] regs[j]).1.join_depth <= b,
    ensures
        reg_lookup(regs_view(regs), name) matches Some(v) ==> v.join_depth <= b,
{
    lemma_reg_lookup_in(regs, name);
    if reg_lookup(regs_view(regs), name) is Some {
        let v = reg_lookup(regs_view(regs), name)->Some_0;
        let j = choose|j: int| 0 <= j < regs.len() && (#[trigger] regs[j]).1@ == v;
        assert(regs[j].1.join_depth <= b);
    }
}

/// Runs the steps of a validated plan.
fn run_plan(
    manifest: &PublicManifest,
    plan: &RmvmPlan,
    opts: &ExecuteOptions,
    budget: NormalizedBudget,
) -> (r: Result<(Vec<(String, RegValue)>, Vec<VerifiedAssertion>, Vec<String>), ExecStop>)
    ensures
        match r {
            Ok((regs, asserts, trace)) => run_steps(plan@.steps, manifest@, opts@, budget) == Ok::<
                RunState,
                StopView,
            >(
                RunState {
                    regs: regs_view(regs@),
                    asserts: asserts@.map_values(|a: VerifiedAssertion| a@),
                    trace: trace@.map_values(|s: String| s@),
                },
            ),
            Err(e) => run_steps(plan@.steps, manifest@, opts@, budget) == Err::<RunState, StopView>(
                e@,
            ),
        },
{
    let ghost sv = plan@.steps;
    let ghost mv = manifest@;
    let mut regs: Vec<(String, RegValue)> = Vec::new();
    let mut assertions: Vec<VerifiedAssertion> = Vec::new();
    let mut trace: Vec<String> = Vec::new();
    let mut i: usize = 0;
    proof {
        assert(sv.take(0) =~= Seq::<StepView>::empty());
        assert(regs_view(regs@) =~= Seq::<(Seq<char>, RegView)>::empty());
        assert(assertions@.map_values(|a: VerifiedAssertion| a@) =~= Seq::<
            VerifiedAssertionView,
        >::empty());
        assert(trace@.map_values(|s: String| s@) =~= Seq::<Seq<char>>::empty());
    }
    while i < plan.steps.len()
        invariant
            i <= plan.steps.len(),
            sv == plan@.steps,
            sv.len() == plan.steps.len(),
            mv == manifest@,
            forall|j: int| 0 <= j < regs@.len() ==> (#[trigger] regs@[j]).1.join_depth <= i,
            run_steps(sv.take(i as int), mv, opts@, budget) == Ok::<RunState, StopView>(
                RunState {
                    regs: regs_view(regs@),
                    asserts: assertions@.map_values(|a: VerifiedAssertion| a@),
                    trace: trace@.map_values(|s: String| s@),
                },
            ),
        decreases plan.steps.len() - i,
    {
        let step = &plan.steps[i];
        let ghost rv = regs_view(regs@);
        let ghost av = assertions@.map_values(|a: VerifiedAssertion| a@);
        proof {
            assert(sv.take(i + 1).drop_last() =~= sv.take(i as int));
            assert(sv.take(i + 1).last() == step@);
        }
        let op = match &step.op {
            Some(op) => op,
            None => {
                proof {
                    lemma_run_prefix(sv, i + 1, mv, opts@, budget);
                }
                return Err(fail(ErrorCode::SchemaViolation, "step missing op"));
            },
        };
        let ghost expected = step_result(op@, mv, rv, opts@, budget);
        let mut made: Option<VerifiedAssertion> = None;
        let (result, name): (Result<RegValue, ExecStop>, &str) = match op {
            Op::Fetch(f) => (exec_fetch(f, manifest, opts), "FETCH"),
            Op::ApplySelector(a) => (exec_apply_selector(a, manifest, budget), "APPLY_SELECTOR"),
            Op::Resolve(r) => {
                proof {
                    lemma_lookup_depth(regs@, r@.in_reg, i as nat);
                }
                (exec_resolve(r, &regs), "RESOLVE")
            },
            Op::Filter(f) => {
                proof {
                    lemma_lookup_depth(regs@, f@.in_reg, i as nat);
                }
                (exec_filter(f, &regs, budget), "FILTER")
            },
            Op::Join(j) => (exec_join(j, &regs, budget, i as u64), "JOIN"),
            Op::Project(p) => {
                proof {
                    lemma_lookup_depth(regs@, p@.in_reg, i as nat);
                }
                (exec_project(p, &regs), "PROJECT")
            },
            Op::AssertOp(a) => {
                match exec_assert(a, &regs, opts) {
                    Ok((reg, asr)) => {
                        made = Some(asr);
                        (Ok(reg), "ASSERT")
                    },
                    Err(e) => (Err(e), "ASSERT"),
                }
            },
        };
        let result = match result {
            Ok(v) => v,
            Err(e) => {
                proof {
                    assert(expected == Err::<(RegView, Option<VerifiedAssertionView>), StopView>(
                        e@,
                    ));
                    lemma_run_prefix(sv, i + 1, mv, opts@, budget);
                }
                return Err(e);
            },
        };
        proof {
            assert(name@ == op_name(op@));
            assert(expected == Ok::<(RegView, Option<VerifiedAssertionView>), StopView>(
                (
                    result@,
                    match made {
                        Some(x) => Some(x@),
                        None => None,
                    },
                ),
            ));
            assert(result.join_depth <= i + 1);
        }
        let mut token = String::new();
        push_u64(&mut token, i as u64);
        push_str(&mut token, ":");
        push_str(&mut token, step.out.as_str());
        push_str(&mut token, ":");
        push_str(&mut token, name);
        let ghost before_trace = trace@;
        let ghost before_regs = regs@;
        let ghost before_asserts = assertions@;
        let ghost made_v: Option<VerifiedAssertionView> = if made is Some {
            Some(made->Some_0@)
        } else {
            None
        };
        trace.push(token);
        regs.push((step.out.clone(), result));
        match made {
            Some(asr) => {
                assertions.push(asr);
            },
            None => {},
        }
        proof {
            assert(token@ =~= trace_token(i as nat, step.out@, op_name(op@)));
            assert(trace@.map_values(|s: String| s@) =~= before_trace.map_values(|s: String| s@).push(
                token@,
            ));
            assert(regs_view(regs@) =~= regs_view(before_regs).push((step.out@, result@)));
            match made_v {
                Some(x) => {
                    assert(assertions@.map_values(|a: VerifiedAssertion| a@) =~= before_asserts.map_values(
                        |a: VerifiedAssertion| a@,
                    ).push(x));
                },
                None => {
                    assert(assertions@ == before_asserts);
                },
            }
            assert forall|j: int| 0 <= j < regs@.len() implies (#[trigger] regs@[j]).1.join_depth
                <= i + 1 by {
                if j < before_regs.len() {
                    assert(regs@[j] == before_regs[j]);
                }
            };
        }
        i += 1;
    }
    proof {
        assert(sv.take(sv.len() as int) =~= sv);
    }
    Ok((regs, assertions, trace))
}

/// The response reporting a stop.
fn stop_to_response(e: ExecStop) -> (r: ExecuteResponse)
    ensures
        r@ == stop_response(e@),
{
    match e {
        ExecStop::Stall(s) => {
            let r = ExecuteResponse {
                status: 2,
                assertions: Vec::new(),
                proof: None,
                rendered: None,
                stall: Some(s),
                error: None,
            };
            assert(r@ =~= stop_response(e@));
            r
        },
        ExecStop::Failure(code, message, hints) => {
            let r = ExecuteResponse {
                status: 3,
                assertions: Vec::new(),
                proof: None,
                rendered: None,
                stall: None,
                error: Some(ExecutionError { code: code.number(), message, hints }),
            };
            proof {
                assert(r@ =~= stop_response(e@));
            }
            r
        },
    }
}

fn execute_inner(req: ExecuteRequest, opts: &ExecuteOptions, within_cost: bool) -> (r: Result<
    (Vec<VerifiedAssertion>, crate::proto::AssertionMerkleProof, crate::proto::RenderedOutput),
    ExecStop,
>)
    ensures
        match r {
            Ok((a, p, o)) => execute_outcome(req@, opts@, within_cost) == Ok::<
                (Seq<VerifiedAssertionView>, AssertionMerkleProofView, RenderedOutputView),
                StopView,
            >((a@.map_values(|x: VerifiedAssertion| x@), p@, o@)),
            Err(e) => execute_outcome(req@, opts@, within_cost) == Err::<
                (Seq<VerifiedAssertionView>, AssertionMerkleProofView, RenderedOutputView),
                StopView,
            >(e@),
        },
{
    let manifest = match req.manifest {
        Some(m) => m,
        None => {
            return Err(fail(ErrorCode::SchemaViolation, "missing manifest"));
        },
    };
    let plan = match req.plan {
        Some(p) => p,
        None => {
            return Err(fail(ErrorCode::SchemaViolation, "missing plan"));
        },
    };
    if !str_is_empty(manifest.request_id.as_str()) && !str_is_empty(plan.request_id.as_str())
        && !str_eq(manifest.request_id.as_str(), plan.request_id.as_str()) {
        return Err(fail(ErrorCode::SchemaViolation, "manifest and plan request_id mismatch"));
    }
    let budget = normalize_budget(&manifest.budget);
    match validate_static(&manifest, &plan, budget, within_cost) {
        Err(e) => {
            return Err(e);
        },
        Ok(_) => {},
    }
    let (regs, assertions, trace) = match run_plan(&manifest, &plan, opts, budget) {
        Ok(x) => x,
        Err(e) => {
            return Err(e);
        },
    };
    let proof = build_proof(&assertions, &trace);
    let rendered = match render_output(&plan.outputs, &regs, &assertions, opts) {
        Ok(r) => r,
        Err(e) => {
            return Err(e);
        },
    };
    Ok((assertions, proof, rendered))
}

/// Runs a plan against its manifest (see [`execute_spec`]). `within_cost`
/// tells whether the plan's cost terms (see
/// [`crate::kernel::validate::cost_terms`]) add up to no more than the
/// budget's cost ceiling; a plan over it is rejected.
pub fn execute(req: ExecuteRequest, opts: ExecuteOptions, within_cost: bool) -> (r: ExecuteResponse)
    ensures
        r@ == execute_spec(req@, opts@, within_cost),
        cost_guard_rejects(req@, within_cost) ==> r@.status == 3 && r@.error == Some(
            ExecutionErrorView {
                code: 6,
                message: "plan rejected by COST_GUARD"@,
                hints: cost_hints(req@.plan->Some_0.steps, req@.manifest->Some_0, normalize_budget_spec(
                    req@.manifest->Some_0.budget,
                )),
            },
        ) && r@.error->Some_0.hints.len() > 0,
{
    match execute_inner(req, &opts, within_cost) {
        Ok((assertions, proof, rendered)) => {
            let r = ExecuteResponse {
                status: 1,
                assertions,
                proof: Some(proof),
                rendered: Some(rendered),
                stall: None,
                error: None,
            };
            r
        },
        Err(e) => stop_to_response(e),
    }
}

} // verus!
