//! What every run of the kernel guarantees, stated over `execute_spec`.
use vstd::prelude::*;

use crate::kernel::machine::{execute_outcome, execute_spec, run_steps};
use crate::hash::hex_lower;
use crate::kernel::merkle::{
    climb, inclusion_spec, lemma_inclusion_verifies, leaf_of, path_from, proof_spec,
    semantic_root_spec, tree_levels,
};
use crate::kernel::narrative::valid_template;
use crate::kernel::ops::{fetch_spec, find_handle, find_selector};
use crate::kernel::options::{normalize_budget_spec, NormalizedBudget, OptionsView};
use crate::kernel::regs::StopView;
use crate::kernel::render::narrative_spec;
use crate::kernel::validate::{check_steps, validate_static_spec};
use crate::proto::{
    availability_from, AssertionMerkleProofView, ExecuteRequestView, HandleAvailability, OpView,
    PublicManifestView, StepView, VerifiedAssertionView,
};

verus! {

/// Steps that pass static validation have an operation, and their FETCH and
/// APPLY_SELECTOR references name a handle or selector of the manifest.
proof fn lemma_checked_steps_refs(steps: Seq<StepView>, m: PublicManifestView, budget: NormalizedBudget)
    requires
        check_steps(steps, m, budget) is Ok,
    ensures
        forall|i: int|
            0 <= i < steps.len() ==> (#[trigger] steps[i]).op is Some && (steps[i].op matches Some(
                OpView::Fetch(f),
            ) ==> find_handle(m.handles, f.handle_ref) is Some) && (steps[i].op matches Some(
                OpView::ApplySelector(a),
            ) ==> find_selector(m.selectors, a.selector_ref) is Some),
    decreases steps.len(),
{
    if steps.len() > 0 {
        lemma_checked_steps_refs(steps.drop_last(), m, budget);
        assert forall|i: int| 0 <= i < steps.len() implies (#[trigger] steps[i]).op is Some && (
        steps[i].op matches Some(OpView::Fetch(f)) ==> find_handle(m.handles, f.handle_ref) is Some)
            && (steps[i].op matches Some(OpView::ApplySelector(a)) ==> find_selector(
            m.selectors,
            a.selector_ref,
        ) is Some) by {
            if i < steps.len() - 1 {
                assert(steps[i] == steps.drop_last()[i]);
            }
        };
    }
}

/// Referential integrity: a plan that runs to `OK` fetches only handles and
/// applies only selectors that its manifest issued.
pub proof fn lemma_ok_references_manifest(req: ExecuteRequestView, opts: OptionsView, within_cost: bool)
    requires
        execute_spec(req, opts, within_cost).status == 1,
    ensures
        req.manifest is Some,
        req.plan is Some,
        forall|i: int|
            0 <= i < req.plan->Some_0.steps.len() ==> ((#[trigger] req.plan->Some_0.steps[i]).op matches Some(
                OpView::Fetch(f),
            ) ==> find_handle(req.manifest->Some_0.handles, f.handle_ref) is Some),
        forall|i: int|
            0 <= i < req.plan->Some_0.steps.len() ==> ((#[trigger] req.plan->Some_0.steps[i]).op matches Some(
                OpView::ApplySelector(a),
            ) ==> find_selector(req.manifest->Some_0.selectors, a.selector_ref) is Some),
{
    let m = req.manifest->Some_0;
    let p = req.plan->Some_0;
    let budget = normalize_budget_spec(m.budget);
    lemma_checked_steps_refs(p.steps, m, budget);
}

/// Bounded execution: a plan that runs to `OK` has no more steps than the
/// budget's `max_ops` and passed COST_GUARD.
pub proof fn lemma_ok_within_budget(req: ExecuteRequestView, opts: OptionsView, within_cost: bool)
    requires
        execute_spec(req, opts, within_cost).status == 1,
    ensures
        within_cost,
        (req.plan->Some_0.steps.len() as u32) <= normalize_budget_spec(
            req.manifest->Some_0.budget,
        ).max_ops,
{
}

/// Every step of a completed run succeeded; in particular each FETCH did.
proof fn lemma_run_fetches_ok(
    steps: Seq<StepView>,
    m: PublicManifestView,
    opts: OptionsView,
    budget: NormalizedBudget,
)
    requires
        run_steps(steps, m, opts, budget) is Ok,
    ensures
        forall|i: int|
            0 <= i < steps.len() ==> ((#[trigger] steps[i]).op matches Some(OpView::Fetch(f))
                ==> fetch_spec(f, m.handles, opts) is Ok),
    decreases steps.len(),
{
    if steps.len() > 0 {
        lemma_run_fetches_ok(steps.drop_last(), m, opts, budget);
        assert forall|i: int| 0 <= i < steps.len() implies ((#[trigger] steps[i]).op matches Some(
            OpView::Fetch(f),
        ) ==> fetch_spec(f, m.handles, opts) is Ok) by {
            if i < steps.len() - 1 {
                assert(steps[i] == steps.drop_last()[i]);
            }
        };
    }
}

/// Availability safety: unless partial results are allowed, a run that ends
/// `OK` fetched only handles that are `READY` (any other FETCH stalls).
pub proof fn lemma_ok_fetches_ready(req: ExecuteRequestView, opts: OptionsView, within_cost: bool)
    requires
        execute_spec(req, opts, within_cost).status == 1,
        !opts.allow_partial_on_stall,
    ensures
        forall|i: int|
            0 <= i < req.plan->Some_0.steps.len() ==> ((#[trigger] req.plan->Some_0.steps[i]).op matches Some(
                OpView::Fetch(f),
            ) ==> find_handle(req.manifest->Some_0.handles, f.handle_ref) matches Some(h)
                && availability_from(h.availability) == HandleAvailability::Ready),
{
    let m = req.manifest->Some_0;
    let p = req.plan->Some_0;
    let budget = normalize_budget_spec(m.budget);
    lemma_run_fetches_ok(p.steps, m, opts, budget);
}

/// A narrative that renders consists of templates that pass the grammar guard.
proof fn lemma_narrative_valid(ts: Seq<Seq<char>>, asserts: Seq<VerifiedAssertionView>)
    requires
        narrative_spec(ts, asserts) is Ok,
    ensures
        forall|i: int| 0 <= i < ts.len() ==> valid_template(#[trigger] ts[i]),
    decreases ts.len(),
{
    if ts.len() > 0 {
        lemma_narrative_valid(ts.drop_last(), asserts);
        assert forall|i: int| 0 <= i < ts.len() implies valid_template(#[trigger] ts[i]) by {
            if i < ts.len() - 1 {
                assert(ts[i] == ts.drop_last()[i]);
            }
        };
    }
}

/// Output guard: a run that ends `OK` rendered only narrative templates that
/// pass the grammar guard.
pub proof fn lemma_ok_narrative_guarded(req: ExecuteRequestView, opts: OptionsView, within_cost: bool)
    requires
        execute_spec(req, opts, within_cost).status == 1,
    ensures
        forall|i: int|
            0 <= i < opts.narrative_templates.len() ==> valid_template(
                #[trigger] opts.narrative_templates[i],
            ),
{
    let m = req.manifest->Some_0;
    let p = req.plan->Some_0;
    let budget = normalize_budget_spec(m.budget);
    let st = run_steps(p.steps, m, opts, budget)->Ok_0;
    lemma_narrative_valid(opts.narrative_templates, st.asserts);
}

/// A run that does not end `OK` reports nothing but its stop: no
/// assertion, proof or rendering, and either a stall (`STALL`) or an error
/// (`REJECTED`).
pub proof fn lemma_stopped_run_shape(req: ExecuteRequestView, opts: OptionsView, within_cost: bool)
    requires
        execute_spec(req, opts, within_cost).status != 1,
    ensures
        execute_spec(req, opts, within_cost).assertions.len() == 0,
        execute_spec(req, opts, within_cost).proof is None,
        execute_spec(req, opts, within_cost).rendered is None,
        execute_spec(req, opts, within_cost).status == 2 ==> execute_spec(
            req,
            opts,
            within_cost,
        ).stall is Some && execute_spec(req, opts, within_cost).error is None,
        execute_spec(req, opts, within_cost).status != 2 ==> execute_spec(
            req,
            opts,
            within_cost,
        ).status == 3 && execute_spec(req, opts, within_cost).error is Some && execute_spec(
            req,
            opts,
            within_cost,
        ).stall is None,
{
}

/// Static validation comes first: a plan that fails it is answered with
/// that failure, whatever its steps would do when run.
pub proof fn lemma_static_failure_answers(
    req: ExecuteRequestView,
    opts: OptionsView,
    within_cost: bool,
    e: StopView,
)
    requires
        req.manifest is Some,
        req.plan is Some,
        !(req.manifest->Some_0.request_id.len() > 0 && req.plan->Some_0.request_id.len() > 0
            && req.manifest->Some_0.request_id != req.plan->Some_0.request_id),
        validate_static_spec(
            req.manifest->Some_0,
            req.plan->Some_0,
            normalize_budget_spec(req.manifest->Some_0.budget),
            within_cost,
        ) == Err::<(), StopView>(e),
    ensures
        execute_outcome(req, opts, within_cost) == Err::<
            (Seq<VerifiedAssertionView>, crate::proto::AssertionMerkleProofView, crate::proto::RenderedOutputView),
            StopView,
        >(e),
{
}

/// What a proof built over assertions `a` commits to (see
/// [`lemma_ok_assertions_committed`]).
pub open spec fn commits_to(p: AssertionMerkleProofView, a: Seq<VerifiedAssertionView>) -> bool {
    let leaves = a.map_values(|x: VerifiedAssertionView| leaf_of(x));
    &&& p.semantic_root == semantic_root_spec(leaves)
    &&& p.inclusion.len() == a.len()
    &&& forall|i: int|
        0 <= i < a.len() ==> {
            let path = path_from(tree_levels(leaves), 0, i);
            &&& (#[trigger] p.inclusion[i]).assertion_index == i as u32
            &&& p.inclusion[i].sibling_hashes == path.map_values(|h: Seq<u8>| hex_lower(h))
            &&& p.semantic_root == hex_lower(climb(leaves[i], i, path))
        }
}

/// A proof built over some assertions commits to them.
proof fn lemma_proof_commits(a: Seq<VerifiedAssertionView>, trace: Seq<Seq<char>>)
    ensures
        commits_to(proof_spec(a, trace), a),
{
    let leaves = a.map_values(|x: VerifiedAssertionView| leaf_of(x));
    let p = proof_spec(a, trace);
    assert(p.inclusion == inclusion_spec(leaves));
    assert(p.semantic_root == semantic_root_spec(leaves));
    assert forall|i: int| 0 <= i < a.len() implies {
        let path = path_from(tree_levels(leaves), 0, i);
        &&& (#[trigger] p.inclusion[i]).assertion_index == i as u32
        &&& p.inclusion[i].sibling_hashes == path.map_values(|h: Seq<u8>| hex_lower(h))
        &&& p.semantic_root == hex_lower(climb(leaves[i], i, path))
    } by {
        lemma_inclusion_verifies(leaves, i);
    };
}

/// Verifiable answers: a run that ends `OK` commits to exactly the
/// assertions it returns. Its semantic root is the Merkle root over their
/// leaves, and the inclusion entry of assertion `i` carries index `i` (as a
/// `u32`) and
/// the sibling path along which folding the assertion's leaf recomputes the
/// node whose hex is that root.
pub proof fn lemma_ok_assertions_committed(req: ExecuteRequestView, opts: OptionsView, within_cost: bool)
    requires
        execute_spec(req, opts, within_cost).status == 1,
    ensures
        execute_spec(req, opts, within_cost).proof is Some,
        commits_to(
            execute_spec(req, opts, within_cost).proof->Some_0,
            execute_spec(req, opts, within_cost).assertions,
        ),
{
    let m = req.manifest->Some_0;
    let p = req.plan->Some_0;
    let budget = normalize_budget_spec(m.budget);
    let st = run_steps(p.steps, m, opts, budget)->Ok_0;
    lemma_proof_commits(st.asserts, st.trace);
}

} // verus!
