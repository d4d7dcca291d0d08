//! Static validation of a plan before any step runs: register discipline,
//! manifest references, parameter types, join depth and the op budget; and
//! the per-step cost terms that COST_GUARD sums.
use vstd::prelude::*;

use crate::kernel::fields::{check_params, validate_param_specs};
use crate::kernel::ops::{find_handle, find_handle_exec, find_selector, find_selector_exec};
use crate::kernel::options::NormalizedBudget;
use crate::kernel::regs::{fail, hint_views, rejected, ExecStop, StopView};
use crate::proto::{
    selector_return_from, selector_return_from_i32, ErrorCode, Hint, HintView, Op, OpView, PublicManifest,
    PublicManifestView, RmvmPlan, RmvmPlanView, SelectorRef, SelectorRefView, SelectorReturn,
    StepView, ValueRefView,
};
use crate::smap::{smap_get, StrMap};
use crate::text::{dec_nat, is_blank, owned, push_str, push_u64, str_eq, trim};

verus! {

/// What static validation has seen so far: the declared registers and the
/// join depth of each register deeper than zero.
pub struct StaticState {
    pub declared: Set<Seq<char>>,
    pub depth: Seq<(Seq<char>, u64)>,
}

/// The join depth recorded for a register, zero when none is.
pub open spec fn depth_of(depth: Seq<(Seq<char>, u64)>, r: Seq<char>) -> u64 {
    match smap_get(depth, r) {
        Some(d) => d,
        None => 0,
    }
}

/// Whether some binding of an ASSERT reads an undeclared register.
pub open spec fn binding_undeclared(
    bs: Seq<(Seq<char>, ValueRefView)>,
    declared: Set<Seq<char>>,
) -> bool {
    exists|i: int| 0 <= i < bs.len() && !declared.contains(#[trigger] bs[i].1.reg)
}

/// The static check of one operation: its output's join depth, or the failure.
pub open spec fn op_check(
    op: OpView,
    m: PublicManifestView,
    budget: NormalizedBudget,
    declared: Set<Seq<char>>,
    depth: Seq<(Seq<char>, u64)>,
) -> Result<u64, StopView> {
    match op {
        OpView::Fetch(f) => if find_handle(m.handles, f.handle_ref) is Some {
            Ok(0)
        } else {
            Err(rejected(ErrorCode::UnknownHandleRef, "unknown handle_ref in FETCH"))
        },
        OpView::ApplySelector(a) => match find_selector(m.selectors, a.selector_ref) {
            None => Err(rejected(ErrorCode::UnknownSelectorRef, "unknown selector_ref")),
            Some(sel) => match check_params(sel.params, a.params) {
                Err(e) => Err(e),
                Ok(_) => Ok(0),
            },
        },
        OpView::Resolve(r) => if declared.contains(r.in_reg) {
            Ok(depth_of(depth, r.in_reg))
        } else {
            Err(rejected(ErrorCode::SchemaViolation, "register used before definition"))
        },
        OpView::Filter(f) => if declared.contains(f.in_reg) {
            Ok(depth_of(depth, f.in_reg))
        } else {
            Err(rejected(ErrorCode::SchemaViolation, "register used before definition"))
        },
        OpView::Project(p) => if declared.contains(p.in_reg) {
            Ok(depth_of(depth, p.in_reg))
        } else {
            Err(rejected(ErrorCode::SchemaViolation, "register used before definition"))
        },
        OpView::Join(j) => if !declared.contains(j.left_reg) || !declared.contains(j.right_reg) {
            Err(rejected(ErrorCode::SchemaViolation, "JOIN register used before definition"))
        } else {
            let l = depth_of(depth, j.left_reg);
            let r = depth_of(depth, j.right_reg);
            let d = (if l >= r {
                l
            } else {
                r
            }) + 1;
            if d > budget.max_join_depth {
                Err(rejected(ErrorCode::GraphTraversalLimit, "max_join_depth exceeded"))
            } else {
                Ok(d as u64)
            }
        },
        OpView::AssertOp(a) => if binding_undeclared(a.bindings, declared) {
            Err(rejected(ErrorCode::SchemaViolation, "ASSERT binding uses undefined register"))
        } else {
            Ok(0)
        },
    }
}

/// The static check of one step.
pub open spec fn check_step(
    step: StepView,
    m: PublicManifestView,
    budget: NormalizedBudget,
    st: StaticState,
) -> Result<StaticState, StopView> {
    if trim(step.out).len() == 0 {
        Err(rejected(ErrorCode::SchemaViolation, "step.out cannot be empty"))
    } else if st.declared.contains(step.out) {
        Err(rejected(ErrorCode::SchemaViolation, "register redefinition"))
    } else {
        let declared = st.declared.insert(step.out);
        match step.op {
            None => Err(rejected(ErrorCode::SchemaViolation, "step missing op")),
            Some(op) => match op_check(op, m, budget, declared, st.depth) {
                Err(e) => Err(e),
                Ok(d) => Ok(
                    StaticState {
                        declared,
                        depth: if d > 0 {
                            crate::smap::smap_insert(st.depth, step.out, d)
                        } else {
                            st.depth
                        },
                    },
                ),
            },
        }
    }
}

/// The static check of the steps in order; the first failing step decides.
pub open spec fn check_steps(
    steps: Seq<StepView>,
    m: PublicManifestView,
    budget: NormalizedBudget,
) -> Result<StaticState, StopView>
    decreases steps.len(),
{
    if steps.len() == 0 {
        Ok(StaticState { declared: Set::empty(), depth: Seq::empty() })
    } else {
        match check_steps(steps.drop_last(), m, budget) {
            Err(e) => Err(e),
            Ok(st) => check_step(steps.last(), m, budget, st),
        }
    }
}

/// Static validation of a plan. `within_cost` says whether the plan's total
/// cost (the sum of its [`step_cost`] terms) stays within the budget's
/// `max_total_cost`; it is consulted only once every step has passed.
pub open spec fn validate_static_spec(
    m: PublicManifestView,
    p: RmvmPlanView,
    budget: NormalizedBudget,
    within_cost: bool,
) -> Result<(), StopView> {
    if (p.steps.len() as u32) > budget.max_ops {
        Err(rejected(ErrorCode::GraphTraversalLimit, "max_ops exceeded"))
    } else {
        match check_steps(p.steps, m, budget) {
            Err(e) => Err(e),
            Ok(st) => if !within_cost {
                Err(cost_guard_stop(p.steps, m, budget))
            } else if exists|i: int|
                0 <= i < p.outputs.len() && !st.declared.contains(#[trigger] p.outputs[i].reg) {
                Err(rejected(ErrorCode::SchemaViolation, "undefined output register"))
            } else {
                Ok(())
            },
        }
    }
}

/// Whether a name occurs in a list of strings.
pub fn contains_name(names: &Vec<String>, s: &str) -> (r: bool)
    ensures
        r == names@.map_values(|x: String| x@).to_set().contains(s@),
{
    let ghost nv = names@.map_values(|x: String| x@);
    let mut i: usize = 0;
    while i < names.len()
        invariant
            i <= names.len(),
            nv == names@.map_values(|x: String| x@),
            forall|j: int| 0 <= j < i ==> nv[j] != s@,
        decreases names.len() - i,
    {
        if str_eq(names[i].as_str(), s) {
            assert(nv[i as int] == s@);
            assert(nv.contains(s@));
            return true;
        }
        i += 1;
    }
    false
}

fn depth_of_exec(depth: &StrMap<u64>, r: &str) -> (d: u64)
    ensures
        d == depth_of(depth@, r@),
{
    match depth.get(r) {
        Some(d) => *d,
        None => 0,
    }
}

fn op_check_exec(
    op: &Op,
    m: &PublicManifest,
    budget: NormalizedBudget,
    declared: &Vec<String>,
    depth: &StrMap<u64>,
) -> (r: Result<u64, ExecStop>)
    ensures
        match r {
            Ok(d) => op_check(
                op@,
                m@,
                budget,
                declared@.map_values(|x: String| x@).to_set(),
                depth@,
            ) == Ok::<u64, StopView>(d),
            Err(e) => op_check(
                op@,
                m@,
                budget,
                declared@.map_values(|x: String| x@).to_set(),
                depth@,
            ) == Err::<u64, StopView>(e@),
        },
{
    match op {
        Op::Fetch(f) => {
            if find_handle_exec(&m.handles, f.handle_ref.as_str()).is_some() {
                Ok(0)
            } else {
                Err(fail(ErrorCode::UnknownHandleRef, "unknown handle_ref in FETCH"))
            }
        },
        Op::ApplySelector(a) => {
            match find_selector_exec(&m.selectors, a.selector_ref.as_str()) {
                None => Err(fail(ErrorCode::UnknownSelectorRef, "unknown selector_ref")),
                Some(sel) => match validate_param_specs(&sel.params, &a.params) {
                    Err(e) => Err(e),
                    Ok(_) => Ok(0),
                },
            }
        },
        Op::Resolve(r) => {
            if contains_name(declared, r.in_reg.as_str()) {
                Ok(depth_of_exec(depth, r.in_reg.as_str()))
            } else {
                Err(fail(ErrorCode::SchemaViolation, "register used before definition"))
            }
        },
        Op::Filter(f) => {
            if contains_name(declared, f.in_reg.as_str()) {
                Ok(depth_of_exec(depth, f.in_reg.as_str()))
            } else {
                Err(fail(ErrorCode::SchemaViolation, "register used before definition"))
            }
        },
        Op::Project(p) => {
            if contains_name(declared, p.in_reg.as_str()) {
                Ok(depth_of_exec(depth, p.in_reg.as_str()))
            } else {
                Err(fail(ErrorCode::SchemaViolation, "register used before definition"))
            }
        },
        Op::Join(j) => {
            if !contains_name(declared, j.left_reg.as_str()) || !contains_name(
                declared,
                j.right_reg.as_str(),
            ) {
                return Err(
                    fail(ErrorCode::SchemaViolation, "JOIN register used before definition"),
                );
            }
            let l = depth_of_exec(depth, j.left_reg.as_str());
            let r = depth_of_exec(depth, j.right_reg.as_str());
            let top = if l >= r {
                l
            } else {
                r
            };
            if top >= budget.max_join_depth as u64 {
                Err(fail(ErrorCode::GraphTraversalLimit, "max_join_depth exceeded"))
            } else {
                Ok(top + 1)
            }
        },
        Op::AssertOp(a) => {
            let ghost bs = a.bindings@;
            let ghost dv = declared@.map_values(|x: String| x@).to_set();
            let mut i: usize = 0;
            while i < a.bindings.len()
                invariant
                    i <= bs.len(),
                    bs == a.bindings@,
                    op@ == OpView::AssertOp(a@),
                    dv == declared@.map_values(|x: String| x@).to_set(),
                    forall|j: int| 0 <= j < i ==> dv.contains(#[trigger] bs[j].1.reg),
                decreases bs.len() - i,
            {
                if !contains_name(declared, a.bindings.value_at(i).reg.as_str()) {
                    assert(!dv.contains(bs[i as int].1.reg));
                    assert(binding_undeclared(a@.bindings, dv));
                    return Err(
                        fail(ErrorCode::SchemaViolation, "ASSERT binding uses undefined register"),
                    );
                }
                i += 1;
            }
            Ok(0)
        },
    }
}

/// Once a prefix of the steps fails, the whole check fails the same way.
proof fn lemma_check_steps_prefix(
    steps: Seq<StepView>,
    k: int,
    m: PublicManifestView,
    budget: NormalizedBudget,
)
    requires
        0 <= k <= steps.len(),
        check_steps(steps.take(k), m, budget) is Err,
    ensures
        check_steps(steps, m, budget) == check_steps(steps.take(k), m, budget),
    decreases steps.len(),
{
    if k == steps.len() {
        assert(steps.take(k) =~= steps);
    } else {
        assert(steps.drop_last().take(k) =~= steps.take(k));
        lemma_check_steps_prefix(steps.drop_last(), k, m, budget);
    }
}

/// Static validation of a plan (see [`validate_static_spec`]).
pub fn validate_static(
    manifest: &PublicManifest,
    plan: &RmvmPlan,
    budget: NormalizedBudget,
    within_cost: bool,
) -> (r: Result<(), ExecStop>)
    ensures
        match r {
            Ok(_) => validate_static_spec(manifest@, plan@, budget, within_cost) == Ok::<
                (),
                StopView,
            >(()),
            Err(e) => validate_static_spec(manifest@, plan@, budget, within_cost) == Err::<
                (),
                StopView,
            >(e@),
        },
        ((plan@.steps.len() as u32) <= budget.max_ops && check_steps(plan@.steps, manifest@, budget) is Ok
            && !within_cost) ==> (r matches Err(e) && e@ == cost_guard_stop(plan@.steps, manifest@, budget)
            && cost_hints(plan@.steps, manifest@, budget).len() > 0),
{
    if plan.steps.len() as u32 > budget.max_ops {
        return Err(fail(ErrorCode::GraphTraversalLimit, "max_ops exceeded"));
    }
    let ghost sv = plan@.steps;
    let ghost mv = manifest@;
    let mut declared: Vec<String> = Vec::new();
    let mut depth: StrMap<u64> = StrMap::new();
    let mut i: usize = 0;
    assert(sv.take(0) =~= Seq::<StepView>::empty());
    assert(declared@.map_values(|x: String| x@).to_set() =~= Set::<Seq<char>>::empty());
    while i < plan.steps.len()
        invariant
            i <= plan.steps.len(),
            sv == plan@.steps,
            sv.len() == plan.steps.len(),
            (plan.steps.len() as u32) <= budget.max_ops,
            mv == manifest@,
            check_steps(sv.take(i as int), mv, budget) == Ok::<StaticState, StopView>(
                StaticState {
                    declared: declared@.map_values(|x: String| x@).to_set(),
                    depth: depth@,
                },
            ),
        decreases plan.steps.len() - i,
    {
        let step = &plan.steps[i];
        proof {
            assert(sv.take(i + 1).drop_last() =~= sv.take(i as int));
            assert(sv.take(i + 1).last() == step@);
        }
        if is_blank(step.out.as_str()) {
            proof {
                lemma_check_steps_prefix(sv, i + 1, mv, budget);
            }
            return Err(fail(ErrorCode::SchemaViolation, "step.out cannot be empty"));
        }
        if contains_name(&declared, step.out.as_str()) {
            proof {
                lemma_check_steps_prefix(sv, i + 1, mv, budget);
            }
            return Err(fail(ErrorCode::SchemaViolation, "register redefinition"));
        }
        let ghost before = declared@;
        declared.push(step.out.clone());
        proof {
            assert(declared@.map_values(|x: String| x@) =~= before.map_values(|x: String| x@).push(
                step.out@,
            ));
            before.map_values(|x: String| x@).lemma_push_to_set_commute(step.out@);
        }
        match &step.op {
            None => {
                proof {
                    lemma_check_steps_prefix(sv, i + 1, mv, budget);
                }
                return Err(fail(ErrorCode::SchemaViolation, "step missing op"));
            },
            Some(op) => {
                match op_check_exec(op, manifest, budget, &declared, &depth) {
                    Err(e) => {
                        proof {
                            lemma_check_steps_prefix(sv, i + 1, mv, budget);
                        }
                        return Err(e);
                    },
                    Ok(d) => {
                        if d > 0 {
                            depth.insert(step.out.clone(), d);
                        }
                    },
                }
            },
        }
        i += 1;
    }
    proof {
        assert(sv.take(sv.len() as int) =~= sv);
    }
    if !within_cost {
        let hints = cost_hints_exec(manifest, plan, budget);
        return Err(
            ExecStop::Failure(ErrorCode::CostGuardRejected, owned("plan rejected by COST_GUARD"), hints),
        );
    }
    let ghost ov = plan@.outputs;
    let ghost dv = declared@.map_values(|x: String| x@).to_set();
    let ghost st = StaticState { declared: dv, depth: depth@ };
    let mut k: usize = 0;
    while k < plan.outputs.len()
        invariant
            k <= plan.outputs.len(),
            ov == plan@.outputs,
            dv == declared@.map_values(|x: String| x@).to_set(),
            forall|j: int| 0 <= j < k ==> dv.contains(#[trigger] ov[j].reg),
            within_cost,
            (plan.steps.len() as u32) <= budget.max_ops,
            check_steps(plan@.steps, manifest@, budget) == Ok::<StaticState, StopView>(st),
            st.declared == dv,
        decreases plan.outputs.len() - k,
    {
        if !contains_name(&declared, plan.outputs[k].reg.as_str()) {
            assert(!dv.contains(ov[k as int].reg));
            return Err(fail(ErrorCode::SchemaViolation, "undefined output register"));
        }
        k += 1;
    }
    Ok(())
}

// ----------------------------------------------------------------------
// COST_GUARD terms
// ----------------------------------------------------------------------

/// The cost a step adds: a fixed amount, or a selector's weight (as the bits
/// of an `f64`) times its estimated rows raised to the power 1.2.
#[derive(Clone, Copy, Debug, PartialEq, Eq, Structural)]
pub enum CostTerm {
    Fixed(u32),
    Selector { weight_bits: u64, rows: u32 },
}

/// The rows a selector is expected to return: the handle count capped by the
/// fanout for a handle set, otherwise one.
pub open spec fn estimate_rows(sel: SelectorRefView, m: PublicManifestView, budget: NormalizedBudget) -> u32 {
    match selector_return_from(sel.return_type) {
        SelectorReturn::ReturnHandleSet => if m.handles.len() <= budget.max_fanout {
            m.handles.len() as u32
        } else {
            budget.max_fanout
        },
        _ => 1,
    }
}

/// The cost term of a step; steps that fail validation cost nothing, since
/// validation stops before the cost is compared.
pub open spec fn step_cost(step: StepView, m: PublicManifestView, budget: NormalizedBudget) -> CostTerm {
    match step.op {
        None => CostTerm::Fixed(0),
        Some(op) => match op {
            OpView::Fetch(_) => CostTerm::Fixed(1),
            OpView::ApplySelector(a) => match find_selector(m.selectors, a.selector_ref) {
                Some(sel) => CostTerm::Selector {
                    weight_bits: sel.cost_weight_bits,
                    rows: if estimate_rows(sel, m, budget) == 0 {
                        1
                    } else {
                        estimate_rows(sel, m, budget)
                    },
                },
                None => CostTerm::Fixed(0),
            },
            OpView::Join(_) => CostTerm::Fixed(2),
            _ => CostTerm::Fixed(1),
        },
    }
}

fn estimate_rows_exec(sel: &SelectorRef, m: &PublicManifest, budget: NormalizedBudget) -> (r: u32)
    ensures
        r == estimate_rows(sel@, m@, budget),
{
    match selector_return_from_i32(sel.return_type) {
        SelectorReturn::ReturnHandleSet => {
            if m.handles.len() <= budget.max_fanout as usize {
                m.handles.len() as u32
            } else {
                budget.max_fanout
            }
        },
        _ => 1,
    }
}

/// The cost terms of the steps of a plan, in step order.
pub fn cost_terms(manifest: &PublicManifest, plan: &RmvmPlan, budget: NormalizedBudget) -> (out: Vec<
    CostTerm,
>)
    ensures
        out@ == plan@.steps.map_values(|s: StepView| step_cost(s, manifest@, budget)),
{
    let ghost target = plan@.steps.map_values(|s: StepView| step_cost(s, manifest@, budget));
    let mut out: Vec<CostTerm> = Vec::new();
    let mut i: usize = 0;
    while i < plan.steps.len()
        invariant
            i <= plan.steps.len(),
            target == plan@.steps.map_values(|s: StepView| step_cost(s, manifest@, budget)),
            out@ =~= target.take(i as int),
        decreases plan.steps.len() - i,
    {
        let term = match &plan.steps[i].op {
            None => CostTerm::Fixed(0),
            Some(op) => match op {
                Op::Fetch(_) => CostTerm::Fixed(1),
                Op::ApplySelector(a) => match find_selector_exec(
                    &manifest.selectors,
                    a.selector_ref.as_str(),
                ) {
                    Some(sel) => {
                        let rows = estimate_rows_exec(sel, manifest, budget);
                        CostTerm::Selector {
                            weight_bits: sel.cost_weight_bits,
                            rows: if rows == 0 {
                                1
                            } else {
                                rows
                            },
                        }
                    },
                    None => CostTerm::Fixed(0),
                },
                Op::Join(_) => CostTerm::Fixed(2),
                _ => CostTerm::Fixed(1),
            },
        };
        out.push(term);
        proof {
            assert(target[i as int] == step_cost(plan@.steps[i as int], manifest@, budget));
            assert(target.take(i + 1) =~= target.take(i as int).push(target[i as int]));
        }
        i += 1;
    }
    assert(target.take(plan.steps.len() as int) =~= target);
    out
}

// ----------------------------------------------------------------------
// COST_GUARD pruning hints
// ----------------------------------------------------------------------

/// The pruning hint for one step, if it is one of the expensive kinds: an
/// APPLY_SELECTOR (to narrow or remove, with its estimated rows) or a JOIN
/// (to remove or split off).
pub open spec fn step_hint(step: StepView, m: PublicManifestView, budget: NormalizedBudget) -> Seq<
    HintView,
> {
    match step_cost(step, m, budget) {
        CostTerm::Selector { rows, .. } => seq![
            HintView {
                text: "narrow or remove APPLY_SELECTOR step "@ + step.out + " (about "@ + dec_nat(
                    rows as nat,
                ) + " rows)"@,
            },
        ],
        CostTerm::Fixed(c) => if c == 2 {
            seq![HintView { text: "remove JOIN step "@ + step.out + " or split the plan"@ }]
        } else {
            Seq::empty()
        },
    }
}

/// The step hints of a plan, in step order.
pub open spec fn step_hints(steps: Seq<StepView>, m: PublicManifestView, budget: NormalizedBudget) -> Seq<
    HintView,
>
    decreases steps.len(),
{
    if steps.len() == 0 {
        Seq::empty()
    } else {
        step_hints(steps.drop_last(), m, budget) + step_hint(steps.last(), m, budget)
    }
}

/// The closing hint of a cost-guard rejection: how many steps the plan has.
pub open spec fn total_hint(n: nat) -> HintView {
    HintView { text: "remove steps: the plan's "@ + dec_nat(n) + " steps exceed max_total_cost"@ }
}

/// The pruning hints of a plan over its cost ceiling: one per expensive
/// step, then the closing hint. Never empty.
pub open spec fn cost_hints(steps: Seq<StepView>, m: PublicManifestView, budget: NormalizedBudget) -> Seq<
    HintView,
> {
    step_hints(steps, m, budget).push(total_hint(steps.len()))
}

/// The cost guard's rejection of a plan, with its pruning hints.
pub open spec fn cost_guard_stop(steps: Seq<StepView>, m: PublicManifestView, budget: NormalizedBudget) -> StopView {
    StopView::Failure(
        ErrorCode::CostGuardRejected,
        "plan rejected by COST_GUARD"@,
        cost_hints(steps, m, budget),
    )
}

fn hint_of(text: String) -> (h: Hint)
    ensures
        h@ == (HintView { text: text@ }),
{
    Hint { text }
}

/// The pruning hints of a plan (see [`cost_hints`]).
pub fn cost_hints_exec(manifest: &PublicManifest, plan: &RmvmPlan, budget: NormalizedBudget) -> (out: Vec<Hint>)
    ensures
        hint_views(out@) == cost_hints(plan@.steps, manifest@, budget),
        out@.len() > 0,
{
    let terms = cost_terms(manifest, plan, budget);
    let ghost sv = plan@.steps;
    let mut out: Vec<Hint> = Vec::new();
    let mut i: usize = 0;
    assert(sv.take(0) =~= Seq::<StepView>::empty());
    assert(hint_views(out@) =~= Seq::<HintView>::empty());
    while i < plan.steps.len()
        invariant
            i <= plan.steps.len(),
            sv == plan@.steps,
            terms@ == sv.map_values(|s: StepView| step_cost(s, manifest@, budget)),
            hint_views(out@) == step_hints(sv.take(i as int), manifest@, budget),
        decreases plan.steps.len() - i,
    {
        let ghost before = out@;
        let step = &plan.steps[i];
        proof {
            assert(sv.take(i + 1).drop_last() =~= sv.take(i as int));
            assert(sv.take(i + 1).last() == step@);
            assert(terms@[i as int] == step_cost(step@, manifest@, budget));
        }
        match terms[i] {
            CostTerm::Selector { weight_bits: _, rows } => {
                let mut t = owned("narrow or remove APPLY_SELECTOR step ");
                push_str(&mut t, step.out.as_str());
                push_str(&mut t, " (about ");
                push_u64(&mut t, rows as u64);
                push_str(&mut t, " rows)");
                out.push(hint_of(t));
                proof {
                    assert(hint_views(out@) =~= hint_views(before) + step_hint(step@, manifest@, budget));
                }
            },
            CostTerm::Fixed(c) => {
                if c == 2 {
                    let mut t = owned("remove JOIN step ");
                    push_str(&mut t, step.out.as_str());
                    push_str(&mut t, " or split the plan");
                    out.push(hint_of(t));
                    proof {
                        assert(hint_views(out@) =~= hint_views(before) + step_hint(step@, manifest@, budget));
                    }
                } else {
                    proof {
                        assert(hint_views(out@) =~= hint_views(before) + step_hint(step@, manifest@, budget));
                    }
                }
            },
        }
        i += 1;
    }
    proof {
        assert(sv.take(sv.len() as int) =~= sv);
    }
    let ghost before = out@;
    let mut t = owned("remove steps: the plan's ");
    push_u64(&mut t, plan.steps.len() as u64);
    push_str(&mut t, " steps exceed max_total_cost");
    out.push(hint_of(t));
    proof {
        assert(hint_views(out@) =~= hint_views(before).push(total_hint(sv.len())));
    }
    out
}

} // verus!
