//! Turning a conformance vector into an execute request and options.
use vstd::prelude::*;

use crate::conformance::vector::{
    BindingInput, CitationInput, ConformanceVector, ContextVarInput, ExecuteOptionsInput,
    HandleInput, OpInput, ParamInput, ScalarValueInput, SelectorInput, StepInput,
};
use crate::kernel::options::ExecuteOptions;
use crate::names::{
    assertion_type_by_name, assertion_type_from_str_name, availability_by_name,
    availability_from_str_name, edge_type_by_name, edge_type_from_str_name, param_type_by_name,
    param_type_from_str_name, scope_by_name, scope_from_str_name, selector_return_by_name,
    selector_return_from_str_name, taint_by_name, taint_from_str_name, trust_tier_by_name,
    trust_tier_from_str_name,
};
use crate::proto::{
    assertion_type_number, availability_number, clone_strings, edge_type_number,
    param_type_number, scope_number, selector_return_number, tier_number, CitationRef,
    CitationRefView, Cite, CiteView, ContextVar, ContextVarView, ExecuteRequest,
    ExecuteRequestView, HandleMeta, HandleMetaView, HandleRef, HandleRefView, Op,
    OpApplySelector, OpApplySelectorView, OpAssert, OpAssertView, OpFetch, OpFetchView, OpFilter,
    OpFilterView, OpJoin, OpJoinView, OpProject, OpProjectView, OpResolve, OpResolveView, OpView,
    OutputSpec, OutputSpecView, ParamSpec, ParamSpecView, PlanBudget, PlanBudgetView,
    PublicManifest, PublicManifestView, RmvmPlan, RmvmPlanView, SelectorRef, SelectorRefView,
    Step, StepView, TemporalBound, TemporalBoundView, Value, ValueKind, ValueKindView, ValueRef,
    ValueRefView, ValueView,
};
use crate::smap::{smap_insert, StrMap};
use crate::text::{concat2, owned};

verus! {

/// A string, or the empty string when absent.
pub open spec fn or_empty(s: Option<String>) -> Seq<char> {
    match s {
        Some(x) => x@,
        None => Seq::empty(),
    }
}

fn or_empty_exec(s: &Option<String>) -> (r: String)
    ensures
        r@ == or_empty(*s),
{
    match s {
        Some(x) => owned(x.as_str()),
        None => String::new(),
    }
}

/// The protocol value of a vector scalar.
pub open spec fn scalar_spec(v: ScalarValueInput) -> ValueView {
    ValueView {
        v: Some(
            match v {
                ScalarValueInput::S(s) => ValueKindView::S(s@),
                ScalarValueInput::B(b) => ValueKindView::B(b),
                ScalarValueInput::I64(i) => ValueKindView::I64(i),
                ScalarValueInput::F64(f) => ValueKindView::F64(f@),
                ScalarValueInput::E(e) => ValueKindView::E(e@),
            },
        ),
    }
}

/// The protocol value of a vector scalar.
pub fn to_value(v: &ScalarValueInput) -> (r: Value)
    ensures
        r@ == scalar_spec(*v),
{
    let k = match v {
        ScalarValueInput::S(s) => ValueKind::S(owned(s.as_str())),
        ScalarValueInput::B(b) => ValueKind::B(*b),
        ScalarValueInput::I64(i) => ValueKind::I64(*i),
        ScalarValueInput::F64(f) => ValueKind::F64(f.clone()),
        ScalarValueInput::E(e) => ValueKind::E(owned(e.as_str())),
    };
    Value { v: Some(k) }
}

/// The taint numbers of named taint classes; the first unknown name fails.
pub open spec fn taints_spec(ts: Seq<String>) -> Result<Seq<i32>, Seq<char>>
    decreases ts.len(),
{
    if ts.len() == 0 {
        Ok(Seq::empty())
    } else {
        match taints_spec(ts.drop_last()) {
            Err(e) => Err(e),
            Ok(prev) => match taint_by_name(ts.last()@) {
                None => Err("invalid TaintClass: "@ + ts.last()@),
                Some(n) => Ok(prev.push(n)),
            },
        }
    }
}

/// The handle a vector describes: names become wire numbers (the trust tier
/// defaults to `TIER_3_CONFIRMED`, the scope to `SCOPE_GLOBAL`), absent text
/// fields become empty, and the validity window is open-ended unless stated.
pub open spec fn handle_spec(h: HandleInput) -> Result<HandleRefView, Seq<char>> {
    match availability_by_name(h.availability@) {
        None => Err("invalid HandleAvailability: "@ + h.availability@),
        Some(a) => {
            let trust = match h.trust_tier {
                Some(t) => match trust_tier_by_name(t@) {
                    None => Err("invalid TrustTier: "@ + t@),
                    Some(x) => Ok(tier_number(x)),
                },
                None => Ok(4i32),
            };
            match trust {
                Err(e) => Err(e),
                Ok(tt) => {
                    let scope = match h.scope {
                        Some(s) => match scope_by_name(s@) {
                            None => Err("invalid Scope: "@ + s@),
                            Some(x) => Ok(scope_number(x)),
                        },
                        None => Ok(1i32),
                    };
                    match scope {
                        Err(e) => Err(e),
                        Ok(sc) => match taints_spec(h.taint@) {
                            Err(e) => Err(e),
                            Ok(taint) => Ok(
                                HandleRefView {
                                    ref_id: h.ref_id@,
                                    type_id: h.type_id@,
                                    availability: availability_number(a),
                                    meta: Some(
                                        HandleMetaView {
                                            subject: or_empty(h.subject),
                                            predicate_label: or_empty(h.predicate_label),
                                            trust_tier: tt,
                                            taint,
                                            temporal: Some(
                                                TemporalBoundView {
                                                    valid_from: None,
                                                    valid_to: None,
                                                    open_end: match h.open_end {
                                                        Some(b) => b,
                                                        None => true,
                                                    },
                                                },
                                            ),
                                            scope: sc,
                                        },
                                    ),
                                    signature_summary: or_empty(h.signature_summary),
                                    conflict_group_id: or_empty(h.conflict_group_id),
                                },
                            ),
                        },
                    }
                },
            }
        },
    }
}

fn to_taints(ts: &Vec<String>) -> (r: Result<Vec<i32>, String>)
    ensures
        match r {
            Ok(v) => taints_spec(ts@) == Ok::<Seq<i32>, Seq<char>>(v@),
            Err(e) => taints_spec(ts@) == Err::<Seq<i32>, Seq<char>>(e@),
        },
{
    let mut out: Vec<i32> = Vec::new();
    let mut i: usize = 0;
    assert(ts@.take(0) =~= Seq::<String>::empty());
    while i < ts.len()
        invariant
            i <= ts.len(),
            taints_spec(ts@.take(i as int)) == Ok::<Seq<i32>, Seq<char>>(out@),
        decreases ts.len() - i,
    {
        proof {
            assert(ts@.take(i + 1).drop_last() =~= ts@.take(i as int));
            assert(ts@.take(i + 1).last() == ts@[i as int]);
        }
        match taint_from_str_name(ts[i].as_str()) {
            None => {
                proof {
                    lemma_taints_prefix(ts@, i + 1);
                }
                return Err(concat2("invalid TaintClass: ", ts[i].as_str()));
            },
            Some(n) => {
                out.push(n);
            },
        }
        i += 1;
    }
    assert(ts@.take(ts.len() as int) =~= ts@);
    Ok(out)
}

proof fn lemma_taints_prefix(ts: Seq<String>, k: int)
    requires
        0 <= k <= ts.len(),
        taints_spec(ts.take(k)) is Err,
    ensures
        taints_spec(ts) == taints_spec(ts.take(k)),
    decreases ts.len(),
{
    if k == ts.len() {
        assert(ts.take(k) =~= ts);
    } else {
        assert(ts.drop_last().take(k) =~= ts.take(k));
        lemma_taints_prefix(ts.drop_last(), k);
    }
}

/// The handle a vector describes (see [`handle_spec`]).
pub fn to_handle_ref(h: &HandleInput) -> (r: Result<HandleRef, String>)
    ensures
        match r {
            Ok(x) => handle_spec(*h) == Ok::<HandleRefView, Seq<char>>(x@),
            Err(e) => handle_spec(*h) == Err::<HandleRefView, Seq<char>>(e@),
        },
{
    let availability = match availability_from_str_name(h.availability.as_str()) {
        Some(a) => a.wire_number(),
        None => {
            return Err(concat2("invalid HandleAvailability: ", h.availability.as_str()));
        },
    };
    let trust_tier = match &h.trust_tier {
        Some(t) => match trust_tier_from_str_name(t.as_str()) {
            Some(x) => x.number(),
            None => {
                return Err(concat2("invalid TrustTier: ", t.as_str()));
            },
        },
        None => 4,
    };
    let scope = match &h.scope {
        Some(s) => match scope_from_str_name(s.as_str()) {
            Some(x) => x.wire_number(),
            None => {
                return Err(concat2("invalid Scope: ", s.as_str()));
            },
        },
        None => 1,
    };
    let taint = match to_taints(&h.taint) {
        Ok(t) => t,
        Err(e) => {
            return Err(e);
        },
    };
    let open_end = match h.open_end {
        Some(b) => b,
        None => true,
    };
    let r = HandleRef {
        ref_id: owned(h.ref_id.as_str()),
        type_id: owned(h.type_id.as_str()),
        availability,
        meta: Some(
            HandleMeta {
                subject: or_empty_exec(&h.subject),
                predicate_label: or_empty_exec(&h.predicate_label),
                trust_tier,
                taint,
                temporal: Some(TemporalBound { valid_from: None, valid_to: None, open_end }),
                scope,
            },
        ),
        signature_summary: or_empty_exec(&h.signature_summary),
        conflict_group_id: or_empty_exec(&h.conflict_group_id),
    };
    Ok(r)
}

/// The parameter specs of a selector; the first unknown type name fails.
pub open spec fn params_spec(ps: Seq<ParamInput>) -> Result<Seq<ParamSpecView>, Seq<char>>
    decreases ps.len(),
{
    if ps.len() == 0 {
        Ok(Seq::empty())
    } else {
        match params_spec(ps.drop_last()) {
            Err(e) => Err(e),
            Ok(prev) => match param_type_by_name(ps.last().param_type@) {
                None => Err("invalid ParamType: "@ + ps.last().param_type@),
                Some(t) => Ok(
                    prev.push(
                        ParamSpecView {
                            name: ps.last().name@,
                            param_type: param_type_number(t),
                            enum_values: ps.last().enum_values@.map_values(|s: String| s@),
                        },
                    ),
                ),
            },
        }
    }
}

/// The selector a vector describes.
pub open spec fn selector_spec(s: SelectorInput) -> Result<SelectorRefView, Seq<char>> {
    match params_spec(s.params@) {
        Err(e) => Err(e),
        Ok(params) => match selector_return_by_name(s.return_type@) {
            None => Err("invalid SelectorReturn: "@ + s.return_type@),
            Some(rt) => Ok(
                SelectorRefView {
                    sel: s.sel@,
                    description: s.description@,
                    params,
                    cost_weight_bits: s.cost_weight.bits,
                    return_type: selector_return_number(rt),
                },
            ),
        },
    }
}

proof fn lemma_params_prefix(ps: Seq<ParamInput>, k: int)
    requires
        0 <= k <= ps.len(),
        params_spec(ps.take(k)) is Err,
    ensures
        params_spec(ps) == params_spec(ps.take(k)),
    decreases ps.len(),
{
    if k == ps.len() {
        assert(ps.take(k) =~= ps);
    } else {
        assert(ps.drop_last().take(k) =~= ps.take(k));
        lemma_params_prefix(ps.drop_last(), k);
    }
}

/// The selector a vector describes (see [`selector_spec`]).
pub fn to_selector_ref(s: &SelectorInput) -> (r: Result<SelectorRef, String>)
    ensures
        match r {
            Ok(x) => selector_spec(*s) == Ok::<SelectorRefView, Seq<char>>(x@),
            Err(e) => selector_spec(*s) == Err::<SelectorRefView, Seq<char>>(e@),
        },
{
    let mut params: Vec<ParamSpec> = Vec::new();
    let mut i: usize = 0;
    assert(s.params@.take(0) =~= Seq::<ParamInput>::empty());
    assert(params@.map_values(|p: ParamSpec| p@) =~= Seq::<ParamSpecView>::empty());
    while i < s.params.len()
        invariant
            i <= s.params.len(),
            params_spec(s.params@.take(i as int)) == Ok::<Seq<ParamSpecView>, Seq<char>>(
                params@.map_values(|p: ParamSpec| p@),
            ),
        decreases s.params.len() - i,
    {
        let p = &s.params[i];
        proof {
            assert(s.params@.take(i + 1).drop_last() =~= s.params@.take(i as int));
            assert(s.params@.take(i + 1).last() == *p);
        }
        let t = match param_type_from_str_name(p.param_type.as_str()) {
            Some(t) => t,
            None => {
                proof {
                    lemma_params_prefix(s.params@, i + 1);
                }
                return Err(concat2("invalid ParamType: ", p.param_type.as_str()));
            },
        };
        let spec = ParamSpec {
            name: owned(p.name.as_str()),
            param_type: t.wire_number(),
            enum_values: clone_strings(&p.enum_values),
        };
        let ghost before = params@;
        params.push(spec);
        assert(params@.map_values(|p: ParamSpec| p@) =~= before.map_values(|p: ParamSpec| p@).push(
            spec@,
        ));
        i += 1;
    }
    assert(s.params@.take(s.params.len() as int) =~= s.params@);
    let return_type = match selector_return_from_str_name(s.return_type.as_str()) {
        Some(rt) => rt.wire_number(),
        None => {
            return Err(concat2("invalid SelectorReturn: ", s.return_type.as_str()));
        },
    };
    Ok(
        SelectorRef {
            sel: owned(s.sel.as_str()),
            description: owned(s.description.as_str()),
            params,
            cost_weight_bits: s.cost_weight.bits,
            return_type,
        },
    )
}

/// Scalar parameters set in order.
pub open spec fn scalar_params_spec(ps: Seq<(String, ScalarValueInput)>) -> Seq<(Seq<char>, ValueView)>
    decreases ps.len(),
{
    if ps.len() == 0 {
        Seq::empty()
    } else {
        smap_insert(scalar_params_spec(ps.drop_last()), ps.last().0@, scalar_spec(ps.last().1))
    }
}

fn to_params(ps: &Vec<(String, ScalarValueInput)>) -> (m: StrMap<Value>)
    ensures
        m@ == scalar_params_spec(ps@),
{
    let mut m: StrMap<Value> = StrMap::new();
    let mut i: usize = 0;
    assert(ps@.take(0) =~= Seq::<(String, ScalarValueInput)>::empty());
    while i < ps.len()
        invariant
            i <= ps.len(),
            m@ == scalar_params_spec(ps@.take(i as int)),
        decreases ps.len() - i,
    {
        proof {
            assert(ps@.take(i + 1).drop_last() =~= ps@.take(i as int));
            assert(ps@.take(i + 1).last() == ps@[i as int]);
        }
        m.insert(owned(ps[i].0.as_str()), to_value(&ps[i].1));
        i += 1;
    }
    assert(ps@.take(ps.len() as int) =~= ps@);
    m
}

/// Bindings set in order.
pub open spec fn bindings_input_spec(bs: Seq<(String, BindingInput)>) -> Seq<(Seq<char>, ValueRefView)>
    decreases bs.len(),
{
    if bs.len() == 0 {
        Seq::empty()
    } else {
        smap_insert(
            bindings_input_spec(bs.drop_last()),
            bs.last().0@,
            ValueRefView { reg: bs.last().1.reg@, field_path: bs.last().1.field_path@ },
        )
    }
}

fn to_bindings(bs: &Vec<(String, BindingInput)>) -> (m: StrMap<ValueRef>)
    ensures
        m@ == bindings_input_spec(bs@),
{
    let mut m: StrMap<ValueRef> = StrMap::new();
    let mut i: usize = 0;
    assert(bs@.take(0) =~= Seq::<(String, BindingInput)>::empty());
    while i < bs.len()
        invariant
            i <= bs.len(),
            m@ == bindings_input_spec(bs@.take(i as int)),
        decreases bs.len() - i,
    {
        proof {
            assert(bs@.take(i + 1).drop_last() =~= bs@.take(i as int));
            assert(bs@.take(i + 1).last() == bs@[i as int]);
        }
        m.insert(
            owned(bs[i].0.as_str()),
            ValueRef {
                reg: owned(bs[i].1.reg.as_str()),
                field_path: owned(bs[i].1.field_path.as_str()),
            },
        );
        i += 1;
    }
    assert(bs@.take(bs.len() as int) =~= bs@);
    m
}

/// The citation a vector names.
pub open spec fn citation_input_spec(c: CitationInput) -> CitationRefView {
    match c {
        CitationInput::HandleRef(h) => CitationRefView { cite: Some(CiteView::HandleRef(h@)) },
        CitationInput::AnchorRef(a) => CitationRefView { cite: Some(CiteView::AnchorRef(a@)) },
    }
}

fn to_citations(cs: &Vec<CitationInput>) -> (out: Vec<CitationRef>)
    ensures
        out@.map_values(|c: CitationRef| c@) == cs@.map_values(
            |c: CitationInput| citation_input_spec(c),
        ),
{
    let mut out: Vec<CitationRef> = Vec::new();
    let mut i: usize = 0;
    while i < cs.len()
        invariant
            i <= cs.len(),
            out@.map_values(|c: CitationRef| c@) =~= cs@.take(i as int).map_values(
                |c: CitationInput| citation_input_spec(c),
            ),
        decreases cs.len() - i,
    {
        let c = match &cs[i] {
            CitationInput::HandleRef(h) => CitationRef { cite: Some(Cite::HandleRef(owned(h.as_str()))) },
            CitationInput::AnchorRef(a) => CitationRef { cite: Some(Cite::AnchorRef(owned(a.as_str()))) },
        };
        let ghost before = out@;
        out.push(c);
        proof {
            assert(out@.map_values(|c: CitationRef| c@) =~= before.map_values(|c: CitationRef| c@).push(
                c@,
            ));
            assert(cs@.take(i + 1) =~= cs@.take(i as int).push(cs@[i as int]));
        }
        i += 1;
    }
    assert(cs@.take(cs.len() as int) =~= cs@);
    out
}

/// The operation a vector step describes.
pub open spec fn op_input_spec(op: OpInput) -> Result<OpView, Seq<char>> {
    match op {
        OpInput::Fetch { handle_ref } => Ok(OpView::Fetch(OpFetchView { handle_ref: handle_ref@ })),
        OpInput::ApplySelector { selector_ref, params } => Ok(
            OpView::ApplySelector(
                OpApplySelectorView {
                    selector_ref: selector_ref@,
                    params: scalar_params_spec(params@),
                },
            ),
        ),
        OpInput::Resolve { in_reg, policy_id } => Ok(
            OpView::Resolve(OpResolveView { in_reg: in_reg@, policy_id: policy_id@ }),
        ),
        OpInput::Filter { in_reg, filter_ref, params } => Ok(
            OpView::Filter(
                OpFilterView {
                    in_reg: in_reg@,
                    filter_ref: filter_ref@,
                    params: scalar_params_spec(params@),
                },
            ),
        ),
        OpInput::Join { left_reg, right_reg, edge_type } => match edge_type_by_name(edge_type@) {
            None => Err("invalid EdgeType: "@ + edge_type@),
            Some(e) => Ok(
                OpView::Join(
                    OpJoinView {
                        left_reg: left_reg@,
                        right_reg: right_reg@,
                        edge_type: edge_type_number(e),
                    },
                ),
            ),
        },
        OpInput::Project { in_reg, field_paths } => Ok(
            OpView::Project(
                OpProjectView {
                    in_reg: in_reg@,
                    field_paths: field_paths@.map_values(|s: String| s@),
                },
            ),
        ),
        OpInput::Assert { assertion_type, bindings, citations } => match assertion_type_by_name(
            assertion_type@,
        ) {
            None => Err("invalid AssertionType: "@ + assertion_type@),
            Some(t) => Ok(
                OpView::AssertOp(
                    OpAssertView {
                        assertion_type: assertion_type_number(t),
                        bindings: bindings_input_spec(bindings@),
                        citations: citations@.map_values(|c: CitationInput| citation_input_spec(c)),
                    },
                ),
            ),
        },
    }
}

/// The step a vector describes.
pub open spec fn step_input_spec(s: StepInput) -> Result<StepView, Seq<char>> {
    match op_input_spec(s.op) {
        Err(e) => Err(e),
        Ok(op) => Ok(StepView { out: s.out@, op: Some(op) }),
    }
}

/// The step a vector describes (see [`step_input_spec`]).
pub fn to_step(s: &StepInput) -> (r: Result<Step, String>)
    ensures
        match r {
            Ok(x) => step_input_spec(*s) == Ok::<StepView, Seq<char>>(x@),
            Err(e) => step_input_spec(*s) == Err::<StepView, Seq<char>>(e@),
        },
{
    let op = match &s.op {
        OpInput::Fetch { handle_ref } => Op::Fetch(OpFetch { handle_ref: owned(handle_ref.as_str()) }),
        OpInput::ApplySelector { selector_ref, params } => Op::ApplySelector(
            OpApplySelector { selector_ref: owned(selector_ref.as_str()), params: to_params(params) },
        ),
        OpInput::Resolve { in_reg, policy_id } => Op::Resolve(
            OpResolve { in_reg: owned(in_reg.as_str()), policy_id: owned(policy_id.as_str()) },
        ),
        OpInput::Filter { in_reg, filter_ref, params } => Op::Filter(
            OpFilter {
                in_reg: owned(in_reg.as_str()),
                filter_ref: owned(filter_ref.as_str()),
                params: to_params(params),
            },
        ),
        OpInput::Join { left_reg, right_reg, edge_type } => {
            let e = match edge_type_from_str_name(edge_type.as_str()) {
                Some(e) => e,
                None => {
                    return Err(concat2("invalid EdgeType: ", edge_type.as_str()));
                },
            };
            Op::Join(
                OpJoin {
                    left_reg: owned(left_reg.as_str()),
                    right_reg: owned(right_reg.as_str()),
                    edge_type: e.number(),
                },
            )
        },
        OpInput::Project { in_reg, field_paths } => Op::Project(
            OpProject { in_reg: owned(in_reg.as_str()), field_paths: clone_strings(field_paths) },
        ),
        OpInput::Assert { assertion_type, bindings, citations } => {
            let t = match assertion_type_from_str_name(assertion_type.as_str()) {
                Some(t) => t,
                None => {
                    return Err(concat2("invalid AssertionType: ", assertion_type.as_str()));
                },
            };
            Op::AssertOp(
                OpAssert {
                    assertion_type: t.number(),
                    bindings: to_bindings(bindings),
                    citations: to_citations(citations),
                },
            )
        },
    };
    Ok(Step { out: owned(s.out.as_str()), op: Some(op) })
}

/// The execution options a vector states.
pub fn to_execute_options(input: &ExecuteOptionsInput) -> (o: ExecuteOptions)
    ensures
        o@.allow_partial_on_stall == input.allow_partial_on_stall,
        o@.degraded_mode == input.degraded_mode,
        o@.broken_lineage_handles == input.broken_lineage_handles@.map_values(|s: String| s@).to_set(),
        o@.narrative_templates == input.narrative_templates@.map_values(|s: String| s@),
{
    ExecuteOptions {
        allow_partial_on_stall: input.allow_partial_on_stall,
        degraded_mode: input.degraded_mode,
        broken_lineage_handles: clone_strings(&input.broken_lineage_handles),
        narrative_templates: clone_strings(&input.narrative_templates),
    }
}

/// Each item converted in order; the first failing item decides.
pub open spec fn handles_spec(xs: Seq<HandleInput>) -> Result<Seq<HandleRefView>, Seq<char>>
    decreases xs.len(),
{
    if xs.len() == 0 {
        Ok(Seq::empty())
    } else {
        match handles_spec(xs.drop_last()) {
            Err(e) => Err(e),
            Ok(prev) => match handle_spec(xs.last()) {
                Err(e) => Err(e),
                Ok(x) => Ok(prev.push(x)),
            },
        }
    }
}

proof fn lemma_handles_spec_prefix(xs: Seq<HandleInput>, k: int)
    requires
        0 <= k <= xs.len(),
        handles_spec(xs.take(k)) is Err,
    ensures
        handles_spec(xs) == handles_spec(xs.take(k)),
    decreases xs.len(),
{
    if k == xs.len() {
        assert(xs.take(k) =~= xs);
    } else {
        assert(xs.drop_last().take(k) =~= xs.take(k));
        lemma_handles_spec_prefix(xs.drop_last(), k);
    }
}

fn handles_spec_exec(xs: &Vec<HandleInput>) -> (r: Result<Vec<HandleRef>, String>)
    ensures
        match r {
            Ok(v) => handles_spec(xs@) == Ok::<Seq<HandleRefView>, Seq<char>>(v@.map_values(|x: HandleRef| x@)),
            Err(e) => handles_spec(xs@) == Err::<Seq<HandleRefView>, Seq<char>>(e@),
        },
{
    let mut out: Vec<HandleRef> = Vec::new();
    let mut i: usize = 0;
    assert(xs@.take(0) =~= Seq::<HandleInput>::empty());
    assert(out@.map_values(|x: HandleRef| x@) =~= Seq::<HandleRefView>::empty());
    while i < xs.len()
        invariant
            i <= xs.len(),
            handles_spec(xs@.take(i as int)) == Ok::<Seq<HandleRefView>, Seq<char>>(out@.map_values(|x: HandleRef| x@)),
        decreases xs.len() - i,
    {
        proof {
            assert(xs@.take(i + 1).drop_last() =~= xs@.take(i as int));
            assert(xs@.take(i + 1).last() == xs@[i as int]);
        }
        match to_handle_ref(&xs[i]) {
            Err(e) => {
                proof {
                    lemma_handles_spec_prefix(xs@, i + 1);
                }
                return Err(e);
            },
            Ok(x) => {
                let ghost before = out@;
                let ghost xv = x@;
                out.push(x);
                assert(out@.map_values(|x: HandleRef| x@) =~= before.map_values(|x: HandleRef| x@).push(xv));
            },
        }
        i += 1;
    }
    assert(xs@.take(xs.len() as int) =~= xs@);
    Ok(out)
}

/// Each item converted in order; the first failing item decides.
pub open spec fn selectors_spec(xs: Seq<SelectorInput>) -> Result<Seq<SelectorRefView>, Seq<char>>
    decreases xs.len(),
{
    if xs.len() == 0 {
        Ok(Seq::empty())
    } else {
        match selectors_spec(xs.drop_last()) {
            Err(e) => Err(e),
            Ok(prev) => match selector_spec(xs.last()) {
                Err(e) => Err(e),
                Ok(x) => Ok(prev.push(x)),
            },
        }
    }
}

proof fn lemma_selectors_spec_prefix(xs: Seq<SelectorInput>, k: int)
    requires
        0 <= k <= xs.len(),
        selectors_spec(xs.take(k)) is Err,
    ensures
        selectors_spec(xs) == selectors_spec(xs.take(k)),
    decreases xs.len(),
{
    if k == xs.len() {
        assert(xs.take(k) =~= xs);
    } else {
        assert(xs.drop_last().take(k) =~= xs.take(k));
        lemma_selectors_spec_prefix(xs.drop_last(), k);
    }
}

fn selectors_spec_exec(xs: &Vec<SelectorInput>) -> (r: Result<Vec<SelectorRef>, String>)
    ensures
        match r {
            Ok(v) => selectors_spec(xs@) == Ok::<Seq<SelectorRefView>, Seq<char>>(v@.map_values(|x: SelectorRef| x@)),
            Err(e) => selectors_spec(xs@) == Err::<Seq<SelectorRefView>, Seq<char>>(e@),
        },
{
    let mut out: Vec<SelectorRef> = Vec::new();
    let mut i: usize = 0;
    assert(xs@.take(0) =~= Seq::<SelectorInput>::empty());
    assert(out@.map_values(|x: SelectorRef| x@) =~= Seq::<SelectorRefView>::empty());
    while i < xs.len()
        invariant
            i <= xs.len(),
            selectors_spec(xs@.take(i as int)) == Ok::<Seq<SelectorRefView>, Seq<char>>(out@.map_values(|x: SelectorRef| x@)),
        decreases xs.len() - i,
    {
        proof {
            assert(xs@.take(i + 1).drop_last() =~= xs@.take(i as int));
            assert(xs@.take(i + 1).last() == xs@[i as int]);
        }
        match to_selector_ref(&xs[i]) {
            Err(e) => {
                proof {
                    lemma_selectors_spec_prefix(xs@, i + 1);
                }
                return Err(e);
            },
            Ok(x) => {
                let ghost before = out@;
                let ghost xv = x@;
                out.push(x);
                assert(out@.map_values(|x: SelectorRef| x@) =~= before.map_values(|x: SelectorRef| x@).push(xv));
            },
        }
        i += 1;
    }
    assert(xs@.take(xs.len() as int) =~= xs@);
    Ok(out)
}

/// Each item converted in order; the first failing item decides.
pub open spec fn steps_input_spec(xs: Seq<StepInput>) -> Result<Seq<StepView>, Seq<char>>
    decreases xs.len(),
{
    if xs.len() == 0 {
        Ok(Seq::empty())
    } else {
        match steps_input_spec(xs.drop_last()) {
            Err(e) => Err(e),
            Ok(prev) => match step_input_spec(xs.last()) {
                Err(e) => Err(e),
                Ok(x) => Ok(prev.push(x)),
            },
        }
    }
}

proof fn lemma_steps_input_spec_prefix(xs: Seq<StepInput>, k: int)
    requires
        0 <= k <= xs.len(),
        steps_input_spec(xs.take(k)) is Err,
    ensures
        steps_input_spec(xs) == steps_input_spec(xs.take(k)),
    decreases xs.len(),
{
    if k == xs.len() {
        assert(xs.take(k) =~= xs);
    } else {
        assert(xs.drop_last().take(k) =~= xs.take(k));
        lemma_steps_input_spec_prefix(xs.drop_last(), k);
    }
}

fn steps_input_spec_exec(xs: &Vec<StepInput>) -> (r: Result<Vec<Step>, String>)
    ensures
        match r {
            Ok(v) => steps_input_spec(xs@) == Ok::<Seq<StepView>, Seq<char>>(v@.map_values(|x: Step| x@)),
            Err(e) => steps_input_spec(xs@) == Err::<Seq<StepView>, Seq<char>>(e@),
        },
{
    let mut out: Vec<Step> = Vec::new();
    let mut i: usize = 0;
    assert(xs@.take(0) =~= Seq::<StepInput>::empty());
    assert(out@.map_values(|x: Step| x@) =~= Seq::<StepView>::empty());
    while i < xs.len()
        invariant
            i <= xs.len(),
            steps_input_spec(xs@.take(i as int)) == Ok::<Seq<StepView>, Seq<char>>(out@.map_values(|x: Step| x@)),
        decreases xs.len() - i,
    {
        proof {
            assert(xs@.take(i + 1).drop_last() =~= xs@.take(i as int));
            assert(xs@.take(i + 1).last() == xs@[i as int]);
        }
        match to_step(&xs[i]) {
            Err(e) => {
                proof {
                    lemma_steps_input_spec_prefix(xs@, i + 1);
                }
                return Err(e);
            },
            Ok(x) => {
                let ghost before = out@;
                let ghost xv = x@;
                out.push(x);
                assert(out@.map_values(|x: Step| x@) =~= before.map_values(|x: Step| x@).push(xv));
            },
        }
        i += 1;
    }
    assert(xs@.take(xs.len() as int) =~= xs@);
    Ok(out)
}

/// The context variable a vector states.
pub open spec fn context_spec(c: ContextVarInput) -> ContextVarView {
    ContextVarView { name: c.name@, value: Some(scalar_spec(c.value)) }
}

/// The execute request a vector describes: its manifest (handles, then
/// selectors converted, the first failure deciding) and its plan.
pub open spec fn request_spec(v: ConformanceVector) -> Result<ExecuteRequestView, Seq<char>> {
    match handles_spec(v.manifest.handles@) {
        Err(e) => Err(e),
        Ok(hs) => match selectors_spec(v.manifest.selectors@) {
            Err(e) => Err(e),
            Ok(ss) => match steps_input_spec(v.plan.steps@) {
                Err(e) => Err(e),
                Ok(steps) => Ok(
                    ExecuteRequestView {
                        manifest: Some(
                            PublicManifestView {
                                request_id: v.manifest.request_id@,
                                handles: hs,
                                selectors: ss,
                                context: v.manifest.context@.map_values(
                                    |c: ContextVarInput| context_spec(c),
                                ),
                                budget: match v.manifest.budget {
                                    Some(b) => Some(
                                        PlanBudgetView {
                                            max_ops: b.max_ops,
                                            max_join_depth: b.max_join_depth,
                                            max_fanout: b.max_fanout,
                                            max_total_cost_bits: b.max_total_cost.bits,
                                        },
                                    ),
                                    None => None,
                                },
                            },
                        ),
                        plan: Some(
                            RmvmPlanView {
                                request_id: v.plan.request_id@,
                                steps,
                                outputs: v.plan.outputs@.map_values(
                                    |o: String| OutputSpecView { reg: o@ },
                                ),
                            },
                        ),
                    },
                ),
            },
        },
    }
}

/// The execute request a vector describes (see [`request_spec`]).
pub fn to_execute_request(v: &ConformanceVector) -> (r: Result<ExecuteRequest, String>)
    ensures
        match r {
            Ok(x) => request_spec(*v) == Ok::<ExecuteRequestView, Seq<char>>(x@),
            Err(e) => request_spec(*v) == Err::<ExecuteRequestView, Seq<char>>(e@),
        },
{
    let handles = match handles_spec_exec(&v.manifest.handles) {
        Ok(h) => h,
        Err(e) => {
            return Err(e);
        },
    };
    let selectors = match selectors_spec_exec(&v.manifest.selectors) {
        Ok(s) => s,
        Err(e) => {
            return Err(e);
        },
    };
    let mut context: Vec<ContextVar> = Vec::new();
    let mut i: usize = 0;
    while i < v.manifest.context.len()
        invariant
            i <= v.manifest.context.len(),
            context@.map_values(|c: ContextVar| c@) =~= v.manifest.context@.take(i as int).map_values(
                |c: ContextVarInput| context_spec(c),
            ),
        decreases v.manifest.context.len() - i,
    {
        let c = &v.manifest.context[i];
        let cv = ContextVar { name: owned(c.name.as_str()), value: Some(to_value(&c.value)) };
        let ghost before = context@;
        context.push(cv);
        proof {
            assert(context@.map_values(|c: ContextVar| c@) =~= before.map_values(|c: ContextVar| c@).push(
                cv@,
            ));
            assert(v.manifest.context@.take(i + 1) =~= v.manifest.context@.take(i as int).push(*c));
        }
        i += 1;
    }
    assert(v.manifest.context@.take(v.manifest.context.len() as int) =~= v.manifest.context@);
    let budget = match &v.manifest.budget {
        Some(b) => Some(
            PlanBudget {
                max_ops: b.max_ops,
                max_join_depth: b.max_join_depth,
                max_fanout: b.max_fanout,
                max_total_cost_bits: b.max_total_cost.bits,
            },
        ),
        None => None,
    };
    let steps = match steps_input_spec_exec(&v.plan.steps) {
        Ok(s) => s,
        Err(e) => {
            return Err(e);
        },
    };
    let mut outputs: Vec<OutputSpec> = Vec::new();
    let mut j: usize = 0;
    while j < v.plan.outputs.len()
        invariant
            j <= v.plan.outputs.len(),
            outputs@.map_values(|o: OutputSpec| o@) =~= v.plan.outputs@.take(j as int).map_values(
                |o: String| OutputSpecView { reg: o@ },
            ),
        decreases v.plan.outputs.len() - j,
    {
        let o = OutputSpec { reg: owned(v.plan.outputs[j].as_str()) };
        let ghost before = outputs@;
        outputs.push(o);
        proof {
            assert(outputs@.map_values(|o: OutputSpec| o@) =~= before.map_values(|o: OutputSpec| o@).push(
                o@,
            ));
            assert(v.plan.outputs@.take(j + 1) =~= v.plan.outputs@.take(j as int).push(
                v.plan.outputs@[j as int],
            ));
        }
        j += 1;
    }
    assert(v.plan.outputs@.take(v.plan.outputs.len() as int) =~= v.plan.outputs@);
    let manifest = PublicManifest {
        request_id: owned(v.manifest.request_id.as_str()),
        handles,
        selectors,
        context,
        budget,
    };
    let plan = RmvmPlan { request_id: owned(v.plan.request_id.as_str()), steps, outputs };
    let r = ExecuteRequest { manifest: Some(manifest), plan: Some(plan) };
    assert(r@ =~= request_spec(*v)->Ok_0);
    Ok(r)
}

} // verus!
