//! FETCH and APPLY_SELECTOR, and the register helpers every operation uses.
use vstd::prelude::*;

use crate::kernel::fields::{
    check_params, handle_field, handle_field_spec, handle_tier, handle_tier_exec,
    selector_match, selector_match_spec, validate_param_specs,
};
use crate::kernel::options::{ExecuteOptions, NormalizedBudget, OptionsView};
use crate::kernel::regs::{
    clone_handles, fail, min_tier, min_tier_exec, rejected, ExecStop, RegData, RegDataView,
    RegValue, RegView, SourceKind, StopView,
};
use crate::proto::{
    availability_from, availability_from_i32, selector_return_from, selector_return_from_i32,
    ErrorCode, HandleAvailability, HandleRef, HandleRefView, OpApplySelector,
    OpApplySelectorView, OpFetch, OpFetchView, PublicManifest, PublicManifestView, SelectorRef,
    SelectorRefView, SelectorReturn, StallInfo, StallInfoView, TrustTier, Value, ValueKind,
    ValueKindView, ValueView,
};
use crate::smap::{smap_get, smap_insert, StrMap};
use crate::sort::{sort_by_key, sort_stable, SortKey};
use crate::text::{concat2, owned, str_eq};

verus! {

impl SortKey for HandleRef {
    open spec fn key_of(v: HandleRefView) -> Seq<char> {
        v.ref_id
    }

    fn sort_key(&self) -> (k: &String) {
        &self.ref_id
    }
}

/// Handles sorted stably by reference.
pub open spec fn sort_by_ref(hs: Seq<HandleRefView>) -> Seq<HandleRefView> {
    sort_stable(hs, |h: HandleRefView| h.ref_id)
}

/// Stably sorts handles by reference.
pub fn sort_handles(hs: Vec<HandleRef>) -> (out: Vec<HandleRef>)
    ensures
        out@.map_values(|h: HandleRef| h@) == sort_by_ref(hs@.map_values(|h: HandleRef| h@)),
{
    let out = sort_by_key(hs);
    proof {
        let k1 = |m: HandleRefView| HandleRef::key_of(m);
        let k2 = |h: HandleRefView| h.ref_id;
        assert(k1 == k2);
    }
    out
}

/// The models of a vector of handles.
pub open spec fn hviews(hs: Seq<HandleRef>) -> Seq<HandleRefView> {
    hs.map_values(|h: HandleRef| h@)
}

/// The last handle with reference `r` (the manifest's handle index).
pub open spec fn find_handle(hs: Seq<HandleRefView>, r: Seq<char>) -> Option<HandleRefView>
    decreases hs.len(),
{
    if hs.len() == 0 {
        None
    } else if hs.last().ref_id == r {
        Some(hs.last())
    } else {
        find_handle(hs.drop_last(), r)
    }
}

/// The last selector named `r` (the manifest's selector index).
pub open spec fn find_selector(ss: Seq<SelectorRefView>, r: Seq<char>) -> Option<SelectorRefView>
    decreases ss.len(),
{
    if ss.len() == 0 {
        None
    } else if ss.last().sel == r {
        Some(ss.last())
    } else {
        find_selector(ss.drop_last(), r)
    }
}

pub fn find_handle_exec<'a>(hs: &'a Vec<HandleRef>, r: &str) -> (out: Option<&'a HandleRef>)
    ensures
        match out {
            Some(h) => find_handle(hviews(hs@), r@) == Some(h@),
            None => find_handle(hviews(hs@), r@) is None,
        },
{
    let ghost v = hviews(hs@);
    let mut i: usize = hs.len();
    assert(v.take(i as int) =~= v);
    while i > 0
        invariant
            i <= hs.len(),
            v == hviews(hs@),
            find_handle(v, r@) == find_handle(v.take(i as int), r@),
        decreases i,
    {
        proof {
            assert(v.take(i as int).drop_last() =~= v.take(i - 1));
            assert(v.take(i as int).last() == hs@[i - 1]@);
        }
        if str_eq(hs[i - 1].ref_id.as_str(), r) {
            return Some(&hs[i - 1]);
        }
        i -= 1;
    }
    None
}

pub fn find_selector_exec<'a>(ss: &'a Vec<SelectorRef>, r: &str) -> (out: Option<&'a SelectorRef>)
    ensures
        match out {
            Some(s) => find_selector(ss@.map_values(|x: SelectorRef| x@), r@) == Some(s@),
            None => find_selector(ss@.map_values(|x: SelectorRef| x@), r@) is None,
        },
{
    let ghost v = ss@.map_values(|x: SelectorRef| x@);
    let mut i: usize = ss.len();
    assert(v.take(i as int) =~= v);
    while i > 0
        invariant
            i <= ss.len(),
            v == ss@.map_values(|x: SelectorRef| x@),
            find_selector(v, r@) == find_selector(v.take(i as int), r@),
        decreases i,
    {
        proof {
            assert(v.take(i as int).drop_last() =~= v.take(i - 1));
            assert(v.take(i as int).last() == ss@[i - 1]@);
        }
        if str_eq(ss[i - 1].sel.as_str(), r) {
            return Some(&ss[i - 1]);
        }
        i -= 1;
    }
    None
}

/// The taint classes of a handle.
pub open spec fn handle_taint(h: HandleRefView) -> Set<i32> {
    match h.meta {
        Some(m) => m.taint.to_set(),
        None => Set::empty(),
    }
}

fn handle_taint_exec(h: &HandleRef) -> (r: Vec<i32>)
    ensures
        r@.to_set() == handle_taint(h@),
{
    match &h.meta {
        Some(m) => crate::proto::clone_plain_vec(&m.taint),
        None => {
            let v: Vec<i32> = Vec::new();
            assert(v@.to_set() =~= Set::<i32>::empty());
            v
        },
    }
}

/// FETCH: the handle, a stall when it is not ready, or an empty set when
/// partial results are allowed.
pub open spec fn fetch_spec(
    fetch: OpFetchView,
    handles: Seq<HandleRefView>,
    opts: OptionsView,
) -> Result<RegView, StopView> {
    match find_handle(handles, fetch.handle_ref) {
        None => Err(rejected(ErrorCode::UnknownHandleRef, "unknown handle_ref in FETCH execution")),
        Some(h) => if availability_from(h.availability) != HandleAvailability::Ready {
            if !opts.allow_partial_on_stall {
                Err(
                    StopView::Stall(
                        StallInfoView {
                            handle_ref: h.ref_id,
                            availability: h.availability,
                            estimated_ready_at: None,
                            retrieval_ticket: "ticket:"@ + h.ref_id,
                        },
                    ),
                )
            } else {
                Ok(
                    RegView {
                        data: RegDataView::HandleSet(Seq::empty()),
                        provenance: Set::empty(),
                        taint: Set::empty(),
                        min_trust: TrustTier::Unspecified,
                        join_depth: 0,
                        source: SourceKind::Fetch,
                    },
                )
            }
        } else {
            Ok(
                RegView {
                    data: RegDataView::Handle(h),
                    provenance: set![h.ref_id],
                    taint: handle_taint(h),
                    min_trust: handle_tier(h),
                    join_depth: 0,
                    source: SourceKind::Fetch,
                },
            )
        },
    }
}

/// FETCH.
pub fn exec_fetch(fetch: &OpFetch, manifest: &PublicManifest, opts: &ExecuteOptions) -> (r: Result<
    RegValue,
    ExecStop,
>)
    ensures
        match r {
            Ok(v) => fetch_spec(fetch@, hviews(manifest.handles@), opts@) == Ok::<
                RegView,
                StopView,
            >(v@),
            Err(e) => fetch_spec(fetch@, hviews(manifest.handles@), opts@) == Err::<
                RegView,
                StopView,
            >(e@),
        },
{
    let handle = match find_handle_exec(&manifest.handles, fetch.handle_ref.as_str()) {
        Some(h) => h,
        None => {
            return Err(fail(ErrorCode::UnknownHandleRef, "unknown handle_ref in FETCH execution"));
        },
    };
    if availability_from_i32(handle.availability) != HandleAvailability::Ready {
        let stall = StallInfo {
            handle_ref: handle.ref_id.clone(),
            availability: handle.availability,
            estimated_ready_at: None,
            retrieval_ticket: concat2("ticket:", handle.ref_id.as_str()),
        };
        if !opts.allow_partial_on_stall {
            return Err(ExecStop::Stall(stall));
        }
        let empty: Vec<HandleRef> = Vec::new();
        assert(hviews(empty@) =~= Seq::<HandleRefView>::empty());
        let r = RegValue {
            data: RegData::HandleSet(empty),
            provenance: Vec::new(),
            taint: Vec::new(),
            min_trust: TrustTier::Unspecified,
            join_depth: 0,
            source: SourceKind::Fetch,
        };
        assert(r@.data == RegDataView::HandleSet(Seq::empty()));
        assert(r@.provenance =~= Set::<Seq<char>>::empty());
        assert(r@.taint =~= Set::<i32>::empty());
        return Ok(r);
    }
    let mut provenance: Vec<String> = Vec::new();
    provenance.push(handle.ref_id.clone());
    let r = RegValue {
        data: RegData::Handle(handle.clone()),
        provenance,
        taint: handle_taint_exec(handle),
        min_trust: handle_tier_exec(handle),
        join_depth: 0,
        source: SourceKind::Fetch,
    };
    proof {
        assert(r@.provenance =~= set![handle@.ref_id]) by {
            let pv = r.provenance@.map_values(|s: String| s@);
            assert(pv =~= seq![handle@.ref_id]);
            assert(pv[0] == handle@.ref_id);
            assert(pv.to_set() =~= set![handle@.ref_id]);
        };
    }
    Ok(r)
}

/// The handles of a register holding a handle or a handle set.
pub open spec fn as_handles_spec(d: RegDataView) -> Result<Seq<HandleRefView>, StopView> {
    match d {
        RegDataView::Handle(h) => Ok(seq![h]),
        RegDataView::HandleSet(hs) => Ok(hs),
        RegDataView::Struct(_) => Err(
            rejected(ErrorCode::TypeMismatch, "operation requires HANDLE or HANDLE_SET"),
        ),
    }
}

/// The handles of a register holding a handle or a handle set.
pub fn as_handles(d: &RegData) -> (r: Result<Vec<HandleRef>, ExecStop>)
    ensures
        match r {
            Ok(hs) => as_handles_spec(d@) == Ok::<Seq<HandleRefView>, StopView>(hviews(hs@)),
            Err(e) => as_handles_spec(d@) == Err::<Seq<HandleRefView>, StopView>(e@),
        },
{
    match d {
        RegData::Handle(h) => {
            let mut v = Vec::new();
            v.push(h.clone());
            assert(hviews(v@) =~= seq![h@]);
            Ok(v)
        },
        RegData::HandleSet(hs) => Ok(clone_handles(hs)),
        RegData::Struct(_) => Err(
            fail(ErrorCode::TypeMismatch, "operation requires HANDLE or HANDLE_SET"),
        ),
    }
}

/// The value a binding reads from a register.
pub open spec fn binding_value_spec(d: RegDataView, path: Seq<char>) -> Result<ValueView, StopView> {
    match d {
        RegDataView::Handle(h) => match handle_field_spec(h, path) {
            Some(v) => Ok(v),
            None => Err(rejected(ErrorCode::FieldRedacted, "binding path missing on handle")),
        },
        RegDataView::Struct(m) => match smap_get(m, path) {
            Some(v) => Ok(v),
            None => Err(rejected(ErrorCode::FieldRedacted, "binding path missing in struct")),
        },
        RegDataView::HandleSet(_) => Err(
            rejected(ErrorCode::TypeMismatch, "cannot bind directly from handle set"),
        ),
    }
}

/// The value a binding reads from a register.
pub fn extract_binding_value(d: &RegData, path: &str) -> (r: Result<Value, ExecStop>)
    ensures
        match r {
            Ok(v) => binding_value_spec(d@, path@) == Ok::<ValueView, StopView>(v@),
            Err(e) => binding_value_spec(d@, path@) == Err::<ValueView, StopView>(e@),
        },
{
    match d {
        RegData::Handle(h) => match handle_field(h, path) {
            Some(v) => Ok(v),
            None => Err(fail(ErrorCode::FieldRedacted, "binding path missing on handle")),
        },
        RegData::Struct(m) => match m.get(path) {
            Some(v) => Ok(v.clone()),
            None => Err(fail(ErrorCode::FieldRedacted, "binding path missing in struct")),
        },
        RegData::HandleSet(_) => Err(
            fail(ErrorCode::TypeMismatch, "cannot bind directly from handle set"),
        ),
    }
}

/// The handles the selector parameters accept, in manifest order.
pub open spec fn select_handles(hs: Seq<HandleRefView>, params: Seq<(Seq<char>, ValueView)>) -> Seq<
    HandleRefView,
>
    decreases hs.len(),
{
    if hs.len() == 0 {
        Seq::empty()
    } else if selector_match_spec(hs.last(), params) {
        select_handles(hs.drop_last(), params).push(hs.last())
    } else {
        select_handles(hs.drop_last(), params)
    }
}

/// The union of the taint classes of some handles.
pub open spec fn taint_union(hs: Seq<HandleRefView>) -> Set<i32>
    decreases hs.len(),
{
    if hs.len() == 0 {
        Set::empty()
    } else {
        taint_union(hs.drop_last()).union(handle_taint(hs.last()))
    }
}

/// The lowest tier among some handles, starting from the top tier.
pub open spec fn tier_fold(hs: Seq<HandleRefView>) -> TrustTier
    decreases hs.len(),
{
    if hs.len() == 0 {
        TrustTier::Tier4PolicySigned
    } else {
        min_tier(tier_fold(hs.drop_last()), handle_tier(hs.last()))
    }
}

/// `m` with every entry of `es` set, in order.
pub open spec fn insert_all(m: Seq<(Seq<char>, ValueView)>, es: Seq<(Seq<char>, ValueView)>) -> Seq<
    (Seq<char>, ValueView),
>
    decreases es.len(),
{
    if es.len() == 0 {
        m
    } else {
        smap_insert(insert_all(m, es.drop_last()), es.last().0, es.last().1)
    }
}

/// An integer value.
pub open spec fn i64_val(i: i64) -> ValueView {
    ValueView { v: Some(ValueKindView::I64(i)) }
}

/// APPLY_SELECTOR.
pub open spec fn apply_selector_spec(
    apply: OpApplySelectorView,
    manifest: PublicManifestView,
    budget: NormalizedBudget,
) -> Result<RegView, StopView> {
    match find_selector(manifest.selectors, apply.selector_ref) {
        None => Err(
            rejected(
                ErrorCode::UnknownSelectorRef,
                "unknown selector_ref in APPLY_SELECTOR execution",
            ),
        ),
        Some(sel) => match check_params(sel.params, apply.params) {
            Err(e) => Err(e),
            Ok(_) => {
                let matched = sort_by_ref(select_handles(manifest.handles, apply.params));
                if matched.len() > budget.max_fanout {
                    Err(
                        rejected(
                            ErrorCode::GraphTraversalLimit,
                            "selector fanout exceeded max_fanout",
                        ),
                    )
                } else {
                    let provenance = matched.map_values(|h: HandleRefView| h.ref_id).to_set();
                    let taint = taint_union(matched);
                    let min_trust = if matched.len() == 0 {
                        TrustTier::Unspecified
                    } else {
                        tier_fold(matched)
                    };
                    let data = match selector_return_from(sel.return_type) {
                        SelectorReturn::ReturnHandle => if matched.len() == 0 {
                            Err(rejected(ErrorCode::TypeMismatch, "selector returned zero rows"))
                        } else {
                            Ok(RegDataView::Handle(matched[0]))
                        },
                        SelectorReturn::ReturnHandleSet => Ok(RegDataView::HandleSet(matched)),
                        SelectorReturn::ReturnStruct => Ok(
                            RegDataView::Struct(
                                insert_all(
                                    seq![
                                        ("matched_count"@, i64_val(
                                            manifest.handles.len() as i64,
                                        )),
                                    ],
                                    apply.params,
                                ),
                            ),
                        ),
                        SelectorReturn::Unspecified => Err(
                            rejected(ErrorCode::SchemaViolation, "selector return_type unspecified"),
                        ),
                    };
                    match data {
                        Err(e) => Err(e),
                        Ok(d) => Ok(
                            RegView {
                                data: d,
                                provenance,
                                taint,
                                min_trust,
                                join_depth: 0,
                                source: SourceKind::ApplySelector,
                            },
                        ),
                    }
                }
            },
        },
    }
}

fn select_handles_exec(hs: &Vec<HandleRef>, params: &StrMap<Value>) -> (out: Vec<HandleRef>)
    ensures
        hviews(out@) == select_handles(hviews(hs@), params@),
{
    let mut out: Vec<HandleRef> = Vec::new();
    let mut i: usize = 0;
    while i < hs.len()
        invariant
            i <= hs.len(),
            hviews(out@) == select_handles(hviews(hs@).take(i as int), params@),
        decreases hs.len() - i,
    {
        proof {
            let t = hviews(hs@).take(i + 1);
            assert(t.drop_last() =~= hviews(hs@).take(i as int));
            assert(t.last() == hs@[i as int]@);
        }
        if selector_match(&hs[i], params) {
            out.push(hs[i].clone());
            assert(hviews(out@) =~= hviews(out@).drop_last().push(hs@[i as int]@));
        }
        i += 1;
    }
    assert(hviews(hs@).take(hs.len() as int) =~= hviews(hs@));
    out
}

/// Provenance, taint and lowest tier of a handle list.
fn summarize(hs: &Vec<HandleRef>) -> (r: (Vec<String>, Vec<i32>, TrustTier))
    ensures
        r.0@.map_values(|s: String| s@).to_set() == hviews(hs@).map_values(
            |h: HandleRefView| h.ref_id,
        ).to_set(),
        r.1@.to_set() == taint_union(hviews(hs@)),
        r.2 == tier_fold(hviews(hs@)),
{
    let mut prov: Vec<String> = Vec::new();
    let mut taint: Vec<i32> = Vec::new();
    let mut tier = TrustTier::Tier4PolicySigned;
    let mut i: usize = 0;
    while i < hs.len()
        invariant
            i <= hs.len(),
            prov@.map_values(|s: String| s@) == hviews(hs@).take(i as int).map_values(
                |h: HandleRefView| h.ref_id,
            ),
            taint@.to_set() == taint_union(hviews(hs@).take(i as int)),
            tier == tier_fold(hviews(hs@).take(i as int)),
        decreases hs.len() - i,
    {
        let ghost t = hviews(hs@).take(i + 1);
        proof {
            assert(t.drop_last() =~= hviews(hs@).take(i as int));
            assert(t.last() == hs@[i as int]@);
        }
        let ghost old_prov = prov@;
        prov.push(hs[i].ref_id.clone());
        proof {
            assert(prov@.map_values(|s: String| s@) =~= old_prov.map_values(|s: String| s@).push(
                hs@[i as int]@.ref_id,
            ));
            assert(t.map_values(|h: HandleRefView| h.ref_id) =~= t.drop_last().map_values(
                |h: HandleRefView| h.ref_id,
            ).push(t.last().ref_id));
        }
        let ht = handle_taint_exec(&hs[i]);
        let ghost old_taint = taint@;
        let mut j: usize = 0;
        while j < ht.len()
            invariant
                j <= ht.len(),
                taint@ == old_taint + ht@.take(j as int),
            decreases ht.len() - j,
        {
            taint.push(ht[j]);
            j += 1;
            assert(ht@.take(j as int) =~= ht@.take(j - 1).push(ht@[j - 1]));
        }
        tier = min_tier_exec(tier, handle_tier_exec(&hs[i]));
        proof {
            assert(ht@.take(ht.len() as int) =~= ht@);
            crate::text::lemma_to_set_add(old_taint, ht@);
            assert(taint@ =~= old_taint + ht@);
            assert(prov@.map_values(|s: String| s@) =~= t.map_values(|h: HandleRefView| h.ref_id));
        }
        i += 1;
    }
    assert(hviews(hs@).take(hs.len() as int) =~= hviews(hs@));
    (prov, taint, tier)
}

/// An integer value.
pub fn i64_value(i: i64) -> (v: Value)
    ensures
        v@ == i64_val(i),
{
    Value { v: Some(ValueKind::I64(i)) }
}

/// APPLY_SELECTOR.
pub fn exec_apply_selector(
    apply: &OpApplySelector,
    manifest: &PublicManifest,
    budget: NormalizedBudget,
) -> (r: Result<RegValue, ExecStop>)
    ensures
        match r {
            Ok(v) => apply_selector_spec(apply@, manifest@, budget) == Ok::<RegView, StopView>(v@),
            Err(e) => apply_selector_spec(apply@, manifest@, budget) == Err::<RegView, StopView>(
                e@,
            ),
        },
{
    let selector = match find_selector_exec(&manifest.selectors, apply.selector_ref.as_str()) {
        Some(s) => s,
        None => {
            return Err(
                fail(
                    ErrorCode::UnknownSelectorRef,
                    "unknown selector_ref in APPLY_SELECTOR execution",
                ),
            );
        },
    };
    match validate_param_specs(&selector.params, &apply.params) {
        Err(e) => {
            return Err(e);
        },
        Ok(_) => {},
    }
    let selected = select_handles_exec(&manifest.handles, &apply.params);
    let matched = sort_handles(selected);
    if matched.len() as u64 > budget.max_fanout as u64 {
        return Err(fail(ErrorCode::GraphTraversalLimit, "selector fanout exceeded max_fanout"));
    }
    let (provenance, taint, tier) = summarize(&matched);
    let min_trust = if matched.len() == 0 {
        TrustTier::Unspecified
    } else {
        tier
    };
    let data = match selector_return_from_i32(selector.return_type) {
        SelectorReturn::ReturnHandle => {
            if matched.len() == 0 {
                return Err(fail(ErrorCode::TypeMismatch, "selector returned zero rows"));
            }
            RegData::Handle(matched[0].clone())
        },
        SelectorReturn::ReturnHandleSet => RegData::HandleSet(matched),
        SelectorReturn::ReturnStruct => {
            let mut out: StrMap<Value> = StrMap::new();
            out.insert(owned("matched_count"), i64_value(manifest.handles.len() as i64));
            let ghost first = out@;
            let mut i: usize = 0;
            while i < apply.params.len()
                invariant
                    i <= apply.params@.len(),
                    out@ == insert_all(first, apply.params@.take(i as int)),
                decreases apply.params@.len() - i,
            {
                proof {
                    let t = apply.params@.take(i + 1);
                    assert(t.drop_last() =~= apply.params@.take(i as int));
                }
                out.insert(apply.params.key_at(i).clone(), apply.params.value_at(i).clone());
                i += 1;
            }
            proof {
                assert(apply.params@.take(apply.params@.len() as int) =~= apply.params@);
                assert(first =~= seq![("matched_count"@, i64_val(manifest.handles.len() as i64))]);
            }
            RegData::Struct(out)
        },
        SelectorReturn::Unspecified => {
            return Err(fail(ErrorCode::SchemaViolation, "selector return_type unspecified"));
        },
    };
    Ok(
        RegValue {
            data,
            provenance,
            taint,
            min_trust,
            join_depth: 0,
            source: SourceKind::ApplySelector,
        },
    )
}

} // verus!
