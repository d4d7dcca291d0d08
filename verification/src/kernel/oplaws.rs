//! What RESOLVE, FILTER, JOIN and PROJECT promise of their results, stated
//! over the handles they read.
use vstd::prelude::*;

use crate::kernel::fields::{as_string, filter_spec, handle_field_spec, handle_rank, value_to_tier_rank};
use crate::kernel::ops::{as_handles_spec, i64_val, sort_by_ref};
use crate::kernel::ops2::{
    best_key, count_key, edge_holds, filter_all, filter_op_spec, first_key_idx, join_inner,
    join_outer, key_above, project_data, project_handle, rank_key, recency, resolve_spec,
};
use crate::kernel::options::NormalizedBudget;
use crate::kernel::regs::{reg_lookup, RegDataView, RegView, StopView};
use crate::proto::{EdgeType, HandleRefView, OpFilterView, OpResolveView, ValueKindView, ValueView};
use crate::smap::{smap_get, smap_insert};

verus! {

// ----------------------------------------------------------------------
// FETCH and APPLY_SELECTOR
// ----------------------------------------------------------------------

proof fn lemma_find_handle(hs: Seq<HandleRefView>, r: Seq<char>)
    ensures
        crate::kernel::ops::find_handle(hs, r) matches Some(h) ==> h.ref_id == r && hs.contains(h),
        crate::kernel::ops::find_handle(hs, r) is None ==> forall|i: int| 0 <= i < hs.len() ==> (#[trigger] hs[i]).ref_id != r,
    decreases hs.len(),
{
    if hs.len() > 0 {
        lemma_find_handle(hs.drop_last(), r);
        if crate::kernel::ops::find_handle(hs, r) is Some {
            if hs.last().ref_id == r {
                assert(hs[hs.len() - 1] == hs.last());
            } else {
                let h = crate::kernel::ops::find_handle(hs, r)->Some_0;
                let k = choose|k: int| 0 <= k < hs.drop_last().len() && hs.drop_last()[k] == h;
                assert(hs[k] == h);
            }
        } else {
            assert forall|i: int| 0 <= i < hs.len() implies (#[trigger] hs[i]).ref_id != r by {
                if i < hs.len() - 1 {
                    assert(hs[i] == hs.drop_last()[i]);
                }
            };
        }
    }
}

/// FETCH reads the handle it names: a reference the manifest did not issue
/// is refused; a handle that is not READY stalls on that handle (or, when
/// partial results are allowed, yields an empty set); otherwise the
/// register holds the manifest's handle of that reference, and its
/// provenance is that reference.
pub proof fn lemma_fetch_reads_named(
    fetch: crate::proto::OpFetchView,
    handles: Seq<HandleRefView>,
    opts: crate::kernel::options::OptionsView,
)
    ensures
        (forall|i: int| 0 <= i < handles.len() ==> (#[trigger] handles[i]).ref_id != fetch.handle_ref) ==> (
        crate::kernel::ops::fetch_spec(fetch, handles, opts) matches Err(StopView::Failure(code, _, _)) && code
            == crate::proto::ErrorCode::UnknownHandleRef),
        crate::kernel::ops::fetch_spec(fetch, handles, opts) matches Err(StopView::Stall(st)) ==> st.handle_ref
            == fetch.handle_ref && !opts.allow_partial_on_stall,
        crate::kernel::ops::fetch_spec(fetch, handles, opts) matches Ok(out) ==> (match out.data {
            RegDataView::Handle(h) => handles.contains(h) && h.ref_id == fetch.handle_ref
                && crate::proto::availability_from(h.availability) == crate::proto::HandleAvailability::Ready
                && out.provenance == set![fetch.handle_ref],
            RegDataView::HandleSet(hs) => hs.len() == 0 && opts.allow_partial_on_stall,
            RegDataView::Struct(_) => false,
        }),
{
    lemma_find_handle(handles, fetch.handle_ref);
    if exists|i: int| 0 <= i < handles.len() && (#[trigger] handles[i]).ref_id == fetch.handle_ref {
        let i = choose|i: int| 0 <= i < handles.len() && (#[trigger] handles[i]).ref_id == fetch.handle_ref;
        assert(handles[i].ref_id == fetch.handle_ref);
    }
}

/// The handles a selector's parameters name by subject and type: a
/// `subject` parameter matches the handle's subject, a `type_id` parameter
/// its type.
pub open spec fn meets_params(h: HandleRefView, params: Seq<(Seq<char>, ValueView)>) -> bool {
    forall|i: int|
        0 <= i < params.len() ==> (#[trigger] params[i].0 == "subject"@ ==> crate::kernel::fields::subject_of(h)
            == as_string(Some(params[i].1))) && (params[i].0 == "type_id"@ ==> Some(h.type_id) == as_string(
            Some(params[i].1),
        ))
}

proof fn lemma_select_sound(hs: Seq<HandleRefView>, params: Seq<(Seq<char>, ValueView)>)
    ensures
        forall|j: int|
            0 <= j < crate::kernel::ops::select_handles(hs, params).len() ==> hs.contains(
                #[trigger] crate::kernel::ops::select_handles(hs, params)[j],
            ) && meets_params(crate::kernel::ops::select_handles(hs, params)[j], params),
    decreases hs.len(),
{
    reveal_strlit("subject");
    reveal_strlit("type_id");
    assert("subject"@[0] != "type_id"@[0]);
    if hs.len() > 0 {
        lemma_select_sound(hs.drop_last(), params);
        let sel = crate::kernel::ops::select_handles(hs, params);
        let prev = crate::kernel::ops::select_handles(hs.drop_last(), params);
        assert forall|j: int| 0 <= j < sel.len() implies hs.contains(#[trigger] sel[j]) && meets_params(sel[j], params) by {
            if j < prev.len() {
                assert(sel[j] == prev[j]);
                let k = choose|k: int| 0 <= k < hs.drop_last().len() && hs.drop_last()[k] == prev[j];
                assert(hs[k] == prev[j]);
            } else {
                assert(sel[j] == hs.last());
                assert(hs[hs.len() - 1] == hs.last());
                assert(crate::kernel::fields::selector_match_spec(hs.last(), params));
                assert forall|i: int| 0 <= i < params.len() implies (#[trigger] params[i].0 == "subject"@
                    ==> crate::kernel::fields::subject_of(hs.last()) == as_string(Some(params[i].1))) && (params[i].0
                    == "type_id"@ ==> Some(hs.last().type_id) == as_string(Some(params[i].1))) by {
                    assert(crate::kernel::fields::param_accepts(hs.last(), params[i].0, params[i].1));
                };
            }
        };
    }
}

/// APPLY_SELECTOR returns only issued handles that its parameters name:
/// every handle it yields (a single handle, or each of a handle set) is a
/// handle of the manifest whose subject and type match the `subject` and
/// `type_id` parameters given.
pub proof fn lemma_apply_selector_sound(
    apply: crate::proto::OpApplySelectorView,
    manifest: crate::proto::PublicManifestView,
    budget: NormalizedBudget,
)
    ensures
        crate::kernel::ops::apply_selector_spec(apply, manifest, budget) matches Ok(out) ==> match out.data {
            RegDataView::Handle(h) => manifest.handles.contains(h) && meets_params(h, apply.params),
            RegDataView::HandleSet(ms) => forall|j: int|
                0 <= j < ms.len() ==> manifest.handles.contains(#[trigger] ms[j]) && meets_params(ms[j], apply.params),
            RegDataView::Struct(_) => true,
        },
{
    broadcast use vstd::seq_lib::group_to_multiset_ensures;
    let sel = crate::kernel::ops::select_handles(manifest.handles, apply.params);
    lemma_select_sound(manifest.handles, apply.params);
    let sorted = sort_by_ref(sel);
    crate::sort::lemma_sort_stable(sel, |h: HandleRefView| h.ref_id);
    assert forall|j: int| 0 <= j < sorted.len() implies manifest.handles.contains(#[trigger] sorted[j]) && meets_params(
        sorted[j],
        apply.params,
    ) by {
        assert(sorted.to_multiset().count(sorted[j]) > 0);
        assert(sel.to_multiset().count(sorted[j]) > 0);
        assert(sel.contains(sorted[j]));
        let k = choose|k: int| 0 <= k < sel.len() && sel[k] == sorted[j];
        assert(manifest.handles.contains(sel[k]) && meets_params(sel[k], apply.params));
    };
}

// ----------------------------------------------------------------------
// RESOLVE
// ----------------------------------------------------------------------

/// The candidates a RESOLVE reads: the handles of its input register.
pub open spec fn resolve_candidates(resolve: OpResolveView, regs: Seq<(Seq<char>, RegView)>) -> Seq<
    HandleRefView,
> {
    as_handles_spec(reg_lookup(regs, resolve.in_reg)->Some_0.data)->Ok_0
}

/// Whether handle `a` ranks strictly above handle `b`: a higher trust rank,
/// or the same trust rank and a later `valid_from`.
pub open spec fn outranks(a: HandleRefView, b: HandleRefView) -> bool {
    handle_rank(a) > handle_rank(b) || (handle_rank(a) == handle_rank(b) && recency(a) > recency(b))
}

proof fn lemma_best_attained(hs: Seq<HandleRefView>)
    requires
        hs.len() > 0,
    ensures
        exists|j: int| 0 <= j < hs.len() && rank_key(hs[j]) == best_key(hs),
    decreases hs.len(),
{
    if hs.len() > 1 {
        lemma_best_attained(hs.drop_last());
        let j = choose|j: int| 0 <= j < hs.drop_last().len() && rank_key(hs.drop_last()[j]) == best_key(
            hs.drop_last(),
        );
        assert(hs.drop_last()[j] == hs[j]);
        assert(rank_key(hs[hs.len() - 1]) == rank_key(hs.last()));
    } else {
        assert(rank_key(hs[0]) == best_key(hs));
    }
}

proof fn lemma_first_found(hs: Seq<HandleRefView>, k: (i32, i64), j: int)
    requires
        0 <= j < hs.len(),
        rank_key(hs[j]) == k,
    ensures
        0 <= first_key_idx(hs, k) < hs.len(),
        rank_key(hs[first_key_idx(hs, k)]) == k,
    decreases hs.len(),
{
    if j < hs.len() - 1 {
        assert(hs.drop_last()[j] == hs[j]);
        lemma_first_found(hs.drop_last(), k, j);
        assert(hs.drop_last()[first_key_idx(hs.drop_last(), k)] == hs[first_key_idx(hs.drop_last(), k)]);
    } else if first_key_idx(hs.drop_last(), k) >= 0 {
        lemma_first_bounds(hs.drop_last(), k);
        assert(hs.drop_last()[first_key_idx(hs.drop_last(), k)] == hs[first_key_idx(hs.drop_last(), k)]);
    }
}

proof fn lemma_first_bounds(hs: Seq<HandleRefView>, k: (i32, i64))
    ensures
        -1 <= first_key_idx(hs, k) < hs.len(),
        first_key_idx(hs, k) >= 0 ==> rank_key(hs[first_key_idx(hs, k)]) == k,
    decreases hs.len(),
{
    if hs.len() > 0 {
        lemma_first_bounds(hs.drop_last(), k);
        if first_key_idx(hs.drop_last(), k) >= 0 {
            assert(hs.drop_last()[first_key_idx(hs.drop_last(), k)] == hs[first_key_idx(hs.drop_last(), k)]);
        }
    }
}

proof fn lemma_count_at_least(hs: Seq<HandleRefView>, k: (i32, i64), a: int, b: int)
    requires
        0 <= a < hs.len(),
        0 <= b < hs.len(),
        rank_key(hs[a]) == k,
        rank_key(hs[b]) == k,
    ensures
        count_key(hs, k) >= 1,
        a != b ==> count_key(hs, k) >= 2,
    decreases hs.len(),
{
    let n = hs.len() - 1;
    let p = hs.drop_last();
    if a < n && b < n {
        assert(p[a] == hs[a] && p[b] == hs[b]);
        lemma_count_at_least(p, k, a, b);
    } else if a < n {
        assert(p[a] == hs[a]);
        lemma_count_at_least(p, k, a, a);
    } else if b < n {
        assert(p[b] == hs[b]);
        lemma_count_at_least(p, k, b, b);
    }
}

proof fn lemma_best_above_all(hs: Seq<HandleRefView>)
    requires
        hs.len() > 0,
    ensures
        forall|j: int| 0 <= j < hs.len() ==> !key_above(rank_key(#[trigger] hs[j]), best_key(hs)),
    decreases hs.len(),
{
    if hs.len() > 1 {
        lemma_best_above_all(hs.drop_last());
        assert forall|j: int| 0 <= j < hs.len() implies !key_above(rank_key(#[trigger] hs[j]), best_key(hs)) by {
            if j < hs.len() - 1 {
                assert(hs.drop_last()[j] == hs[j]);
            }
        };
    }
}

/// RESOLVE picks the best: when it succeeds, the register holds one of the
/// candidate handles, and every other candidate ranks strictly below it
/// (a lower trust rank, or the same trust rank and an earlier
/// `valid_from`).
pub proof fn lemma_resolve_picks_best(resolve: OpResolveView, regs: Seq<(Seq<char>, RegView)>)
    requires
        resolve_spec(resolve, regs) is Ok,
    ensures
        exists|i: int|
            0 <= i < resolve_candidates(resolve, regs).len() && resolve_spec(resolve, regs)->Ok_0.data
                == RegDataView::Handle(resolve_candidates(resolve, regs)[i]) && forall|j: int|
                0 <= j < resolve_candidates(resolve, regs).len() && j != i ==> outranks(
                    resolve_candidates(resolve, regs)[i],
                    #[trigger] resolve_candidates(resolve, regs)[j],
                ),
{
    let hs = resolve_candidates(resolve, regs);
    let best = best_key(hs);
    lemma_best_attained(hs);
    let w = choose|j: int| 0 <= j < hs.len() && rank_key(hs[j]) == best;
    lemma_first_found(hs, best, w);
    let i = first_key_idx(hs, best);
    lemma_best_above_all(hs);
    assert forall|j: int| 0 <= j < hs.len() && j != i implies outranks(hs[i], #[trigger] hs[j]) by {
        assert(!key_above(rank_key(hs[j]), best));
        if rank_key(hs[j]) == best {
            lemma_count_at_least(hs, best, i, j);
        }
    };
}

proof fn lemma_count_at_most_one(hs: Seq<HandleRefView>, k: (i32, i64), i: int)
    requires
        0 <= i < hs.len(),
        forall|j: int| 0 <= j < hs.len() && j != i ==> rank_key(#[trigger] hs[j]) != k,
    ensures
        count_key(hs, k) <= 1,
    decreases hs.len(),
{
    let n = hs.len() - 1;
    let p = hs.drop_last();
    if i < n {
        assert forall|j: int| 0 <= j < p.len() && j != i implies rank_key(#[trigger] p[j]) != k by {
            assert(p[j] == hs[j]);
        };
        lemma_count_at_most_one(p, k, i);
        assert(rank_key(hs[n]) != k);
    } else {
        assert forall|j: int| 0 <= j < p.len() implies rank_key(#[trigger] p[j]) != k by {
            assert(p[j] == hs[j]);
        };
        crate::kernel::oplaws::lemma_count_zero(p, k);
    }
}

proof fn lemma_count_zero(hs: Seq<HandleRefView>, k: (i32, i64))
    requires
        forall|j: int| 0 <= j < hs.len() ==> rank_key(#[trigger] hs[j]) != k,
    ensures
        count_key(hs, k) == 0,
    decreases hs.len(),
{
    if hs.len() > 0 {
        assert forall|j: int| 0 <= j < hs.drop_last().len() implies rank_key(#[trigger] hs.drop_last()[j]) != k by {
            assert(hs.drop_last()[j] == hs[j]);
        };
        lemma_count_zero(hs.drop_last(), k);
        assert(rank_key(hs[hs.len() - 1]) != k);
    }
}

/// RESOLVE decides exactly: over an input register of handles, it succeeds
/// exactly when some candidate outranks every other one, and then the
/// register holds that candidate; without candidates, or when no single
/// candidate outranks the rest, it stops with AMBIGUOUS_CONFLICT.
pub proof fn lemma_resolve_decides(resolve: OpResolveView, regs: Seq<(Seq<char>, RegView)>, i: int)
    requires
        reg_lookup(regs, resolve.in_reg) is Some,
        as_handles_spec(reg_lookup(regs, resolve.in_reg)->Some_0.data) is Ok,
        0 <= i < resolve_candidates(resolve, regs).len(),
        forall|j: int|
            0 <= j < resolve_candidates(resolve, regs).len() && j != i ==> outranks(
                resolve_candidates(resolve, regs)[i],
                #[trigger] resolve_candidates(resolve, regs)[j],
            ),
    ensures
        resolve_spec(resolve, regs) is Ok,
        resolve_spec(resolve, regs)->Ok_0.data == RegDataView::Handle(resolve_candidates(resolve, regs)[i]),
{
    let hs = resolve_candidates(resolve, regs);
    let best = best_key(hs);
    lemma_best_attained(hs);
    lemma_best_above_all(hs);
    let w = choose|j: int| 0 <= j < hs.len() && rank_key(hs[j]) == best;
    if w != i {
        assert(outranks(hs[i], hs[w]));
        assert(key_above(rank_key(hs[i]), best));
        assert(false);
    }
    assert forall|j: int| 0 <= j < hs.len() && j != i implies rank_key(#[trigger] hs[j]) != best by {
        assert(outranks(hs[i], hs[j]));
    };
    lemma_count_at_most_one(hs, best, i);
    lemma_first_found(hs, best, i);
    let f = first_key_idx(hs, best);
    if f != i {
        assert(rank_key(hs[f]) != best);
    }
}

// ----------------------------------------------------------------------
// FILTER
// ----------------------------------------------------------------------

/// The handles at or above a trust rank, in order.
pub open spec fn at_least(hs: Seq<HandleRefView>, tier: i32) -> Seq<HandleRefView> {
    hs.filter(|h: HandleRefView| handle_rank(h) >= tier)
}

/// A filter whose predicate holds of each handle exactly when `keep` does
/// keeps exactly the handles that `keep` holds of, in order.
proof fn lemma_filter_all_by(
    hs: Seq<HandleRefView>,
    filter_ref: Seq<char>,
    params: Seq<(Seq<char>, ValueView)>,
    keep: spec_fn(HandleRefView) -> bool,
)
    requires
        forall|h: HandleRefView| #[trigger] filter_spec(h, filter_ref, params) == Ok::<bool, StopView>(keep(h)),
    ensures
        filter_all(hs, filter_ref, params) == Ok::<Seq<HandleRefView>, StopView>(hs.filter(keep)),
    decreases hs.len(),
{
    if hs.len() > 0 {
        lemma_filter_all_by(hs.drop_last(), filter_ref, params, keep);
        assert(hs.drop_last().push(hs.last()) =~= hs);
        hs.drop_last().lemma_filter_push(hs.last(), keep);
        assert(filter_spec(hs.last(), filter_ref, params) == Ok::<bool, StopView>(keep(hs.last())));
    } else {
        assert(hs.filter(keep) =~= Seq::<HandleRefView>::empty()) by {
            reveal(Seq::filter);
        };
    }
}

proof fn lemma_filter_names_differ()
    ensures
        "trust_at_least"@ != "identity"@,
        "trust_at_least"@ != "by_subject"@,
        "trust_at_least"@ != "by_type"@,
        "trust_at_least"@ != "by_scope"@,
        "by_subject"@ != "identity"@,
        "by_type"@ != "identity"@,
        "by_type"@ != "by_subject"@,
{
    reveal_strlit("trust_at_least");
    reveal_strlit("identity");
    reveal_strlit("by_subject");
    reveal_strlit("by_type");
    reveal_strlit("by_scope");
    assert("trust_at_least"@[0] != "identity"@[0]);
    assert("trust_at_least"@[0] != "by_subject"@[0]);
    assert("trust_at_least"@[0] != "by_type"@[0]);
    assert("trust_at_least"@[0] != "by_scope"@[0]);
    assert("by_subject"@[0] != "identity"@[0]);
    assert("by_type"@[0] != "identity"@[0]);
    assert("by_type"@[3] != "by_subject"@[3]);
}

/// `trust_at_least` over a list keeps exactly the handles whose trust rank
/// is at least the requested tier, in order.
pub proof fn lemma_trust_at_least_keeps(
    hs: Seq<HandleRefView>,
    params: Seq<(Seq<char>, ValueView)>,
    tier: i32,
)
    requires
        smap_get(params, "tier"@) matches Some(v) && value_to_tier_rank(v) == Some(tier),
    ensures
        filter_all(hs, "trust_at_least"@, params) == Ok::<Seq<HandleRefView>, StopView>(
            at_least(hs, tier),
        ),
{
    lemma_filter_names_differ();
    lemma_filter_all_by(hs, "trust_at_least"@, params, |h: HandleRefView| handle_rank(h) >= tier);
}

/// `identity` keeps every handle, in order.
pub proof fn lemma_identity_keeps_all(hs: Seq<HandleRefView>, params: Seq<(Seq<char>, ValueView)>)
    ensures
        filter_all(hs, "identity"@, params) == Ok::<Seq<HandleRefView>, StopView>(hs),
{
    lemma_filter_all_by(hs, "identity"@, params, |h: HandleRefView| true);
    assert(hs.filter(|h: HandleRefView| true) =~= hs) by {
        lemma_filter_true(hs);
    };
}

proof fn lemma_filter_true(hs: Seq<HandleRefView>)
    ensures
        hs.filter(|h: HandleRefView| true) == hs,
    decreases hs.len(),
{
    reveal(Seq::filter);
    if hs.len() > 0 {
        lemma_filter_true(hs.drop_last());
        assert(hs.drop_last().push(hs.last()) =~= hs);
    }
}

/// `by_subject` keeps exactly the handles with metadata whose subject is
/// the requested one, in order.
pub proof fn lemma_by_subject_keeps(
    hs: Seq<HandleRefView>,
    params: Seq<(Seq<char>, ValueView)>,
    subject: Seq<char>,
)
    requires
        as_string(smap_get(params, "subject"@)) == Some(subject),
    ensures
        filter_all(hs, "by_subject"@, params) == Ok::<Seq<HandleRefView>, StopView>(
            hs.filter(|h: HandleRefView| h.meta is Some && h.meta->Some_0.subject == subject),
        ),
{
    lemma_filter_names_differ();
    lemma_filter_all_by(
        hs,
        "by_subject"@,
        params,
        |h: HandleRefView| h.meta is Some && h.meta->Some_0.subject == subject,
    );
}

/// `by_type` keeps exactly the handles of the requested type, in order.
pub proof fn lemma_by_type_keeps(hs: Seq<HandleRefView>, params: Seq<(Seq<char>, ValueView)>, type_id: Seq<char>)
    requires
        as_string(smap_get(params, "type_id"@)) == Some(type_id),
    ensures
        filter_all(hs, "by_type"@, params) == Ok::<Seq<HandleRefView>, StopView>(
            hs.filter(|h: HandleRefView| h.type_id == type_id),
        ),
{
    lemma_filter_names_differ();
    lemma_filter_all_by(hs, "by_type"@, params, |h: HandleRefView| h.type_id == type_id);
}

/// FILTER with `trust_at_least`: when it succeeds, the register holds the
/// input handles whose trust rank is at least the requested tier, sorted by
/// reference; so every kept handle is at or above the tier, and every input
/// handle at or above it is kept.
pub proof fn lemma_filter_trust_at_least(
    filter: OpFilterView,
    regs: Seq<(Seq<char>, RegView)>,
    budget: NormalizedBudget,
    tier: i32,
)
    requires
        filter.filter_ref == "trust_at_least"@,
        smap_get(filter.params, "tier"@) matches Some(v) && value_to_tier_rank(v) == Some(tier),
        filter_op_spec(filter, regs, budget) is Ok,
    ensures
        filter_op_spec(filter, regs, budget)->Ok_0.data == RegDataView::HandleSet(
            sort_by_ref(at_least(as_handles_spec(reg_lookup(regs, filter.in_reg)->Some_0.data)->Ok_0, tier)),
        ),
{
    let hs = as_handles_spec(reg_lookup(regs, filter.in_reg)->Some_0.data)->Ok_0;
    lemma_trust_at_least_keeps(hs, filter.params, tier);
}

// ----------------------------------------------------------------------
// JOIN
// ----------------------------------------------------------------------

/// Whether two handles conflict: they share a non-empty conflict group and
/// have different references.
pub open spec fn in_conflict(l: HandleRefView, r: HandleRefView) -> bool {
    l.conflict_group_id.len() != 0 && l.conflict_group_id == r.conflict_group_id && l.ref_id != r.ref_id
}

/// Whether a handle is one side of a pair related by `rel`, the left one
/// from `ls` and the right one from `rs`.
pub open spec fn in_related_pair(
    h: HandleRefView,
    ls: Seq<HandleRefView>,
    rs: Seq<HandleRefView>,
    rel: spec_fn(HandleRefView, HandleRefView) -> bool,
) -> bool {
    exists|a: int, b: int|
        0 <= a < ls.len() && 0 <= b < rs.len() && #[trigger] rel(ls[a], rs[b]) && (h == ls[a] || h == rs[b])
}

/// Whether a handle is one side of a conflicting pair, the left one from
/// `ls` and the right one from `rs`.
pub open spec fn in_conflicting_pair(h: HandleRefView, ls: Seq<HandleRefView>, rs: Seq<HandleRefView>) -> bool {
    in_related_pair(h, ls, rs, |l: HandleRefView, r: HandleRefView| in_conflict(l, r))
}

/// Every value of a map after setting a key was already a value or is the
/// value set.
proof fn lemma_insert_values(m: Seq<(Seq<char>, HandleRefView)>, k: Seq<char>, v: HandleRefView)
    ensures
        forall|i: int|
            0 <= i < smap_insert(m, k, v).len() ==> (#[trigger] smap_insert(m, k, v)[i]).1 == v || exists|j: int|
                0 <= j < m.len() && m[j].1 == smap_insert(m, k, v)[i].1,
{
    lemma_insert_entries(m, k, v);
    assert forall|i: int| 0 <= i < smap_insert(m, k, v).len() implies (#[trigger] smap_insert(m, k, v)[i]).1 == v
        || exists|j: int| 0 <= j < m.len() && m[j].1 == smap_insert(m, k, v)[i].1 by {
        if smap_insert(m, k, v)[i] != (k, v) {
            let j = choose|j: int| 0 <= j < m.len() && m[j] == smap_insert(m, k, v)[i];
            assert(m[j].1 == smap_insert(m, k, v)[i].1);
        }
    };
}

/// Setting a witnessed handle keeps every value of the map witnessed.
proof fn lemma_insert_witnessed(
    m: Seq<(Seq<char>, HandleRefView)>,
    k: Seq<char>,
    v: HandleRefView,
    ls: Seq<HandleRefView>,
    rs: Seq<HandleRefView>,
    rel: spec_fn(HandleRefView, HandleRefView) -> bool,
)
    requires
        forall|i: int| 0 <= i < m.len() ==> in_related_pair(#[trigger] m[i].1, ls, rs, rel),
        in_related_pair(v, ls, rs, rel),
    ensures
        forall|i: int|
            0 <= i < smap_insert(m, k, v).len() ==> in_related_pair(#[trigger] smap_insert(m, k, v)[i].1, ls, rs, rel),
{
    lemma_insert_values(m, k, v);
    assert forall|i: int| 0 <= i < smap_insert(m, k, v).len() implies in_related_pair(
        #[trigger] smap_insert(m, k, v)[i].1,
        ls,
        rs,
        rel,
    ) by {
        if smap_insert(m, k, v)[i].1 != v {
            let j = choose|j: int| 0 <= j < m.len() && m[j].1 == smap_insert(m, k, v)[i].1;
            assert(in_related_pair(m[j].1, ls, rs, rel));
        }
    };
}

proof fn lemma_join_inner_related(
    m: Seq<(Seq<char>, HandleRefView)>,
    ls: Seq<HandleRefView>,
    a: int,
    rs: Seq<HandleRefView>,
    n: int,
    edge: EdgeType,
    rel: spec_fn(HandleRefView, HandleRefView) -> bool,
)
    requires
        0 <= a < ls.len(),
        0 <= n <= rs.len(),
        forall|l: HandleRefView, r: HandleRefView| #[trigger] edge_holds(edge, l, r) ==> rel(l, r),
        forall|i: int| 0 <= i < m.len() ==> in_related_pair(#[trigger] m[i].1, ls, rs, rel),
    ensures
        forall|i: int|
            0 <= i < join_inner(m, ls[a], rs.take(n), edge).len() ==> in_related_pair(
                #[trigger] join_inner(m, ls[a], rs.take(n), edge)[i].1,
                ls,
                rs,
                rel,
            ),
    decreases n,
{
    if n > 0 {
        lemma_join_inner_related(m, ls, a, rs, n - 1, edge, rel);
        assert(rs.take(n).drop_last() =~= rs.take(n - 1));
        let m2 = join_inner(m, ls[a], rs.take(n - 1), edge);
        let r = rs[n - 1];
        assert(rs.take(n).last() == r);
        if edge_holds(edge, ls[a], r) {
            assert(rel(ls[a], rs[n - 1]));
            assert(in_related_pair(ls[a], ls, rs, rel));
            assert(in_related_pair(r, ls, rs, rel));
            lemma_insert_witnessed(m2, ls[a].ref_id, ls[a], ls, rs, rel);
            lemma_insert_witnessed(smap_insert(m2, ls[a].ref_id, ls[a]), r.ref_id, r, ls, rs, rel);
        }
    } else {
        assert(rs.take(0) =~= Seq::<HandleRefView>::empty());
    }
}

proof fn lemma_join_outer_related(
    ls: Seq<HandleRefView>,
    rs: Seq<HandleRefView>,
    n: int,
    edge: EdgeType,
    rel: spec_fn(HandleRefView, HandleRefView) -> bool,
)
    requires
        0 <= n <= ls.len(),
        forall|l: HandleRefView, r: HandleRefView| #[trigger] edge_holds(edge, l, r) ==> rel(l, r),
    ensures
        forall|i: int|
            0 <= i < join_outer(ls.take(n), rs, edge).len() ==> in_related_pair(
                #[trigger] join_outer(ls.take(n), rs, edge)[i].1,
                ls,
                rs,
                rel,
            ),
    decreases n,
{
    if n > 0 {
        lemma_join_outer_related(ls, rs, n - 1, edge, rel);
        assert(ls.take(n).drop_last() =~= ls.take(n - 1));
        assert(ls.take(n).last() == ls[n - 1]);
        assert(rs.take(rs.len() as int) =~= rs);
        lemma_join_inner_related(join_outer(ls.take(n - 1), rs, edge), ls, n - 1, rs, rs.len() as int, edge, rel);
    } else {
        assert(ls.take(0) =~= Seq::<HandleRefView>::empty());
    }
}

/// A join keeps only related handles: when the edge relates only pairs
/// that `rel` relates, every handle of the result is one side of a pair of
/// a left and a right input handle related by `rel`.
proof fn lemma_join_pairs(
    ls: Seq<HandleRefView>,
    rs: Seq<HandleRefView>,
    edge: EdgeType,
    rel: spec_fn(HandleRefView, HandleRefView) -> bool,
)
    requires
        forall|l: HandleRefView, r: HandleRefView| #[trigger] edge_holds(edge, l, r) ==> rel(l, r),
    ensures
        forall|i: int|
            0 <= i < join_outer(ls, rs, edge).len() ==> in_related_pair(#[trigger] join_outer(ls, rs, edge)[i].1, ls, rs, rel),
{
    lemma_join_outer_related(ls, rs, ls.len() as int, edge, rel);
    assert(ls.take(ls.len() as int) =~= ls);
}

/// A CONFLICTS_WITH join keeps only conflicting handles: every handle of
/// its result is one side of a pair of a left and a right input handle
/// that share a non-empty conflict group and have different references (so
/// no handle joins with itself).
pub proof fn lemma_conflict_join_pairs(ls: Seq<HandleRefView>, rs: Seq<HandleRefView>)
    ensures
        forall|i: int|
            0 <= i < join_outer(ls, rs, EdgeType::EdgeConflictsWith).len() ==> in_conflicting_pair(
                #[trigger] join_outer(ls, rs, EdgeType::EdgeConflictsWith)[i].1,
                ls,
                rs,
            ),
{
    lemma_join_pairs(ls, rs, EdgeType::EdgeConflictsWith, |l: HandleRefView, r: HandleRefView| in_conflict(l, r));
}

/// A SUPERSEDES join keeps only handles of one type paired with a handle of
/// another reference: every handle of its result is one side of a pair of a
/// left and a right input handle of the same type and different references.
pub proof fn lemma_supersedes_join_pairs(ls: Seq<HandleRefView>, rs: Seq<HandleRefView>)
    ensures
        forall|i: int|
            0 <= i < join_outer(ls, rs, EdgeType::EdgeSupersedes).len() ==> in_related_pair(
                #[trigger] join_outer(ls, rs, EdgeType::EdgeSupersedes)[i].1,
                ls,
                rs,
                |l: HandleRefView, r: HandleRefView| l.type_id == r.type_id && l.ref_id != r.ref_id,
            ),
{
    lemma_join_pairs(
        ls,
        rs,
        EdgeType::EdgeSupersedes,
        |l: HandleRefView, r: HandleRefView| l.type_id == r.type_id && l.ref_id != r.ref_id,
    );
}

/// A PROVENANCE join keeps only handles paired with one of the same
/// signature summary.
pub proof fn lemma_provenance_join_pairs(ls: Seq<HandleRefView>, rs: Seq<HandleRefView>)
    ensures
        forall|i: int|
            0 <= i < join_outer(ls, rs, EdgeType::EdgeProvenance).len() ==> in_related_pair(
                #[trigger] join_outer(ls, rs, EdgeType::EdgeProvenance)[i].1,
                ls,
                rs,
                |l: HandleRefView, r: HandleRefView| l.signature_summary == r.signature_summary,
            ),
{
    lemma_join_pairs(
        ls,
        rs,
        EdgeType::EdgeProvenance,
        |l: HandleRefView, r: HandleRefView| l.signature_summary == r.signature_summary,
    );
}

/// A SAME_ENTITY join keeps only handles paired with one about the same
/// subject (or both without metadata).
pub proof fn lemma_same_entity_join_pairs(ls: Seq<HandleRefView>, rs: Seq<HandleRefView>)
    ensures
        forall|i: int|
            0 <= i < join_outer(ls, rs, EdgeType::EdgeSameEntity).len() ==> in_related_pair(
                #[trigger] join_outer(ls, rs, EdgeType::EdgeSameEntity)[i].1,
                ls,
                rs,
                |l: HandleRefView, r: HandleRefView| (l.meta is Some) == (r.meta is Some) && (l.meta is Some
                    ==> l.meta->Some_0.subject == r.meta->Some_0.subject),
            ),
{
    lemma_join_pairs(
        ls,
        rs,
        EdgeType::EdgeSameEntity,
        |l: HandleRefView, r: HandleRefView| (l.meta is Some) == (r.meta is Some) && (l.meta is Some
            ==> l.meta->Some_0.subject == r.meta->Some_0.subject),
    );
}

/// JOIN by CONFLICTS_WITH: when it succeeds, every handle the register
/// holds is one side of a conflicting pair of a left and a right input
/// handle (see [`lemma_conflict_join_pairs`]).
pub proof fn lemma_join_conflicts(
    join: crate::proto::OpJoinView,
    regs: Seq<(Seq<char>, RegView)>,
    budget: NormalizedBudget,
)
    requires
        crate::proto::edge_type_from(join.edge_type) == EdgeType::EdgeConflictsWith,
        crate::kernel::ops2::join_spec(join, regs, budget) is Ok,
    ensures
        crate::kernel::ops2::join_spec(join, regs, budget)->Ok_0.data matches RegDataView::HandleSet(out) && forall|i: int|
            0 <= i < out.len() ==> in_conflicting_pair(
                #[trigger] out[i],
                as_handles_spec(reg_lookup(regs, join.left_reg)->Some_0.data)->Ok_0,
                as_handles_spec(reg_lookup(regs, join.right_reg)->Some_0.data)->Ok_0,
            ),
{
    let ls = as_handles_spec(reg_lookup(regs, join.left_reg)->Some_0.data)->Ok_0;
    let rs = as_handles_spec(reg_lookup(regs, join.right_reg)->Some_0.data)->Ok_0;
    lemma_conflict_join_pairs(ls, rs);
}

/// Every entry of a map after setting a key is the entry set or an entry
/// it had.
proof fn lemma_insert_entries<V>(m: Seq<(Seq<char>, V)>, k: Seq<char>, v: V)
    ensures
        forall|i: int|
            0 <= i < smap_insert(m, k, v).len() ==> #[trigger] smap_insert(m, k, v)[i] == (k, v) || exists|j: int|
                0 <= j < m.len() && m[j] == smap_insert(m, k, v)[i],
    decreases m.len(),
{
    let r = smap_insert(m, k, v);
    if m.len() > 0 {
        if m[0].0 == k {
            assert forall|i: int| 0 <= i < r.len() implies #[trigger] r[i] == (k, v) || exists|j: int|
                0 <= j < m.len() && m[j] == r[i] by {
                if i > 0 {
                    assert(r[i] == m[i]);
                }
            };
        } else if crate::text::seq_less(k, m[0].0) {
            assert forall|i: int| 0 <= i < r.len() implies #[trigger] r[i] == (k, v) || exists|j: int|
                0 <= j < m.len() && m[j] == r[i] by {
                if i > 0 {
                    assert(r[i] == m[i - 1]);
                }
            };
        } else {
            let t = m.drop_first();
            lemma_insert_entries(t, k, v);
            assert forall|i: int| 0 <= i < r.len() implies #[trigger] r[i] == (k, v) || exists|j: int|
                0 <= j < m.len() && m[j] == r[i] by {
                if i == 0 {
                    assert(r[0] == m[0]);
                } else {
                    let ri = smap_insert(t, k, v)[i - 1];
                    assert(r[i] == ri);
                    if ri != (k, v) {
                        let j = choose|j: int| 0 <= j < t.len() && t[j] == ri;
                        assert(m[j + 1] == t[j]);
                    }
                }
            };
        }
    }
}

/// A key read before setting another key is still read after.
proof fn lemma_get_kept<V>(m: Seq<(Seq<char>, V)>, k: Seq<char>, v: V, q: Seq<char>)
    requires
        smap_get(m, q) is Some,
    ensures
        smap_get(smap_insert(m, k, v), q) is Some,
{
    if q == k {
        crate::smap::lemma_smap_get_insert(m, k, v);
    } else {
        lemma_get_insert_other(m, k, v, q);
    }
}

/// A key that is read has an entry.
proof fn lemma_get_entry<V>(m: Seq<(Seq<char>, V)>, q: Seq<char>)
    requires
        smap_get(m, q) is Some,
    ensures
        exists|i: int| 0 <= i < m.len() && #[trigger] m[i].0 == q,
    decreases m.len(),
{
    if m[0].0 != q {
        lemma_get_entry(m.drop_first(), q);
        let i = choose|i: int| 0 <= i < m.drop_first().len() && #[trigger] m.drop_first()[i].0 == q;
        assert(m[i + 1] == m.drop_first()[i]);
    }
}

/// Whether every entry of a join map holds the handle its key names.
pub open spec fn keyed_by_ref(m: Seq<(Seq<char>, HandleRefView)>) -> bool {
    forall|i: int| 0 <= i < m.len() ==> (#[trigger] m[i]).1.ref_id == m[i].0
}

proof fn lemma_insert_keyed(m: Seq<(Seq<char>, HandleRefView)>, h: HandleRefView)
    requires
        keyed_by_ref(m),
    ensures
        keyed_by_ref(smap_insert(m, h.ref_id, h)),
{
    lemma_insert_entries(m, h.ref_id, h);
    let r = smap_insert(m, h.ref_id, h);
    assert forall|i: int| 0 <= i < r.len() implies (#[trigger] r[i]).1.ref_id == r[i].0 by {
        if r[i] != (h.ref_id, h) {
            let j = choose|j: int| 0 <= j < m.len() && m[j] == r[i];
            assert(m[j].1.ref_id == m[j].0);
        }
    };
}

proof fn lemma_join_inner_complete(
    m: Seq<(Seq<char>, HandleRefView)>,
    l: HandleRefView,
    rs: Seq<HandleRefView>,
    n: int,
    edge: EdgeType,
)
    requires
        0 <= n <= rs.len(),
        keyed_by_ref(m),
    ensures
        keyed_by_ref(join_inner(m, l, rs.take(n), edge)),
        forall|q: Seq<char>| smap_get(m, q) is Some ==> #[trigger] smap_get(join_inner(m, l, rs.take(n), edge), q) is Some,
        forall|b: int|
            0 <= b < n && #[trigger] edge_holds(edge, l, rs[b]) ==> smap_get(join_inner(m, l, rs.take(n), edge), l.ref_id)
                is Some && smap_get(join_inner(m, l, rs.take(n), edge), rs[b].ref_id) is Some,
    decreases n,
{
    if n == 0 {
        assert(rs.take(0) =~= Seq::<HandleRefView>::empty());
    } else {
        lemma_join_inner_complete(m, l, rs, n - 1, edge);
        assert(rs.take(n).drop_last() =~= rs.take(n - 1));
        assert(rs.take(n).last() == rs[n - 1]);
        let m2 = join_inner(m, l, rs.take(n - 1), edge);
        let r = rs[n - 1];
        let ji = join_inner(m, l, rs.take(n), edge);
        if edge_holds(edge, l, r) {
            let m3 = smap_insert(m2, l.ref_id, l);
            lemma_insert_keyed(m2, l);
            lemma_insert_keyed(m3, r);
            crate::smap::lemma_smap_get_insert(m2, l.ref_id, l);
            lemma_get_kept(m3, r.ref_id, r, l.ref_id);
            crate::smap::lemma_smap_get_insert(m3, r.ref_id, r);
            assert forall|q: Seq<char>| smap_get(m2, q) is Some implies #[trigger] smap_get(ji, q) is Some by {
                lemma_get_kept(m2, l.ref_id, l, q);
                lemma_get_kept(m3, r.ref_id, r, q);
            };
        }
        assert forall|q: Seq<char>| smap_get(m, q) is Some implies #[trigger] smap_get(ji, q) is Some by {
            assert(smap_get(m2, q) is Some);
        };
        assert forall|b: int| 0 <= b < n && #[trigger] edge_holds(edge, l, rs[b]) implies smap_get(ji, l.ref_id)
            is Some && smap_get(ji, rs[b].ref_id) is Some by {
            if b < n - 1 {
                assert(smap_get(m2, l.ref_id) is Some);
                assert(smap_get(m2, rs[b].ref_id) is Some);
            }
        };
    }
}

proof fn lemma_join_outer_complete(ls: Seq<HandleRefView>, rs: Seq<HandleRefView>, n: int, edge: EdgeType)
    requires
        0 <= n <= ls.len(),
    ensures
        keyed_by_ref(join_outer(ls.take(n), rs, edge)),
        forall|a: int, b: int|
            0 <= a < n && 0 <= b < rs.len() && #[trigger] edge_holds(edge, ls[a], rs[b]) ==> smap_get(
                join_outer(ls.take(n), rs, edge),
                ls[a].ref_id,
            ) is Some && smap_get(join_outer(ls.take(n), rs, edge), rs[b].ref_id) is Some,
    decreases n,
{
    if n == 0 {
        assert(ls.take(0) =~= Seq::<HandleRefView>::empty());
    } else {
        lemma_join_outer_complete(ls, rs, n - 1, edge);
        assert(ls.take(n).drop_last() =~= ls.take(n - 1));
        assert(ls.take(n).last() == ls[n - 1]);
        assert(rs.take(rs.len() as int) =~= rs);
        let prev = join_outer(ls.take(n - 1), rs, edge);
        lemma_join_inner_complete(prev, ls[n - 1], rs, rs.len() as int, edge);
        let jo = join_outer(ls.take(n), rs, edge);
        assert(jo == join_inner(prev, ls[n - 1], rs.take(rs.len() as int), edge));
        assert forall|a: int, b: int|
            0 <= a < n && 0 <= b < rs.len() && #[trigger] edge_holds(edge, ls[a], rs[b]) implies smap_get(jo, ls[a].ref_id)
                is Some && smap_get(jo, rs[b].ref_id) is Some by {
            if a < n - 1 {
                assert(smap_get(prev, ls[a].ref_id) is Some);
                assert(smap_get(prev, rs[b].ref_id) is Some);
            }
        };
    }
}

/// A CONFLICTS_WITH join misses no conflict: for every left and right input
/// handle that share a non-empty conflict group and have different
/// references, the result holds a handle under each of their references.
pub proof fn lemma_conflict_join_complete(ls: Seq<HandleRefView>, rs: Seq<HandleRefView>)
    ensures
        forall|a: int, b: int|
            0 <= a < ls.len() && 0 <= b < rs.len() && #[trigger] in_conflict(ls[a], rs[b]) ==> (exists|i: int|
                0 <= i < join_outer(ls, rs, EdgeType::EdgeConflictsWith).len() && #[trigger] join_outer(
                    ls,
                    rs,
                    EdgeType::EdgeConflictsWith,
                )[i].1.ref_id == ls[a].ref_id) && (exists|i: int|
                0 <= i < join_outer(ls, rs, EdgeType::EdgeConflictsWith).len() && #[trigger] join_outer(
                    ls,
                    rs,
                    EdgeType::EdgeConflictsWith,
                )[i].1.ref_id == rs[b].ref_id),
{
    lemma_join_outer_complete(ls, rs, ls.len() as int, EdgeType::EdgeConflictsWith);
    assert(ls.take(ls.len() as int) =~= ls);
    let jo = join_outer(ls, rs, EdgeType::EdgeConflictsWith);
    assert forall|a: int, b: int|
        0 <= a < ls.len() && 0 <= b < rs.len() && #[trigger] in_conflict(ls[a], rs[b]) implies (exists|i: int|
            0 <= i < jo.len() && #[trigger] jo[i].1.ref_id == ls[a].ref_id) && (exists|i: int|
            0 <= i < jo.len() && #[trigger] jo[i].1.ref_id == rs[b].ref_id) by {
        assert(edge_holds(EdgeType::EdgeConflictsWith, ls[a], rs[b]));
        lemma_get_entry(jo, ls[a].ref_id);
        lemma_get_entry(jo, rs[b].ref_id);
        let i1 = choose|i: int| 0 <= i < jo.len() && #[trigger] jo[i].0 == ls[a].ref_id;
        let i2 = choose|i: int| 0 <= i < jo.len() && #[trigger] jo[i].0 == rs[b].ref_id;
        assert(jo[i1].1.ref_id == jo[i1].0);
        assert(jo[i2].1.ref_id == jo[i2].0);
    };
}

// ----------------------------------------------------------------------
// PROJECT
// ----------------------------------------------------------------------

/// Setting one key leaves what every other key reads.
pub proof fn lemma_get_insert_other<V>(m: Seq<(Seq<char>, V)>, k: Seq<char>, v: V, q: Seq<char>)
    requires
        q != k,
    ensures
        smap_get(smap_insert(m, k, v), q) == smap_get(m, q),
    decreases m.len(),
{
    let r = smap_insert(m, k, v);
    if m.len() > 0 {
        if m[0].0 == k {
            assert(r[0].0 == k);
            assert(r.drop_first() =~= m.drop_first());
        } else if crate::text::seq_less(k, m[0].0) {
            assert(r[0].0 == k);
            assert(r.drop_first() =~= m);
        } else {
            lemma_get_insert_other(m.drop_first(), k, v, q);
            assert(r[0] == m[0]);
            assert(r.drop_first() =~= smap_insert(m.drop_first(), k, v));
        }
    } else {
        assert(r[0].0 == k);
        assert(r.drop_first() =~= Seq::<(Seq<char>, V)>::empty());
        assert(smap_get(r.drop_first(), q) is None);
    }
}

/// Projecting a handle reads each path's field of that handle.
proof fn lemma_project_handle_reads(h: HandleRefView, paths: Seq<Seq<char>>, skip: bool)
    requires
        project_handle(h, paths, skip) is Ok,
    ensures
        forall|i: int|
            0 <= i < paths.len() && !(skip && paths[i] == "set_count"@) ==> smap_get(
                project_handle(h, paths, skip)->Ok_0,
                #[trigger] paths[i],
            ) == handle_field_spec(h, paths[i]),
    decreases paths.len(),
{
    if paths.len() > 0 {
        let p = paths.drop_last();
        lemma_project_handle_reads(h, p, skip);
        let m = project_handle(h, p, skip)->Ok_0;
        let last = paths.last();
        assert forall|i: int| 0 <= i < paths.len() && !(skip && paths[i] == "set_count"@) implies smap_get(
            project_handle(h, paths, skip)->Ok_0,
            #[trigger] paths[i],
        ) == handle_field_spec(h, paths[i]) by {
            if !(skip && last == "set_count"@) {
                let v = handle_field_spec(h, last)->Some_0;
                if paths[i] == last {
                    crate::smap::lemma_smap_get_insert(m, last, v);
                } else {
                    assert(p[i] == paths[i]);
                    lemma_get_insert_other(m, last, v, paths[i]);
                }
            } else {
                assert(p[i] == paths[i]);
            }
        };
    }
}

/// Projecting a struct reads each path's value in it.
proof fn lemma_project_struct_reads(values: Seq<(Seq<char>, ValueView)>, paths: Seq<Seq<char>>)
    requires
        crate::kernel::ops2::project_struct(values, paths) is Ok,
    ensures
        forall|i: int|
            0 <= i < paths.len() ==> smap_get(
                crate::kernel::ops2::project_struct(values, paths)->Ok_0,
                #[trigger] paths[i],
            ) == smap_get(values, paths[i]),
    decreases paths.len(),
{
    if paths.len() > 0 {
        let p = paths.drop_last();
        lemma_project_struct_reads(values, p);
        let m = crate::kernel::ops2::project_struct(values, p)->Ok_0;
        let last = paths.last();
        let v = smap_get(values, last)->Some_0;
        assert forall|i: int| 0 <= i < paths.len() implies smap_get(
            crate::kernel::ops2::project_struct(values, paths)->Ok_0,
            #[trigger] paths[i],
        ) == smap_get(values, paths[i]) by {
            if paths[i] == last {
                crate::smap::lemma_smap_get_insert(m, last, v);
            } else {
                assert(p[i] == paths[i]);
                lemma_get_insert_other(m, last, v, paths[i]);
            }
        };
    }
}

/// The handle fields that PROJECT reads by name: `ref`, `type_id`,
/// `signature_summary` and `conflict_group_id` as strings, and
/// `meta.subject` and `meta.predicate_label` as strings of the metadata,
/// absent without it.
pub proof fn lemma_handle_field_names(h: HandleRefView)
    ensures
        handle_field_spec(h, "ref"@) == Some(ValueView { v: Some(ValueKindView::S(h.ref_id)) }),
        handle_field_spec(h, "type_id"@) == Some(ValueView { v: Some(ValueKindView::S(h.type_id)) }),
        handle_field_spec(h, "signature_summary"@) == Some(
            ValueView { v: Some(ValueKindView::S(h.signature_summary)) },
        ),
        handle_field_spec(h, "conflict_group_id"@) == Some(
            ValueView { v: Some(ValueKindView::S(h.conflict_group_id)) },
        ),
        handle_field_spec(h, "meta.subject"@) == match h.meta {
            Some(m) => Some(ValueView { v: Some(ValueKindView::S(m.subject)) }),
            None => None,
        },
        handle_field_spec(h, "meta.predicate_label"@) == match h.meta {
            Some(m) => Some(ValueView { v: Some(ValueKindView::S(m.predicate_label)) }),
            None => None,
        },
{
    reveal_strlit("ref");
    reveal_strlit("type_id");
    reveal_strlit("signature_summary");
    reveal_strlit("conflict_group_id");
    reveal_strlit("availability");
    reveal_strlit("meta.subject");
    reveal_strlit("meta.predicate_label");
    assert("type_id"@[0] != "ref"@[0]);
    assert("signature_summary"@[0] != "ref"@[0]);
    assert("signature_summary"@[0] != "type_id"@[0]);
    assert("conflict_group_id"@[0] != "ref"@[0]);
    assert("conflict_group_id"@[0] != "type_id"@[0]);
    assert("conflict_group_id"@[0] != "signature_summary"@[0]);
    assert("meta.subject"@[0] != "ref"@[0]);
    assert("meta.subject"@[0] != "type_id"@[0]);
    assert("meta.subject"@[0] != "signature_summary"@[0]);
    assert("meta.subject"@[0] != "conflict_group_id"@[0]);
    assert("meta.subject"@[0] != "availability"@[0]);
    assert("meta.predicate_label"@[0] != "ref"@[0]);
    assert("meta.predicate_label"@[0] != "type_id"@[0]);
    assert("meta.predicate_label"@[0] != "signature_summary"@[0]);
    assert("meta.predicate_label"@[0] != "conflict_group_id"@[0]);
    assert("meta.predicate_label"@[0] != "availability"@[0]);
    assert("meta.predicate_label"@[5] != "meta.subject"@[5]);
}

/// PROJECT of a single handle or of a struct reads the requested fields:
/// each is that field of the handle, or that entry of the struct.
pub proof fn lemma_project_single_reads(d: RegDataView, paths: Seq<Seq<char>>)
    requires
        !(d is HandleSet),
        project_data(d, paths) is Ok,
    ensures
        forall|i: int|
            0 <= i < paths.len() ==> smap_get(project_data(d, paths)->Ok_0, #[trigger] paths[i]) == match d {
                RegDataView::Handle(h) => handle_field_spec(h, paths[i]),
                RegDataView::Struct(vs) => smap_get(vs, paths[i]),
                RegDataView::HandleSet(_) => None,
            },
{
    match d {
        RegDataView::Handle(h) => lemma_project_handle_reads(h, paths, false),
        RegDataView::Struct(vs) => lemma_project_struct_reads(vs, paths),
        _ => {},
    }
}

/// PROJECT over a non-empty handle set reads the set's first handle: every
/// requested field other than `set_count` is that field of the first
/// handle, and `set_count` is the number of handles.
pub proof fn lemma_project_set_reads_first(hs: Seq<HandleRefView>, paths: Seq<Seq<char>>)
    requires
        hs.len() > 0,
        project_data(RegDataView::HandleSet(hs), paths) is Ok,
    ensures
        forall|i: int|
            0 <= i < paths.len() && paths[i] != "set_count"@ ==> smap_get(
                project_data(RegDataView::HandleSet(hs), paths)->Ok_0,
                #[trigger] paths[i],
            ) == handle_field_spec(hs[0], paths[i]),
        smap_get(project_data(RegDataView::HandleSet(hs), paths)->Ok_0, "set_count"@) == Some(
            i64_val(hs.len() as i64),
        ),
{
    let m = project_handle(hs[0], paths, true)->Ok_0;
    lemma_project_handle_reads(hs[0], paths, true);
    crate::smap::lemma_smap_get_insert(m, "set_count"@, i64_val(hs.len() as i64));
    assert forall|i: int| 0 <= i < paths.len() && paths[i] != "set_count"@ implies smap_get(
        project_data(RegDataView::HandleSet(hs), paths)->Ok_0,
        #[trigger] paths[i],
    ) == handle_field_spec(hs[0], paths[i]) by {
        lemma_get_insert_other(m, "set_count"@, i64_val(hs.len() as i64), paths[i]);
    };
}

/// PROJECT over a register holding a non-empty handle set: when it
/// succeeds, the register holds the fields of the set's first handle (see
/// [`lemma_project_set_reads_first`]).
pub proof fn lemma_project_reads_first(
    project: crate::proto::OpProjectView,
    regs: Seq<(Seq<char>, RegView)>,
    hs: Seq<HandleRefView>,
)
    requires
        reg_lookup(regs, project.in_reg) matches Some(input) && input.data == RegDataView::HandleSet(hs),
        hs.len() > 0,
        crate::kernel::ops2::project_spec(project, regs) is Ok,
    ensures
        crate::kernel::ops2::project_spec(project, regs)->Ok_0.data matches RegDataView::Struct(m) && (forall|i: int|
            0 <= i < project.field_paths.len() && project.field_paths[i] != "set_count"@ ==> smap_get(
                m,
                #[trigger] project.field_paths[i],
            ) == handle_field_spec(hs[0], project.field_paths[i])) && smap_get(m, "set_count"@) == Some(
            i64_val(hs.len() as i64),
        ),
{
    lemma_project_set_reads_first(hs, project.field_paths);
}

// ----------------------------------------------------------------------
// What every operation carries over
// ----------------------------------------------------------------------

/// What RESOLVE, FILTER and PROJECT carry over from their input register:
/// its provenance, taint, minimum trust and join depth, with the output
/// marked as produced by that operation; and the handles a FILTER keeps
/// come out sorted by reference, the kept handles rearranged.
pub proof fn lemma_unary_ops_carry_over(
    resolve: OpResolveView,
    filter: OpFilterView,
    project: crate::proto::OpProjectView,
    regs: Seq<(Seq<char>, RegView)>,
    budget: NormalizedBudget,
)
    ensures
        resolve_spec(resolve, regs) matches Ok(out) ==> reg_lookup(regs, resolve.in_reg) matches Some(input)
            && out.provenance == input.provenance && out.taint == input.taint && out.min_trust == input.min_trust
            && out.join_depth == input.join_depth && out.source == crate::kernel::regs::SourceKind::Resolve,
        filter_op_spec(filter, regs, budget) matches Ok(out) ==> reg_lookup(regs, filter.in_reg) matches Some(input)
            && out.provenance == input.provenance && out.taint == input.taint && out.min_trust == input.min_trust
            && out.join_depth == input.join_depth && out.source == crate::kernel::regs::SourceKind::Filter
            && (out.data matches RegDataView::HandleSet(kept) && crate::sort::key_sorted(
                kept,
                |h: HandleRefView| h.ref_id,
            ) && kept.to_multiset() == filter_all(
                as_handles_spec(input.data)->Ok_0,
                filter.filter_ref,
                filter.params,
            )->Ok_0.to_multiset() && kept.len() <= budget.max_fanout),
        crate::kernel::ops2::project_spec(project, regs) matches Ok(out) ==> reg_lookup(regs, project.in_reg) matches Some(
            input,
        ) && out.provenance == input.provenance && out.taint == input.taint && out.min_trust == input.min_trust
            && out.join_depth == input.join_depth && out.source == crate::kernel::regs::SourceKind::Project,
{
    if filter_op_spec(filter, regs, budget) is Ok {
        let input = reg_lookup(regs, filter.in_reg)->Some_0;
        let kept = filter_all(as_handles_spec(input.data)->Ok_0, filter.filter_ref, filter.params)->Ok_0;
        crate::sort::lemma_sort_stable(kept, |h: HandleRefView| h.ref_id);
    }
}

/// What a JOIN carries over: the union of both inputs' provenance and
/// taint, and a join depth one more than the deeper input's.
pub proof fn lemma_join_carries_over(
    join: crate::proto::OpJoinView,
    regs: Seq<(Seq<char>, RegView)>,
    budget: NormalizedBudget,
)
    ensures
        crate::kernel::ops2::join_spec(join, regs, budget) matches Ok(out) ==> reg_lookup(regs, join.left_reg) matches Some(
            l,
        ) && reg_lookup(regs, join.right_reg) matches Some(r) && out.provenance == l.provenance.union(r.provenance)
            && out.taint == l.taint.union(r.taint) && out.join_depth == (if l.join_depth >= r.join_depth {
            l.join_depth
        } else {
            r.join_depth
        }) + 1 && out.join_depth > l.join_depth && out.join_depth > r.join_depth && out.source
            == crate::kernel::regs::SourceKind::Join,
{
}

} // verus!
