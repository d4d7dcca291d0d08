//! RESOLVE, FILTER, JOIN and PROJECT.
use vstd::prelude::*;

use crate::kernel::fields::{
    filter_spec, handle_field, handle_field_spec, handle_rank, handle_rank_exec, matches_filter,
    subject_of,
};
use crate::kernel::ops::{
    as_handles, as_handles_spec, hviews, i64_val, i64_value, sort_by_ref, sort_handles,
};
use crate::kernel::options::NormalizedBudget;
use crate::kernel::regs::{
    clone_names, clone_taint, fail, find_reg, min_tier, min_tier_exec, reg_lookup, regs_view,
    rejected, ExecStop, RegData, RegDataView, RegValue, RegView, SourceKind, StopView,
};
use crate::proto::{
    edge_type_from, edge_type_from_i32, EdgeType, ErrorCode, HandleRef, HandleRefView, OpFilter,
    OpFilterView, OpJoin, OpJoinView, OpProject, OpProjectView, OpResolve, OpResolveView,
    Timestamp, Value, ValueView,
};
use crate::smap::{smap_get, smap_insert, StrMap};
use crate::text::{owned, str_eq, str_is_empty};

verus! {

// ----------------------------------------------------------------------
// RESOLVE
// ----------------------------------------------------------------------

/// `x` clamped into the `i64` range.
pub open spec fn sat64(x: int) -> i64 {
    if x > i64::MAX {
        i64::MAX
    } else if x < i64::MIN {
        i64::MIN
    } else {
        x as i64
    }
}

/// Nanoseconds since the epoch, saturating at the `i64` bounds.
pub open spec fn timestamp_score(t: Timestamp) -> i64 {
    sat64(sat64(t.seconds * 1_000_000_000) + t.nanos)
}

fn clamp64(x: i128) -> (r: i64)
    ensures
        r == sat64(x as int),
{
    if x > i64::MAX as i128 {
        i64::MAX
    } else if x < i64::MIN as i128 {
        i64::MIN
    } else {
        x as i64
    }
}

fn timestamp_score_exec(t: &Timestamp) -> (r: i64)
    ensures
        r == timestamp_score(*t),
{
    let p = clamp64(t.seconds as i128 * 1_000_000_000);
    clamp64(p as i128 + t.nanos as i128)
}

/// The recency score of a handle: its `valid_from` timestamp, or 0.
pub open spec fn recency(h: HandleRefView) -> i64 {
    match h.meta {
        Some(m) => match m.temporal {
            Some(t) => match t.valid_from {
                Some(ts) => timestamp_score(ts),
                None => 0,
            },
            None => 0,
        },
        None => 0,
    }
}

fn recency_exec(h: &HandleRef) -> (r: i64)
    ensures
        r == recency(h@),
{
    match &h.meta {
        Some(m) => match &m.temporal {
            Some(t) => match &t.valid_from {
                Some(ts) => timestamp_score_exec(ts),
                None => 0,
            },
            None => 0,
        },
        None => 0,
    }
}

/// The ranking key of a RESOLVE candidate: trust rank, then recency.
pub open spec fn rank_key(h: HandleRefView) -> (i32, i64) {
    (handle_rank(h), recency(h))
}

/// Whether key `a` ranks strictly above key `b`.
pub open spec fn key_above(a: (i32, i64), b: (i32, i64)) -> bool {
    a.0 > b.0 || (a.0 == b.0 && a.1 > b.1)
}

/// The highest ranking key among the candidates.
pub open spec fn best_key(hs: Seq<HandleRefView>) -> (i32, i64)
    decreases hs.len(),
{
    if hs.len() <= 1 {
        rank_key(hs[0])
    } else if key_above(rank_key(hs.last()), best_key(hs.drop_last())) {
        rank_key(hs.last())
    } else {
        best_key(hs.drop_last())
    }
}

/// How many candidates have key `k`.
pub open spec fn count_key(hs: Seq<HandleRefView>, k: (i32, i64)) -> nat
    decreases hs.len(),
{
    if hs.len() == 0 {
        0
    } else {
        count_key(hs.drop_last(), k) + if rank_key(hs.last()) == k {
            1nat
        } else {
            0nat
        }
    }
}

/// Index of the first candidate with key `k`, or -1.
pub open spec fn first_key_idx(hs: Seq<HandleRefView>, k: (i32, i64)) -> int
    decreases hs.len(),
{
    if hs.len() == 0 {
        -1
    } else if first_key_idx(hs.drop_last(), k) >= 0 {
        first_key_idx(hs.drop_last(), k)
    } else if rank_key(hs.last()) == k {
        hs.len() - 1
    } else {
        -1
    }
}

/// RESOLVE: the single best ranked candidate, or a conflict when there is
/// none or when the best rank is shared.
pub open spec fn resolve_spec(resolve: OpResolveView, regs: Seq<(Seq<char>, RegView)>) -> Result<
    RegView,
    StopView,
> {
    match reg_lookup(regs, resolve.in_reg) {
        None => Err(rejected(ErrorCode::SchemaViolation, "RESOLVE input register missing")),
        Some(input) => match as_handles_spec(input.data) {
            Err(e) => Err(e),
            Ok(hs) => if hs.len() == 0 {
                Err(rejected(ErrorCode::AmbiguousConflict, "RESOLVE candidates empty"))
            } else if count_key(hs, best_key(hs)) > 1 {
                Err(rejected(ErrorCode::AmbiguousConflict, "RESOLVE tie cannot be broken"))
            } else {
                Ok(
                    RegView {
                        data: RegDataView::Handle(hs[first_key_idx(hs, best_key(hs))]),
                        provenance: input.provenance,
                        taint: input.taint,
                        min_trust: input.min_trust,
                        join_depth: input.join_depth,
                        source: SourceKind::Resolve,
                    },
                )
            },
        },
    }
}

proof fn lemma_count_none(hs: Seq<HandleRefView>, k: (i32, i64))
    requires
        forall|j: int| 0 <= j < hs.len() ==> rank_key(#[trigger] hs[j]) != k,
    ensures
        count_key(hs, k) == 0,
        first_key_idx(hs, k) == -1,
    decreases hs.len(),
{
    if hs.len() > 0 {
        lemma_count_none(hs.drop_last(), k);
    }
}

proof fn lemma_best_bounds(hs: Seq<HandleRefView>)
    requires
        hs.len() > 0,
    ensures
        forall|j: int| 0 <= j < hs.len() ==> !key_above(rank_key(#[trigger] hs[j]), best_key(hs)),
    decreases hs.len(),
{
    if hs.len() > 1 {
        lemma_best_bounds(hs.drop_last());
        assert forall|j: int| 0 <= j < hs.len() implies !key_above(
            rank_key(#[trigger] hs[j]),
            best_key(hs),
        ) by {
            if j < hs.len() - 1 {
                assert(hs.drop_last()[j] == hs[j]);
            }
        };
    }
}

proof fn lemma_first_idx_bounds(hs: Seq<HandleRefView>, k: (i32, i64))
    ensures
        -1 <= first_key_idx(hs, k) < hs.len(),
        first_key_idx(hs, k) >= 0 ==> rank_key(hs[first_key_idx(hs, k)]) == k,
    decreases hs.len(),
{
    if hs.len() > 0 {
        lemma_first_idx_bounds(hs.drop_last(), k);
    }
}

/// RESOLVE.
pub fn exec_resolve(resolve: &OpResolve, regs: &Vec<(String, RegValue)>) -> (r: Result<
    RegValue,
    ExecStop,
>)
    ensures
        match r {
            Ok(v) => resolve_spec(resolve@, regs_view(regs@)) == Ok::<RegView, StopView>(v@),
            Err(e) => resolve_spec(resolve@, regs_view(regs@)) == Err::<RegView, StopView>(e@),
        },
{
    let input = match find_reg(regs, resolve.in_reg.as_str()) {
        Some(i) => i,
        None => {
            return Err(fail(ErrorCode::SchemaViolation, "RESOLVE input register missing"));
        },
    };
    let handles = match as_handles(&input.data) {
        Ok(h) => h,
        Err(e) => {
            return Err(e);
        },
    };
    if handles.len() == 0 {
        return Err(fail(ErrorCode::AmbiguousConflict, "RESOLVE candidates empty"));
    }
    let ghost hv = hviews(handles@);
    let mut best_trust = handle_rank_exec(&handles[0]);
    let mut best_ts = recency_exec(&handles[0]);
    let mut best_idx: usize = 0;
    let mut count: usize = 1;
    proof {
        assert(hv.take(1).drop_last().len() == 0);
        assert(hv.take(1)[0] == hv[0]);
        lemma_count_none(hv.take(1).drop_last(), rank_key(hv[0]));
    }
    let mut i: usize = 1;
    while i < handles.len()
        invariant
            1 <= i <= handles.len(),
            hv == hviews(handles@),
            (best_trust, best_ts) == best_key(hv.take(i as int)),
            count == count_key(hv.take(i as int), (best_trust, best_ts)),
            best_idx as int == first_key_idx(hv.take(i as int), (best_trust, best_ts)),
            count <= i,
        decreases handles.len() - i,
    {
        let ghost t = hv.take(i + 1);
        proof {
            assert(t.drop_last() =~= hv.take(i as int));
            assert(t.last() == handles@[i as int]@);
        }
        let tr = handle_rank_exec(&handles[i]);
        let ts = recency_exec(&handles[i]);
        if tr > best_trust || (tr == best_trust && ts > best_ts) {
            proof {
                let p = hv.take(i as int);
                lemma_best_bounds(p);
                assert forall|j: int| 0 <= j < p.len() implies rank_key(#[trigger] p[j]) != (
                    tr,
                    ts,
                ) by {
                    assert(!key_above(rank_key(p[j]), best_key(p)));
                };
                lemma_count_none(p, (tr, ts));
            }
            best_trust = tr;
            best_ts = ts;
            best_idx = i;
            count = 1;
        } else if tr == best_trust && ts == best_ts {
            proof {
                lemma_first_idx_bounds(hv.take(i as int), (best_trust, best_ts));
            }
            count = count + 1;
        }
        i += 1;
    }
    assert(hv.take(handles.len() as int) =~= hv);
    if count > 1 {
        return Err(fail(ErrorCode::AmbiguousConflict, "RESOLVE tie cannot be broken"));
    }
    proof {
        lemma_first_idx_bounds(hv, best_key(hv));
    }
    let winner = handles[best_idx].clone();
    Ok(
        RegValue {
            data: RegData::Handle(winner),
            provenance: clone_names(&input.provenance),
            taint: clone_taint(&input.taint),
            min_trust: input.min_trust,
            join_depth: input.join_depth,
            source: SourceKind::Resolve,
        },
    )
}

// ----------------------------------------------------------------------
// FILTER
// ----------------------------------------------------------------------

/// The handles a filter keeps, in order, or the first filter error.
pub open spec fn filter_all(
    hs: Seq<HandleRefView>,
    filter_ref: Seq<char>,
    params: Seq<(Seq<char>, ValueView)>,
) -> Result<Seq<HandleRefView>, StopView>
    decreases hs.len(),
{
    if hs.len() == 0 {
        Ok(Seq::empty())
    } else {
        match filter_all(hs.drop_last(), filter_ref, params) {
            Err(e) => Err(e),
            Ok(kept) => match filter_spec(hs.last(), filter_ref, params) {
                Err(e) => Err(e),
                Ok(b) => Ok(
                    if b {
                        kept.push(hs.last())
                    } else {
                        kept
                    },
                ),
            },
        }
    }
}

/// FILTER.
pub open spec fn filter_op_spec(
    filter: OpFilterView,
    regs: Seq<(Seq<char>, RegView)>,
    budget: NormalizedBudget,
) -> Result<RegView, StopView> {
    match reg_lookup(regs, filter.in_reg) {
        None => Err(rejected(ErrorCode::SchemaViolation, "FILTER input register missing")),
        Some(input) => match as_handles_spec(input.data) {
            Err(e) => Err(e),
            Ok(hs) => match filter_all(hs, filter.filter_ref, filter.params) {
                Err(e) => Err(e),
                Ok(kept) => if sort_by_ref(kept).len() > budget.max_fanout {
                    Err(rejected(ErrorCode::GraphTraversalLimit, "filter fanout exceeded max_fanout"))
                } else {
                    Ok(
                        RegView {
                            data: RegDataView::HandleSet(sort_by_ref(kept)),
                            provenance: input.provenance,
                            taint: input.taint,
                            min_trust: input.min_trust,
                            join_depth: input.join_depth,
                            source: SourceKind::Filter,
                        },
                    )
                },
            },
        },
    }
}

/// FILTER.
pub fn exec_filter(filter: &OpFilter, regs: &Vec<(String, RegValue)>, budget: NormalizedBudget) -> (r:
    Result<RegValue, ExecStop>)
    ensures
        match r {
            Ok(v) => filter_op_spec(filter@, regs_view(regs@), budget) == Ok::<RegView, StopView>(
                v@,
            ),
            Err(e) => filter_op_spec(filter@, regs_view(regs@), budget) == Err::<
                RegView,
                StopView,
            >(e@),
        },
{
    let input = match find_reg(regs, filter.in_reg.as_str()) {
        Some(i) => i,
        None => {
            return Err(fail(ErrorCode::SchemaViolation, "FILTER input register missing"));
        },
    };
    let handles = match as_handles(&input.data) {
        Ok(h) => h,
        Err(e) => {
            return Err(e);
        },
    };
    let ghost hv = hviews(handles@);
    let mut out: Vec<HandleRef> = Vec::new();
    let mut i: usize = 0;
    assert(hviews(out@) =~= Seq::<HandleRefView>::empty());
    assert(hv.take(0) =~= Seq::<HandleRefView>::empty());
    while i < handles.len()
        invariant
            i <= handles.len(),
            hv == hviews(handles@),
            reg_lookup(regs_view(regs@), filter.in_reg@) == Some(input@),
            as_handles_spec(input@.data) == Ok::<Seq<HandleRefView>, StopView>(hv),
            filter_all(hv.take(i as int), filter.filter_ref@, filter.params@) == Ok::<
                Seq<HandleRefView>,
                StopView,
            >(hviews(out@)),
        decreases handles.len() - i,
    {
        let ghost t = hv.take(i + 1);
        proof {
            assert(t.drop_last() =~= hv.take(i as int));
            assert(t.last() == handles@[i as int]@);
        }
        match matches_filter(&handles[i], filter.filter_ref.as_str(), &filter.params) {
            Err(e) => {
                proof {
                    assert(filter_all(t, filter.filter_ref@, filter.params@) == Err::<
                        Seq<HandleRefView>,
                        StopView,
                    >(e@));
                    lemma_filter_all_err_extends(hv, filter.filter_ref@, filter.params@, i + 1);
                    assert(filter_all(hv, filter.filter_ref@, filter.params@) == Err::<
                        Seq<HandleRefView>,
                        StopView,
                    >(e@));
                }
                return Err(e);
            },
            Ok(b) => {
                let ghost old_out = hviews(out@);
                if b {
                    out.push(handles[i].clone());
                    assert(hviews(out@) =~= old_out.push(handles@[i as int]@));
                }
                proof {
                    assert(filter_all(t, filter.filter_ref@, filter.params@) == Ok::<
                        Seq<HandleRefView>,
                        StopView,
                    >(hviews(out@)));
                }
            },
        }
        i += 1;
    }
    assert(hv.take(handles.len() as int) =~= hv);
    let sorted = sort_handles(out);
    if sorted.len() as u64 > budget.max_fanout as u64 {
        return Err(fail(ErrorCode::GraphTraversalLimit, "filter fanout exceeded max_fanout"));
    }
    Ok(
        RegValue {
            data: RegData::HandleSet(sorted),
            provenance: clone_names(&input.provenance),
            taint: clone_taint(&input.taint),
            min_trust: input.min_trust,
            join_depth: input.join_depth,
            source: SourceKind::Filter,
        },
    )
}

/// An error on a prefix is the error of the whole list.
proof fn lemma_filter_all_err_extends(
    hs: Seq<HandleRefView>,
    filter_ref: Seq<char>,
    params: Seq<(Seq<char>, ValueView)>,
    i: int,
)
    requires
        0 <= i <= hs.len(),
        filter_all(hs.take(i), filter_ref, params) is Err,
    ensures
        filter_all(hs, filter_ref, params) == filter_all(hs.take(i), filter_ref, params),
    decreases hs.len() - i,
{
    if i < hs.len() {
        let t = hs.take(i + 1);
        assert(t.drop_last() =~= hs.take(i));
        lemma_filter_all_err_extends(hs, filter_ref, params, i + 1);
    } else {
        assert(hs.take(i) =~= hs);
    }
}

// ----------------------------------------------------------------------
// JOIN
// ----------------------------------------------------------------------

/// Whether a pair of handles is related by the edge type.
pub open spec fn edge_holds(edge: EdgeType, l: HandleRefView, r: HandleRefView) -> bool {
    match edge {
        EdgeType::EdgeConflictsWith => l.conflict_group_id.len() != 0 && l.conflict_group_id
            == r.conflict_group_id && l.ref_id != r.ref_id,
        EdgeType::EdgeSupersedes => l.type_id == r.type_id && l.ref_id != r.ref_id,
        EdgeType::EdgeProvenance => l.signature_summary == r.signature_summary,
        EdgeType::EdgeSameEntity => subject_of(l) == subject_of(r),
        EdgeType::Unspecified => false,
    }
}

/// The join map after pairing `l` with each of `rs`.
pub open spec fn join_inner(
    m: Seq<(Seq<char>, HandleRefView)>,
    l: HandleRefView,
    rs: Seq<HandleRefView>,
    edge: EdgeType,
) -> Seq<(Seq<char>, HandleRefView)>
    decreases rs.len(),
{
    if rs.len() == 0 {
        m
    } else {
        let m2 = join_inner(m, l, rs.drop_last(), edge);
        let r = rs.last();
        if edge_holds(edge, l, r) {
            smap_insert(smap_insert(m2, l.ref_id, l), r.ref_id, r)
        } else {
            m2
        }
    }
}

/// The join map after pairing each of `ls` with each of `rs`.
pub open spec fn join_outer(
    ls: Seq<HandleRefView>,
    rs: Seq<HandleRefView>,
    edge: EdgeType,
) -> Seq<(Seq<char>, HandleRefView)>
    decreases ls.len(),
{
    if ls.len() == 0 {
        Seq::empty()
    } else {
        join_inner(join_outer(ls.drop_last(), rs, edge), ls.last(), rs, edge)
    }
}

/// JOIN.
pub open spec fn join_spec(join: OpJoinView, regs: Seq<(Seq<char>, RegView)>, budget: NormalizedBudget) -> Result<
    RegView,
    StopView,
> {
    match reg_lookup(regs, join.left_reg) {
        None => Err(rejected(ErrorCode::SchemaViolation, "JOIN left register missing")),
        Some(left) => match reg_lookup(regs, join.right_reg) {
            None => Err(rejected(ErrorCode::SchemaViolation, "JOIN right register missing")),
            Some(right) => if edge_type_from(join.edge_type) == EdgeType::Unspecified {
                Err(rejected(ErrorCode::SchemaViolation, "JOIN edge_type unspecified"))
            } else {
                match as_handles_spec(left.data) {
                    Err(e) => Err(e),
                    Ok(ls) => match as_handles_spec(right.data) {
                        Err(e) => Err(e),
                        Ok(rs) => {
                            let joined = join_outer(ls, rs, edge_type_from(join.edge_type));
                            if joined.len() > budget.max_fanout {
                                Err(
                                    rejected(
                                        ErrorCode::GraphTraversalLimit,
                                        "join fanout exceeded max_fanout",
                                    ),
                                )
                            } else {
                                Ok(
                                    RegView {
                                        data: RegDataView::HandleSet(
                                            joined.map_values(
                                                |e: (Seq<char>, HandleRefView)| e.1,
                                            ),
                                        ),
                                        provenance: left.provenance.union(right.provenance),
                                        taint: left.taint.union(right.taint),
                                        min_trust: min_tier(left.min_trust, right.min_trust),
                                        join_depth: (if left.join_depth >= right.join_depth {
                                            left.join_depth
                                        } else {
                                            right.join_depth
                                        }) + 1,
                                        source: SourceKind::Join,
                                    },
                                )
                            }
                        },
                    },
                }
            },
        },
    }
}

fn edge_holds_exec(edge: EdgeType, l: &HandleRef, r: &HandleRef) -> (b: bool)
    ensures
        b == edge_holds(edge, l@, r@),
{
    match edge {
        EdgeType::EdgeConflictsWith => !str_is_empty(l.conflict_group_id.as_str()) && str_eq(
            l.conflict_group_id.as_str(),
            r.conflict_group_id.as_str(),
        ) && !str_eq(l.ref_id.as_str(), r.ref_id.as_str()),
        EdgeType::EdgeSupersedes => str_eq(l.type_id.as_str(), r.type_id.as_str()) && !str_eq(
            l.ref_id.as_str(),
            r.ref_id.as_str(),
        ),
        EdgeType::EdgeProvenance => str_eq(
            l.signature_summary.as_str(),
            r.signature_summary.as_str(),
        ),
        EdgeType::EdgeSameEntity => match (&l.meta, &r.meta) {
            (Some(a), Some(b)) => str_eq(a.subject.as_str(), b.subject.as_str()),
            (None, None) => true,
            _ => false,
        },
        EdgeType::Unspecified => false,
    }
}

fn union_names(a: &Vec<String>, b: &Vec<String>) -> (r: Vec<String>)
    ensures
        r@.map_values(|s: String| s@).to_set() == a@.map_values(|s: String| s@).to_set().union(
            b@.map_values(|s: String| s@).to_set(),
        ),
{
    let mut r = clone_names(a);
    let ghost av = a@.map_values(|s: String| s@);
    let ghost bv = b@.map_values(|s: String| s@);
    let mut i: usize = 0;
    while i < b.len()
        invariant
            i <= b.len(),
            bv == b@.map_values(|s: String| s@),
            r@.map_values(|s: String| s@) == av + bv.take(i as int),
        decreases b.len() - i,
    {
        let ghost old_r = r@;
        r.push(b[i].clone());
        proof {
            assert(r@.map_values(|s: String| s@) =~= old_r.map_values(|s: String| s@).push(
                bv[i as int],
            ));
            assert(bv.take(i + 1) =~= bv.take(i as int).push(bv[i as int]));
            assert(r@.map_values(|s: String| s@) =~= av + bv.take(i + 1));
        }
        i += 1;
    }
    proof {
        assert(bv.take(b.len() as int) =~= bv);
        crate::text::lemma_to_set_add(av, bv);
    }
    r
}

fn union_taint(a: &Vec<i32>, b: &Vec<i32>) -> (r: Vec<i32>)
    ensures
        r@.to_set() == a@.to_set().union(b@.to_set()),
{
    let mut r = clone_taint(a);
    let mut i: usize = 0;
    while i < b.len()
        invariant
            i <= b.len(),
            r@ == a@ + b@.take(i as int),
        decreases b.len() - i,
    {
        r.push(b[i]);
        assert(b@.take(i + 1) =~= b@.take(i as int).push(b@[i as int]));
        assert(r@ =~= a@ + b@.take(i + 1));
        i += 1;
    }
    proof {
        assert(b@.take(b.len() as int) =~= b@);
        crate::text::lemma_to_set_add(a@, b@);
    }
    r
}

/// JOIN; `bound` caps the join depth of every register.
pub fn exec_join(
    join: &OpJoin,
    regs: &Vec<(String, RegValue)>,
    budget: NormalizedBudget,
    bound: u64,
) -> (r: Result<RegValue, ExecStop>)
    requires
        bound < u64::MAX,
        forall|j: int| 0 <= j < regs@.len() ==> (#[trigger] regs@[j]).1.join_depth <= bound,
    ensures
        match r {
            Ok(v) => join_spec(join@, regs_view(regs@), budget) == Ok::<RegView, StopView>(v@)
                && v.join_depth <= bound + 1,
            Err(e) => join_spec(join@, regs_view(regs@), budget) == Err::<RegView, StopView>(e@),
        },
{
    let left = match find_reg(regs, join.left_reg.as_str()) {
        Some(i) => i,
        None => {
            return Err(fail(ErrorCode::SchemaViolation, "JOIN left register missing"));
        },
    };
    let right = match find_reg(regs, join.right_reg.as_str()) {
        Some(i) => i,
        None => {
            return Err(fail(ErrorCode::SchemaViolation, "JOIN right register missing"));
        },
    };
    proof {
        lemma_reg_lookup_in(regs@, join.left_reg@);
        lemma_reg_lookup_in(regs@, join.right_reg@);
    }
    let edge = edge_type_from_i32(join.edge_type);
    if edge == EdgeType::Unspecified {
        return Err(fail(ErrorCode::SchemaViolation, "JOIN edge_type unspecified"));
    }
    let left_set = match as_handles(&left.data) {
        Ok(h) => h,
        Err(e) => {
            return Err(e);
        },
    };
    let right_set = match as_handles(&right.data) {
        Ok(h) => h,
        Err(e) => {
            return Err(e);
        },
    };
    let ghost lv = hviews(left_set@);
    let ghost rv = hviews(right_set@);
    let mut joined: StrMap<HandleRef> = StrMap::new();
    let mut a: usize = 0;
    while a < left_set.len()
        invariant
            a <= left_set.len(),
            lv == hviews(left_set@),
            rv == hviews(right_set@),
            joined@ == join_outer(lv.take(a as int), rv, edge),
        decreases left_set.len() - a,
    {
        let ghost before = joined@;
        let l = &left_set[a];
        let mut b: usize = 0;
        while b < right_set.len()
            invariant
                b <= right_set.len(),
                rv == hviews(right_set@),
                l@ == lv[a as int],
                a < left_set.len(),
                lv == hviews(left_set@),
                joined@ == join_inner(before, l@, rv.take(b as int), edge),
            decreases right_set.len() - b,
        {
            let r = &right_set[b];
            proof {
                let t = rv.take(b + 1);
                assert(t.drop_last() =~= rv.take(b as int));
                assert(t.last() == r@);
            }
            if edge_holds_exec(edge, l, r) {
                joined.insert(l.ref_id.clone(), l.clone());
                joined.insert(r.ref_id.clone(), r.clone());
            }
            b += 1;
        }
        proof {
            assert(rv.take(right_set.len() as int) =~= rv);
            let t = lv.take(a + 1);
            assert(t.drop_last() =~= lv.take(a as int));
            assert(t.last() == lv[a as int]);
        }
        a += 1;
    }
    assert(lv.take(left_set.len() as int) =~= lv);
    if joined.len() as u64 > budget.max_fanout as u64 {
        return Err(fail(ErrorCode::GraphTraversalLimit, "join fanout exceeded max_fanout"));
    }
    let mut values: Vec<HandleRef> = Vec::new();
    let mut k: usize = 0;
    while k < joined.len()
        invariant
            k <= joined@.len(),
            hviews(values@) == joined@.take(k as int).map_values(
                |e: (Seq<char>, HandleRefView)| e.1,
            ),
        decreases joined@.len() - k,
    {
        let ghost old_values = values@;
        values.push(joined.value_at(k).clone());
        proof {
            assert(hviews(values@) =~= hviews(old_values).push(joined@[k as int].1));
            assert(joined@.take(k + 1) =~= joined@.take(k as int).push(joined@[k as int]));
            assert(hviews(values@) =~= joined@.take(k + 1).map_values(
                |e: (Seq<char>, HandleRefView)| e.1,
            ));
        }
        k += 1;
    }
    assert(joined@.take(joined@.len() as int) =~= joined@);
    let depth = if left.join_depth >= right.join_depth {
        left.join_depth
    } else {
        right.join_depth
    };
    Ok(
        RegValue {
            data: RegData::HandleSet(values),
            provenance: union_names(&left.provenance, &right.provenance),
            taint: union_taint(&left.taint, &right.taint),
            min_trust: min_tier_exec(left.min_trust, right.min_trust),
            join_depth: depth + 1,
            source: SourceKind::Join,
        },
    )
}

/// A register found by name is one of the registers.
pub proof fn lemma_reg_lookup_in(regs: Seq<(String, RegValue)>, name: Seq<char>)
    ensures
        reg_lookup(regs_view(regs), name) matches Some(v) ==> exists|j: int|
            0 <= j < regs.len() && (#[trigger] regs[j]).1@ == v,
    decreases regs.len(),
{
    if regs.len() > 0 {
        let rv = regs_view(regs);
        assert(rv.drop_last() =~= regs_view(regs.drop_last()));
        lemma_reg_lookup_in(regs.drop_last(), name);
        if rv.last().0 == name {
            assert(regs[regs.len() - 1].1@ == rv.last().1);
        } else if reg_lookup(rv.drop_last(), name) is Some {
            let j = choose|j: int|
                0 <= j < regs.drop_last().len() && (#[trigger] regs.drop_last()[j]).1@
                    == reg_lookup(regs_view(regs.drop_last()), name).unwrap();
            assert(regs[j] == regs.drop_last()[j]);
        }
    }
}

// ----------------------------------------------------------------------
// PROJECT
// ----------------------------------------------------------------------

/// The projected fields of a handle; `skip_count` leaves out `set_count`.
pub open spec fn project_handle(h: HandleRefView, paths: Seq<Seq<char>>, skip_count: bool) -> Result<
    Seq<(Seq<char>, ValueView)>,
    StopView,
>
    decreases paths.len(),
{
    if paths.len() == 0 {
        Ok(Seq::empty())
    } else {
        match project_handle(h, paths.drop_last(), skip_count) {
            Err(e) => Err(e),
            Ok(m) => if skip_count && paths.last() == "set_count"@ {
                Ok(m)
            } else {
                match handle_field_spec(h, paths.last()) {
                    None => Err(rejected(ErrorCode::FieldRedacted, "PROJECT field path missing")),
                    Some(v) => Ok(smap_insert(m, paths.last(), v)),
                }
            },
        }
    }
}

/// The projected fields of a struct.
pub open spec fn project_struct(values: Seq<(Seq<char>, ValueView)>, paths: Seq<Seq<char>>) -> Result<
    Seq<(Seq<char>, ValueView)>,
    StopView,
>
    decreases paths.len(),
{
    if paths.len() == 0 {
        Ok(Seq::empty())
    } else {
        match project_struct(values, paths.drop_last()) {
            Err(e) => Err(e),
            Ok(m) => match smap_get(values, paths.last()) {
                None => Err(rejected(ErrorCode::FieldRedacted, "PROJECT field missing")),
                Some(v) => Ok(smap_insert(m, paths.last(), v)),
            },
        }
    }
}

/// The projected struct of a register's data.
pub open spec fn project_data(d: RegDataView, paths: Seq<Seq<char>>) -> Result<
    Seq<(Seq<char>, ValueView)>,
    StopView,
> {
    match d {
        RegDataView::Handle(h) => project_handle(h, paths, false),
        RegDataView::HandleSet(hs) => match (if hs.len() > 0 {
            project_handle(hs[0], paths, true)
        } else {
            Ok(Seq::empty())
        }) {
            Err(e) => Err(e),
            Ok(m) => Ok(smap_insert(m, "set_count"@, i64_val(hs.len() as i64))),
        },
        RegDataView::Struct(vs) => project_struct(vs, paths),
    }
}

/// PROJECT.
pub open spec fn project_spec(project: OpProjectView, regs: Seq<(Seq<char>, RegView)>) -> Result<
    RegView,
    StopView,
> {
    match reg_lookup(regs, project.in_reg) {
        None => Err(rejected(ErrorCode::SchemaViolation, "PROJECT input register missing")),
        Some(input) => match project_data(input.data, project.field_paths) {
            Err(e) => Err(e),
            Ok(m) => Ok(
                RegView {
                    data: RegDataView::Struct(m),
                    provenance: input.provenance,
                    taint: input.taint,
                    min_trust: input.min_trust,
                    join_depth: input.join_depth,
                    source: SourceKind::Project,
                },
            ),
        },
    }
}

proof fn lemma_project_handle_err(
    h: HandleRefView,
    paths: Seq<Seq<char>>,
    skip: bool,
    i: int,
)
    requires
        0 <= i <= paths.len(),
        project_handle(h, paths.take(i), skip) is Err,
    ensures
        project_handle(h, paths, skip) == project_handle(h, paths.take(i), skip),
    decreases paths.len() - i,
{
    if i < paths.len() {
        let t = paths.take(i + 1);
        assert(t.drop_last() =~= paths.take(i));
        lemma_project_handle_err(h, paths, skip, i + 1);
    } else {
        assert(paths.take(i) =~= paths);
    }
}

proof fn lemma_project_struct_err(values: Seq<(Seq<char>, ValueView)>, paths: Seq<Seq<char>>, i: int)
    requires
        0 <= i <= paths.len(),
        project_struct(values, paths.take(i)) is Err,
    ensures
        project_struct(values, paths) == project_struct(values, paths.take(i)),
    decreases paths.len() - i,
{
    if i < paths.len() {
        let t = paths.take(i + 1);
        assert(t.drop_last() =~= paths.take(i));
        lemma_project_struct_err(values, paths, i + 1);
    } else {
        assert(paths.take(i) =~= paths);
    }
}

fn project_handle_exec(h: &HandleRef, paths: &Vec<String>, skip: bool) -> (r: Result<
    StrMap<Value>,
    ExecStop,
>)
    ensures
        match r {
            Ok(m) => project_handle(h@, paths@.map_values(|s: String| s@), skip) == Ok::<
                Seq<(Seq<char>, ValueView)>,
                StopView,
            >(m@),
            Err(e) => project_handle(h@, paths@.map_values(|s: String| s@), skip) == Err::<
                Seq<(Seq<char>, ValueView)>,
                StopView,
            >(e@),
        },
{
    let ghost pv = paths@.map_values(|s: String| s@);
    let mut out: StrMap<Value> = StrMap::new();
    let mut i: usize = 0;
    while i < paths.len()
        invariant
            i <= paths.len(),
            pv == paths@.map_values(|s: String| s@),
            project_handle(h@, pv.take(i as int), skip) == Ok::<
                Seq<(Seq<char>, ValueView)>,
                StopView,
            >(out@),
        decreases paths.len() - i,
    {
        let ghost t = pv.take(i + 1);
        proof {
            assert(t.drop_last() =~= pv.take(i as int));
            assert(t.last() == paths@[i as int]@);
        }
        if skip && str_eq(paths[i].as_str(), "set_count") {
        } else {
            match handle_field(h, paths[i].as_str()) {
                None => {
                    proof {
                        lemma_project_handle_err(h@, pv, skip, i + 1);
                    }
                    return Err(fail(ErrorCode::FieldRedacted, "PROJECT field path missing"));
                },
                Some(v) => {
                    out.insert(paths[i].clone(), v);
                },
            }
        }
        i += 1;
    }
    assert(pv.take(paths.len() as int) =~= pv);
    Ok(out)
}

fn project_struct_exec(values: &StrMap<Value>, paths: &Vec<String>) -> (r: Result<
    StrMap<Value>,
    ExecStop,
>)
    ensures
        match r {
            Ok(m) => project_struct(values@, paths@.map_values(|s: String| s@)) == Ok::<
                Seq<(Seq<char>, ValueView)>,
                StopView,
            >(m@),
            Err(e) => project_struct(values@, paths@.map_values(|s: String| s@)) == Err::<
                Seq<(Seq<char>, ValueView)>,
                StopView,
            >(e@),
        },
{
    let ghost pv = paths@.map_values(|s: String| s@);
    let mut out: StrMap<Value> = StrMap::new();
    let mut i: usize = 0;
    while i < paths.len()
        invariant
            i <= paths.len(),
            pv == paths@.map_values(|s: String| s@),
            project_struct(values@, pv.take(i as int)) == Ok::<
                Seq<(Seq<char>, ValueView)>,
                StopView,
            >(out@),
        decreases paths.len() - i,
    {
        let ghost t = pv.take(i + 1);
        proof {
            assert(t.drop_last() =~= pv.take(i as int));
            assert(t.last() == paths@[i as int]@);
        }
        match values.get(paths[i].as_str()) {
            None => {
                proof {
                    lemma_project_struct_err(values@, pv, i + 1);
                }
                return Err(fail(ErrorCode::FieldRedacted, "PROJECT field missing"));
            },
            Some(v) => {
                out.insert(paths[i].clone(), v.clone());
            },
        }
        i += 1;
    }
    assert(pv.take(paths.len() as int) =~= pv);
    Ok(out)
}

/// PROJECT.
pub fn exec_project(project: &OpProject, regs: &Vec<(String, RegValue)>) -> (r: Result<
    RegValue,
    ExecStop,
>)
    ensures
        match r {
            Ok(v) => project_spec(project@, regs_view(regs@)) == Ok::<RegView, StopView>(v@),
            Err(e) => project_spec(project@, regs_view(regs@)) == Err::<RegView, StopView>(e@),
        },
{
    let input = match find_reg(regs, project.in_reg.as_str()) {
        Some(i) => i,
        None => {
            return Err(fail(ErrorCode::SchemaViolation, "PROJECT input register missing"));
        },
    };
    let out = match &input.data {
        RegData::Handle(h) => project_handle_exec(h, &project.field_paths, false),
        RegData::HandleSet(hs) => {
            let first = if hs.len() > 0 {
                project_handle_exec(&hs[0], &project.field_paths, true)
            } else {
                Ok(StrMap::new())
            };
            match first {
                Err(e) => Err(e),
                Ok(m) => {
                    let mut m = m;
                    m.insert(owned("set_count"), i64_value(hs.len() as i64));
                    Ok(m)
                },
            }
        },
        RegData::Struct(vs) => project_struct_exec(vs, &project.field_paths),
    };
    match out {
        Err(e) => Err(e),
        Ok(m) => Ok(
            RegValue {
                data: RegData::Struct(m),
                provenance: clone_names(&input.provenance),
                taint: clone_taint(&input.taint),
                min_trust: input.min_trust,
                join_depth: input.join_depth,
                source: SourceKind::Project,
            },
        ),
    }
}

} // verus!
