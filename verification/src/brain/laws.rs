//! What the brain operations promise across calls.
use vstd::prelude::*;

use crate::brain::state::{
    attach_outcome, detach_fold, forget_outcome, merge_fold, suppress_fold, to_suppress,
    MergeStrategy, StampView,
};
use crate::brain::types::{AttachmentGrantView, BrainStateView, MemoryObjectView, SuppressionRecordView};
use crate::smap::{lemma_smap_get_insert, lemma_smap_insert_sorted, smap_get, smap_has, smap_sorted};

verus! {

/// Merging keeps the target's objects in a sorted map and adds every object
/// of the source: no id is lost, and every source id is present after.
pub proof fn lemma_merge_keeps_and_adds(
    src: Seq<(Seq<char>, MemoryObjectView)>,
    dst: Seq<(Seq<char>, MemoryObjectView)>,
    strategy: MergeStrategy,
)
    requires
        smap_sorted(dst),
    ensures
        smap_sorted(merge_fold(src, dst, strategy).0),
        forall|k: Seq<char>| smap_has(dst, k) ==> smap_has(#[trigger] merge_fold(src, dst, strategy).0, k),
        forall|j: int| 0 <= j < src.len() ==> smap_has(merge_fold(src, dst, strategy).0, #[trigger] src[j].0),
    decreases src.len(),
{
    if src.len() > 0 {
        let p = src.drop_last();
        lemma_merge_keeps_and_adds(p, dst, strategy);
        let d = merge_fold(p, dst, strategy).0;
        let id = src.last().0;
        let o = src.last().1;
        let r = merge_fold(src, dst, strategy).0;
        lemma_smap_insert_sorted(d, id, o);
        assert forall|k: Seq<char>| smap_has(d, k) implies smap_has(r, k) by {};
        assert forall|j: int| 0 <= j < src.len() implies smap_has(r, #[trigger] src[j].0) by {
            if j < src.len() - 1 {
                assert(p[j] == src[j]);
            }
        };
    }
}

/// Merging with `Ours` never changes an object the target already holds.
pub proof fn lemma_merge_ours_keeps_target(
    src: Seq<(Seq<char>, MemoryObjectView)>,
    dst: Seq<(Seq<char>, MemoryObjectView)>,
    k: Seq<char>,
)
    requires
        smap_sorted(dst),
        smap_has(dst, k),
    ensures
        smap_get(merge_fold(src, dst, MergeStrategy::Ours).0, k) == smap_get(dst, k),
    decreases src.len(),
{
    if src.len() > 0 {
        let p = src.drop_last();
        lemma_merge_ours_keeps_target(p, dst, k);
        lemma_merge_keeps_and_adds(p, dst, MergeStrategy::Ours);
        let d = merge_fold(p, dst, MergeStrategy::Ours).0;
        lemma_smap_insert_sorted(d, src.last().0, src.last().1);
    }
}

/// Merging with `Theirs` leaves, under every id of a source with distinct
/// ids, an object with the source object's value and suppression.
pub proof fn lemma_merge_theirs_takes_source(
    src: Seq<(Seq<char>, MemoryObjectView)>,
    dst: Seq<(Seq<char>, MemoryObjectView)>,
    j: int,
)
    requires
        smap_sorted(dst),
        smap_sorted(src),
        0 <= j < src.len(),
    ensures
        smap_get(merge_fold(src, dst, MergeStrategy::Theirs).0, src[j].0) matches Some(x) && x.value
            == src[j].1.value && x.suppressed == src[j].1.suppressed,
    decreases src.len(),
{
    let p = src.drop_last();
    lemma_merge_keeps_and_adds(p, dst, MergeStrategy::Theirs);
    let d = merge_fold(p, dst, MergeStrategy::Theirs).0;
    lemma_smap_insert_sorted(d, src.last().0, src.last().1);
    if j < src.len() - 1 {
        assert(crate::smap::smap_keys(src)[j] == src[j].0);
        assert(crate::smap::smap_keys(src)[src.len() - 1] == src.last().0);
        assert(src[j].0 != src.last().0) by {
            crate::text::lemma_seq_less_irrefl(src[j].0);
        };
        assert(crate::smap::smap_keys(p) =~= crate::smap::smap_keys(src).drop_last());
        assert(p[j] == src[j]);
        lemma_merge_theirs_takes_source(p, dst, j);
    }
}

/// A forget leaves nothing to suppress: forgetting the same subject and
/// predicate again changes no object and suppresses none.
pub proof fn lemma_forget_twice(
    m: Seq<(Seq<char>, MemoryObjectView)>,
    subject: Seq<char>,
    predicate: Seq<char>,
)
    ensures
        suppress_fold(suppress_fold(m, subject, predicate).0, subject, predicate)
            == (suppress_fold(m, subject, predicate).0, 0nat),
    decreases m.len(),
{
    if m.len() > 0 {
        lemma_forget_twice(m.drop_last(), subject, predicate);
        let r = suppress_fold(m, subject, predicate).0;
        let rp = suppress_fold(m.drop_last(), subject, predicate).0;
        assert(r.drop_last() =~= rp);
        assert(!to_suppress(r.last().1, subject, predicate));
    }
}

/// The objects a forget of `subject` and `predicate` suppresses: those that
/// match both and are not suppressed yet, in order.
pub open spec fn forget_matches(
    m: Seq<(Seq<char>, MemoryObjectView)>,
    subject: Seq<char>,
    predicate: Seq<char>,
) -> Seq<(Seq<char>, MemoryObjectView)> {
    m.filter(|e: (Seq<char>, MemoryObjectView)| to_suppress(e.1, subject, predicate))
}

/// An object as a forget leaves it: suppressed if it matched, else as it was.
pub open spec fn after_forget(o: MemoryObjectView, subject: Seq<char>, predicate: Seq<char>) -> MemoryObjectView {
    if to_suppress(o, subject, predicate) {
        MemoryObjectView { suppressed: true, ..o }
    } else {
        o
    }
}

/// Suppression in detail: every object stays under its id in its place,
/// the matching ones suppressed and the others unchanged, and the count is
/// the number of matching objects.
pub proof fn lemma_suppress_fold_exact(
    m: Seq<(Seq<char>, MemoryObjectView)>,
    subject: Seq<char>,
    predicate: Seq<char>,
)
    ensures
        suppress_fold(m, subject, predicate).0.len() == m.len(),
        suppress_fold(m, subject, predicate).1 == forget_matches(m, subject, predicate).len(),
        forall|i: int|
            0 <= i < m.len() ==> (#[trigger] suppress_fold(m, subject, predicate).0[i]).0 == m[i].0
                && suppress_fold(m, subject, predicate).0[i].1 == after_forget(m[i].1, subject, predicate),
    decreases m.len(),
{
    if m.len() > 0 {
        lemma_suppress_fold_exact(m.drop_last(), subject, predicate);
        let pred = |e: (Seq<char>, MemoryObjectView)| to_suppress(e.1, subject, predicate);
        assert(m.drop_last().push(m.last()) =~= m);
        m.drop_last().lemma_filter_push(m.last(), pred);
        let r = suppress_fold(m, subject, predicate).0;
        let rp = suppress_fold(m.drop_last(), subject, predicate).0;
        assert(r.drop_last() =~= rp);
        assert forall|i: int| 0 <= i < m.len() implies (#[trigger] r[i]).0 == m[i].0 && r[i].1 == after_forget(
            m[i].1,
            subject,
            predicate,
        ) by {
            if i < m.len() - 1 {
                assert(r[i] == rp[i]);
                assert(m[i] == m.drop_last()[i]);
            }
        };
    }
}

/// Forget suppresses, it does not delete: on a brain whose active branch
/// exists, a forget returns the number of matching unsuppressed objects,
/// leaves every object of the branch under its id in its place (matching
/// ones suppressed, others unchanged), appends one suppression record with
/// that count, and an immediate repeat suppresses nothing and returns 0.
pub proof fn lemma_forget_suppresses_exactly(
    s: BrainStateView,
    active: Seq<char>,
    subject: Seq<char>,
    predicate: Seq<char>,
    scope: Seq<char>,
    reason: Seq<char>,
    record: StampView,
    stamp: StampView,
    scope2: Seq<char>,
    reason2: Seq<char>,
    record2: StampView,
    stamp2: StampView,
)
    requires
        smap_get(s.branches, active) is Some,
    ensures
        ({
            let b = smap_get(s.branches, active)->Some_0;
            let out = forget_outcome(s, active, subject, predicate, scope, reason, record, stamp);
            &&& out is Ok
            &&& out->Ok_0.1 == forget_matches(b.memory_objects, subject, predicate).len()
            &&& smap_get(out->Ok_0.0.branches, active) is Some
            &&& smap_get(out->Ok_0.0.branches, active)->Some_0.memory_objects.len() == b.memory_objects.len()
            &&& forall|i: int|
                0 <= i < b.memory_objects.len() ==> (#[trigger] smap_get(out->Ok_0.0.branches, active)->Some_0.memory_objects[i]).0
                    == b.memory_objects[i].0 && smap_get(out->Ok_0.0.branches, active)->Some_0.memory_objects[i].1
                    == after_forget(b.memory_objects[i].1, subject, predicate)
            &&& smap_get(out->Ok_0.0.branches, active)->Some_0.suppressions == b.suppressions.push(
                SuppressionRecordView {
                    id: record.id,
                    ts: record.ts,
                    subject,
                    predicate,
                    scope,
                    reason,
                    suppressed_count: out->Ok_0.1 as usize,
                },
            )
            &&& forget_outcome(out->Ok_0.0, active, subject, predicate, scope2, reason2, record2, stamp2) is Ok
            &&& forget_outcome(out->Ok_0.0, active, subject, predicate, scope2, reason2, record2, stamp2)->Ok_0.1 == 0
        }),
{
    let b = smap_get(s.branches, active)->Some_0;
    let objs = suppress_fold(b.memory_objects, subject, predicate).0;
    lemma_suppress_fold_exact(b.memory_objects, subject, predicate);
    let out = forget_outcome(s, active, subject, predicate, scope, reason, record, stamp);
    let nb = crate::brain::types::BranchStateView {
        name: b.name,
        memory_objects: objs,
        rules: b.rules,
        ledger: b.ledger,
        suppressions: b.suppressions.push(
            SuppressionRecordView {
                id: record.id,
                ts: record.ts,
                subject,
                predicate,
                scope,
                reason,
                suppressed_count: suppress_fold(b.memory_objects, subject, predicate).1 as usize,
            },
        ),
    };
    lemma_smap_get_insert(s.branches, active, nb);
    assert(smap_get(out->Ok_0.0.branches, active) == Some(nb));
    lemma_forget_twice(b.memory_objects, subject, predicate);
}

/// After a detach no grant of that agent (and model, when one is named)
/// is left.
pub proof fn lemma_detach_removes_all(
    g: Seq<AttachmentGrantView>,
    agent: Seq<char>,
    model: Option<Seq<char>>,
)
    ensures
        forall|i: int|
            0 <= i < detach_fold(g, agent, model).0.len() ==> !((#[trigger] detach_fold(
                g,
                agent,
                model,
            ).0[i]).agent_id == agent && match model {
                None => true,
                Some(m) => m == detach_fold(g, agent, model).0[i].model_id,
            }),
    decreases g.len(),
{
    if g.len() > 0 {
        lemma_detach_len(g.drop_last(), agent, model);
        lemma_detach_removes_all(g.drop_last(), agent, model);
        let r = detach_fold(g, agent, model).0;
        let rp = detach_fold(g.drop_last(), agent, model).0;
        assert forall|i: int| 0 <= i < r.len() implies !((#[trigger] r[i]).agent_id == agent && match model {
            None => true,
            Some(m) => m == r[i].model_id,
        }) by {
            if i < rp.len() {
                assert(r[i] == rp[i]);
            }
        };
    }
}

proof fn lemma_detach_len(g: Seq<AttachmentGrantView>, agent: Seq<char>, model: Option<Seq<char>>)
    ensures
        detach_fold(g, agent, model).0.len() <= g.len(),
    decreases g.len(),
{
    if g.len() > 0 {
        lemma_detach_len(g.drop_last(), agent, model);
    }
}

/// After an attach the new grant is the only one for its agent and model,
/// and it is the last.
pub proof fn lemma_attach_single(s: BrainStateView, grant: AttachmentGrantView, stamp: StampView)
    ensures
        ({
            let a = attach_outcome(s, grant, stamp).attachments;
            &&& a.last() == grant
            &&& forall|i: int|
                0 <= i < a.len() - 1 ==> !((#[trigger] a[i]).agent_id == grant.agent_id && a[i].model_id
                    == grant.model_id)
        }),
{
    lemma_detach_removes_all(s.attachments, grant.agent_id, Some(grant.model_id));
    let k = detach_fold(s.attachments, grant.agent_id, Some(grant.model_id)).0;
    let a = attach_outcome(s, grant, stamp).attachments;
    assert forall|i: int| 0 <= i < a.len() - 1 implies !((#[trigger] a[i]).agent_id == grant.agent_id
        && a[i].model_id == grant.model_id) by {
        assert(a[i] == k[i]);
    };
}

} // verus!
