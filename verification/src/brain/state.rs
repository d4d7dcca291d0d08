//! What the brain commands do to a decrypted brain state: branching,
//! merging branches, suppressing memories, and granting or revoking
//! attachments, each recorded in the audit trail.
use vstd::prelude::*;

use crate::brain::jtext::{
    json_object, json_object_text, json_opt_str, json_quote, push_json_quoted,
};
use crate::brain::types::{
    AttachmentGrant, AttachmentGrantView, AuditEntry, AuditEntryView, BrainState, BrainStateView,
    BranchStateView, MemoryObjectView, MergeReport, MergeReportView, SuppressionRecord,
    SuppressionRecordView,
};
use crate::smap::{smap_get, smap_has, smap_insert};
use crate::text::{dec_nat, owned, push_u64, str_eq};

verus! {

/// The id and time an entry is recorded under; the caller draws them (a
/// fresh UUID and the current time).
pub struct Stamp {
    pub id: String,
    pub ts: String,
}

/// The mathematical model of [`Stamp`].
pub struct StampView {
    pub id: Seq<char>,
    pub ts: Seq<char>,
}

impl View for Stamp {
    type V = StampView;

    open spec fn view(&self) -> StampView {
        StampView { id: self.id@, ts: self.ts@ }
    }
}

/// How a merge settles an object both branches hold with different
/// contents: keep the target's, take the source's, or report a conflict.
#[derive(Clone, Copy, PartialEq, Eq, Structural)]
pub enum MergeStrategy {
    Ours,
    Theirs,
    Manual,
}

/// Why a brain operation was refused.
#[derive(Debug)]
pub enum BrainError {
    BranchExists(String),
    ActiveBranchMissing,
    UnknownSourceBranch(String),
    UnknownTargetBranch(String),
    MergeConflicts(Vec<String>),
    BrainNotFound(String),
    StateChecksumMismatch,
    TenantMismatch(String, String),
    NoActiveBrain,
    InvalidBase64,
    InvalidVerifyingKey,
    KeyRejected,
    InvalidSignature,
    SignatureMismatch,
    KeyDerivationFailed,
    EncryptionFailed,
    DecryptionFailed,
    InvalidSigningKey,
}

/// The mathematical model of [`BrainError`].
pub enum BrainErrorView {
    BranchExists(Seq<char>),
    ActiveBranchMissing,
    UnknownSourceBranch(Seq<char>),
    UnknownTargetBranch(Seq<char>),
    MergeConflicts(Seq<Seq<char>>),
    BrainNotFound(Seq<char>),
    StateChecksumMismatch,
    TenantMismatch(Seq<char>, Seq<char>),
    NoActiveBrain,
    InvalidBase64,
    InvalidVerifyingKey,
    KeyRejected,
    InvalidSignature,
    SignatureMismatch,
    KeyDerivationFailed,
    EncryptionFailed,
    DecryptionFailed,
    InvalidSigningKey,
}

impl View for BrainError {
    type V = BrainErrorView;

    open spec fn view(&self) -> BrainErrorView {
        match self {
            BrainError::BranchExists(b) => BrainErrorView::BranchExists(b@),
            BrainError::ActiveBranchMissing => BrainErrorView::ActiveBranchMissing,
            BrainError::UnknownSourceBranch(b) => BrainErrorView::UnknownSourceBranch(b@),
            BrainError::UnknownTargetBranch(b) => BrainErrorView::UnknownTargetBranch(b@),
            BrainError::MergeConflicts(ids) => BrainErrorView::MergeConflicts(
                ids@.map_values(|s: String| s@),
            ),
            BrainError::BrainNotFound(r) => BrainErrorView::BrainNotFound(r@),
            BrainError::StateChecksumMismatch => BrainErrorView::StateChecksumMismatch,
            BrainError::TenantMismatch(a, b) => BrainErrorView::TenantMismatch(a@, b@),
            BrainError::NoActiveBrain => BrainErrorView::NoActiveBrain,
            BrainError::InvalidBase64 => BrainErrorView::InvalidBase64,
            BrainError::InvalidVerifyingKey => BrainErrorView::InvalidVerifyingKey,
            BrainError::KeyRejected => BrainErrorView::KeyRejected,
            BrainError::InvalidSignature => BrainErrorView::InvalidSignature,
            BrainError::SignatureMismatch => BrainErrorView::SignatureMismatch,
            BrainError::KeyDerivationFailed => BrainErrorView::KeyDerivationFailed,
            BrainError::EncryptionFailed => BrainErrorView::EncryptionFailed,
            BrainError::DecryptionFailed => BrainErrorView::DecryptionFailed,
            BrainError::InvalidSigningKey => BrainErrorView::InvalidSigningKey,
        }
    }
}

/// An audit entry.
pub open spec fn audit_view(
    stamp: StampView,
    actor: Seq<char>,
    action: Seq<char>,
    details: Seq<char>,
) -> AuditEntryView {
    AuditEntryView { id: stamp.id, ts: stamp.ts, actor, action, details }
}

/// The JSON string literal of `s`.
pub fn quoted(s: &str) -> (out: String)
    ensures
        out@ == json_quote(s@),
{
    let mut out = String::new();
    push_json_quoted(&mut out, s);
    assert(out@ =~= json_quote(s@));
    out
}

fn audit_entry(actor: &str, action: &str, details: String, stamp: &Stamp) -> (e: AuditEntry)
    ensures
        e@ == audit_view(stamp@, actor@, action@, details@),
{
    AuditEntry {
        id: stamp.id.clone(),
        ts: stamp.ts.clone(),
        actor: owned(actor),
        action: owned(action),
        details,
    }
}

fn member(k: &str, v: String) -> (e: (String, String))
    ensures
        e.0@ == k@,
        e.1@ == v@,
{
    (owned(k), v)
}

fn decimal(n: usize) -> (s: String)
    ensures
        s@ == dec_nat(n as nat),
{
    let mut s = String::new();
    push_u64(&mut s, n as u64);
    assert(s@ =~= dec_nat(n as nat));
    s
}

// ----------------------------------------------------------------------
// branch
// ----------------------------------------------------------------------

/// What branching does: a new branch copied from the active one, or why not.
pub open spec fn branch_outcome(
    s: BrainStateView,
    active: Seq<char>,
    new_branch: Seq<char>,
    stamp: StampView,
) -> Result<BrainStateView, BrainErrorView> {
    if smap_has(s.branches, new_branch) {
        Err(BrainErrorView::BranchExists(new_branch))
    } else {
        match smap_get(s.branches, active) {
            None => Err(BrainErrorView::ActiveBranchMissing),
            Some(b) => Ok(
                BrainStateView {
                    branches: smap_insert(
                        s.branches,
                        new_branch,
                        BranchStateView {
                            name: new_branch,
                            memory_objects: b.memory_objects,
                            rules: b.rules,
                            ledger: b.ledger,
                            suppressions: b.suppressions,
                        },
                    ),
                    attachments: s.attachments,
                    audit: s.audit.push(
                        audit_view(
                            stamp,
                            "user"@,
                            "brain.branch"@,
                            json_object(seq![("from"@, json_quote(active)), ("to"@, json_quote(new_branch))]),
                        ),
                    ),
                },
            ),
        }
    }
}

// ----------------------------------------------------------------------
// merge
// ----------------------------------------------------------------------

/// The target's objects after taking over the source's, in the source's
/// order: an id the target lacks is added; one it holds with the same
/// value and suppression is left; otherwise the strategy decides. Also the
/// number of objects written and the conflicting ids.
pub open spec fn merge_fold(
    src: Seq<(Seq<char>, MemoryObjectView)>,
    dst: Seq<(Seq<char>, MemoryObjectView)>,
    strategy: MergeStrategy,
) -> (Seq<(Seq<char>, MemoryObjectView)>, nat, Seq<Seq<char>>)
    decreases src.len(),
{
    if src.len() == 0 {
        (dst, 0, Seq::empty())
    } else {
        let (d, n, c) = merge_fold(src.drop_last(), dst, strategy);
        let id = src.last().0;
        let o = src.last().1;
        match smap_get(d, id) {
            None => (smap_insert(d, id, o), n + 1, c),
            Some(x) => if x.value == o.value && x.suppressed == o.suppressed {
                (d, n, c)
            } else {
                match strategy {
                    MergeStrategy::Ours => (d, n, c),
                    MergeStrategy::Theirs => (smap_insert(d, id, o), n + 1, c),
                    MergeStrategy::Manual => (d, n, c.push(id)),
                }
            },
        }
    }
}

/// What merging `source` into `target` does, or why it is refused.
pub open spec fn merge_outcome(
    s: BrainStateView,
    source: Seq<char>,
    target: Seq<char>,
    strategy: MergeStrategy,
    stamp: StampView,
) -> Result<(BrainStateView, MergeReportView), BrainErrorView> {
    match smap_get(s.branches, source) {
        None => Err(BrainErrorView::UnknownSourceBranch(source)),
        Some(sb) => match smap_get(s.branches, target) {
            None => Err(BrainErrorView::UnknownTargetBranch(target)),
            Some(tb) => {
                let (objs, n, c) = merge_fold(sb.memory_objects, tb.memory_objects, strategy);
                if c.len() > 0 {
                    Err(BrainErrorView::MergeConflicts(c))
                } else {
                    Ok(
                        (
                            BrainStateView {
                                branches: smap_insert(
                                    s.branches,
                                    target,
                                    BranchStateView {
                                        name: tb.name,
                                        memory_objects: objs,
                                        rules: tb.rules,
                                        ledger: tb.ledger,
                                        suppressions: tb.suppressions,
                                    },
                                ),
                                attachments: s.attachments,
                                audit: s.audit.push(
                                    audit_view(
                                        stamp,
                                        "user"@,
                                        "brain.merge"@,
                                        json_object(
                                            seq![
                                                ("merged"@, dec_nat(n)),
                                                ("source"@, json_quote(source)),
                                                ("target"@, json_quote(target)),
                                            ],
                                        ),
                                    ),
                                ),
                            },
                            MergeReportView { merged: n as usize, conflicts: Seq::empty() },
                        ),
                    )
                }
            },
        },
    }
}

// ----------------------------------------------------------------------
// forget
// ----------------------------------------------------------------------

/// Whether a forget request suppresses an object now.
pub open spec fn to_suppress(o: MemoryObjectView, subject: Seq<char>, predicate: Seq<char>) -> bool {
    o.subject == subject && o.predicate == predicate && !o.suppressed
}

/// The objects with the matching unsuppressed ones suppressed, and how many.
pub open spec fn suppress_fold(
    m: Seq<(Seq<char>, MemoryObjectView)>,
    subject: Seq<char>,
    predicate: Seq<char>,
) -> (Seq<(Seq<char>, MemoryObjectView)>, nat)
    decreases m.len(),
{
    if m.len() == 0 {
        (m, 0)
    } else {
        let (r, n) = suppress_fold(m.drop_last(), subject, predicate);
        let (k, o) = m.last();
        if to_suppress(o, subject, predicate) {
            (r.push((k, MemoryObjectView { suppressed: true, ..o })), n + 1)
        } else {
            (r.push((k, o)), n)
        }
    }
}

/// What a forget request does to the active branch, or why it is refused.
pub open spec fn forget_outcome(
    s: BrainStateView,
    active: Seq<char>,
    subject: Seq<char>,
    predicate: Seq<char>,
    scope: Seq<char>,
    reason: Seq<char>,
    record: StampView,
    stamp: StampView,
) -> Result<(BrainStateView, nat), BrainErrorView> {
    match smap_get(s.branches, active) {
        None => Err(BrainErrorView::ActiveBranchMissing),
        Some(b) => {
            let (objs, n) = suppress_fold(b.memory_objects, subject, predicate);
            Ok(
                (
                    BrainStateView {
                        branches: smap_insert(
                            s.branches,
                            active,
                            BranchStateView {
                                name: b.name,
                                memory_objects: objs,
                                rules: b.rules,
                                ledger: b.ledger,
                                suppressions: b.suppressions.push(
                                    SuppressionRecordView {
                                        id: record.id,
                                        ts: record.ts,
                                        subject,
                                        predicate,
                                        scope,
                                        reason,
                                        suppressed_count: n as usize,
                                    },
                                ),
                            },
                        ),
                        attachments: s.attachments,
                        audit: s.audit.push(
                            audit_view(
                                stamp,
                                "user"@,
                                "brain.forget.suppress"@,
                                json_object(
                                    seq![
                                        ("predicate"@, json_quote(predicate)),
                                        ("scope"@, json_quote(scope)),
                                        ("subject"@, json_quote(subject)),
                                        ("suppressed"@, dec_nat(n)),
                                    ],
                                ),
                            ),
                        ),
                    },
                    n,
                ),
            )
        },
    }
}

// ----------------------------------------------------------------------
// attach and detach
// ----------------------------------------------------------------------

/// The grants that survive a detach of `agent` (of `model`, or of every
/// model when none is named), and how many were removed.
pub open spec fn detach_fold(
    g: Seq<AttachmentGrantView>,
    agent: Seq<char>,
    model: Option<Seq<char>>,
) -> (Seq<AttachmentGrantView>, nat)
    decreases g.len(),
{
    if g.len() == 0 {
        (g, 0)
    } else {
        let (r, n) = detach_fold(g.drop_last(), agent, model);
        let a = g.last();
        let hit = a.agent_id == agent && match model {
            None => true,
            Some(m) => m == a.model_id,
        };
        if hit {
            (r, n + 1)
        } else {
            (r.push(a), n)
        }
    }
}

/// What attaching a grant does: any grant for the same agent and model is
/// replaced by the new one, which goes last.
pub open spec fn attach_outcome(s: BrainStateView, grant: AttachmentGrantView, stamp: StampView) -> BrainStateView {
    BrainStateView {
        branches: s.branches,
        attachments: detach_fold(s.attachments, grant.agent_id, Some(grant.model_id)).0.push(grant),
        audit: s.audit.push(
            audit_view(
                stamp,
                "user"@,
                "brain.attach"@,
                json_object(seq![("agent"@, json_quote(grant.agent_id)), ("model"@, json_quote(grant.model_id))]),
            ),
        ),
    }
}

/// What detaching does, and how many grants it removed.
pub open spec fn detach_outcome(
    s: BrainStateView,
    agent: Seq<char>,
    model: Option<Seq<char>>,
    stamp: StampView,
) -> (BrainStateView, nat) {
    let (kept, n) = detach_fold(s.attachments, agent, model);
    (
        BrainStateView {
            branches: s.branches,
            attachments: kept,
            audit: s.audit.push(
                audit_view(
                    stamp,
                    "user"@,
                    "brain.detach"@,
                    json_object(
                        seq![
                            ("agent"@, json_quote(agent)),
                            ("model"@, json_opt_str(model)),
                            ("removed"@, dec_nat(n)),
                        ],
                    ),
                ),
            ),
        },
        n,
    )
}

/// The objects a forget request leaves keep their ids and count.
proof fn lemma_suppress_keys(m: Seq<(Seq<char>, MemoryObjectView)>, subject: Seq<char>, predicate: Seq<char>)
    ensures
        suppress_fold(m, subject, predicate).0.len() == m.len(),
        forall|i: int| 0 <= i < m.len() ==> (#[trigger] suppress_fold(m, subject, predicate).0[i]).0 == m[i].0,
        suppress_fold(m, subject, predicate).1 <= m.len(),
    decreases m.len(),
{
    if m.len() > 0 {
        lemma_suppress_keys(m.drop_last(), subject, predicate);
        let r = suppress_fold(m, subject, predicate).0;
        assert forall|i: int| 0 <= i < m.len() implies (#[trigger] r[i]).0 == m[i].0 by {
            if i < m.len() - 1 {
                assert(r[i] == suppress_fold(m.drop_last(), subject, predicate).0[i]);
            }
        };
    }
}

/// The grants a detach keeps, and how many it removed, never outnumber the
/// grants it started from.
proof fn lemma_detach_len(g: Seq<AttachmentGrantView>, agent: Seq<char>, model: Option<Seq<char>>)
    ensures
        detach_fold(g, agent, model).0.len() + detach_fold(g, agent, model).1 == g.len(),
    decreases g.len(),
{
    if g.len() > 0 {
        lemma_detach_len(g.drop_last(), agent, model);
    }
}

impl BrainState {
    /// Creates `new_branch` as a copy of the active branch (see
    /// [`branch_outcome`]); on refusal the state is unchanged.
    pub fn branch(&mut self, active_branch: &str, new_branch: &str, stamp: &Stamp) -> (r: Result<
        (),
        BrainError,
    >)
        ensures
            match branch_outcome(old(self)@, active_branch@, new_branch@, stamp@) {
                Ok(s) => r is Ok && final(self)@ == s,
                Err(e) => r matches Err(x) && x@ == e && final(self)@ == old(self)@,
            },
    {
        if self.branches.contains_key(new_branch) {
            return Err(BrainError::BranchExists(owned(new_branch)));
        }
        let mut copy = match self.branches.get(active_branch) {
            None => {
                return Err(BrainError::ActiveBranchMissing);
            },
            Some(b) => b.clone(),
        };
        copy.name = owned(new_branch);
        self.branches.insert(owned(new_branch), copy);
        let mut entries: Vec<(String, String)> = Vec::new();
        entries.push(member("from", quoted(active_branch)));
        entries.push(member("to", quoted(new_branch)));
        proof {
            assert(entries@.map_values(|e: (String, String)| (e.0@, e.1@)) =~= seq![
                ("from"@, json_quote(active_branch@)),
                ("to"@, json_quote(new_branch@)),
            ]);
        }
        let details = json_object_text(&entries);
        let e = audit_entry("user", "brain.branch", details, stamp);
        let ghost before = self.audit@;
        self.audit.push(e);
        proof {
            assert(self.audit@.map_values(|x: AuditEntry| x@) =~= before.map_values(|x: AuditEntry| x@).push(e@));
            assert(self@ =~= branch_outcome(old(self)@, active_branch@, new_branch@, stamp@)->Ok_0);
        }
        Ok(())
    }

    /// Merges branch `source` into branch `target` (see [`merge_outcome`]);
    /// on refusal the state is unchanged.
    pub fn merge(&mut self, source: &str, target: &str, strategy: MergeStrategy, stamp: &Stamp) -> (r:
        Result<MergeReport, BrainError>)
        ensures
            match merge_outcome(old(self)@, source@, target@, strategy, stamp@) {
                Ok(out) => r matches Ok(x) && x@ == out.1 && final(self)@ == out.0,
                Err(e) => r matches Err(x) && x@ == e && final(self)@ == old(self)@,
            },
    {
        let src = match self.branches.get(source) {
            None => {
                return Err(BrainError::UnknownSourceBranch(owned(source)));
            },
            Some(b) => b.clone(),
        };
        let mut tgt = match self.branches.get(target) {
            None => {
                return Err(BrainError::UnknownTargetBranch(owned(target)));
            },
            Some(b) => b.clone(),
        };
        let ghost dst0 = tgt.memory_objects@;
        let ghost tgt0 = tgt@;
        let ghost so = src.memory_objects@;
        let mut merged: usize = 0;
        let mut conflicts: Vec<String> = Vec::new();
        let mut i: usize = 0;
        while i < src.memory_objects.len()
            invariant
                i <= so.len(),
                so == src.memory_objects@,
                tgt.name@ == tgt0.name,
                tgt@.rules == tgt0.rules,
                tgt@.ledger == tgt0.ledger,
                tgt@.suppressions == tgt0.suppressions,
                merged <= i,
                (tgt.memory_objects@, merged as nat, conflicts@.map_values(|s: String| s@)) == merge_fold(
                    so.take(i as int),
                    dst0,
                    strategy,
                ),
            decreases so.len() - i,
        {
            let id = src.memory_objects.key_at(i);
            let o = src.memory_objects.value_at(i);
            let decision: u8 = match tgt.memory_objects.get(id.as_str()) {
                None => 1,
                Some(x) => if str_eq(x.value.as_str(), o.value.as_str()) && x.suppressed == o.suppressed {
                    0
                } else {
                    match strategy {
                        MergeStrategy::Ours => 0,
                        MergeStrategy::Theirs => 1,
                        MergeStrategy::Manual => 2,
                    }
                },
            };
            proof {
                let t = so.take(i + 1);
                assert(t.drop_last() =~= so.take(i as int));
                assert(t.last() == so[i as int]);
            }
            if decision == 1 {
                tgt.memory_objects.insert(id.clone(), o.clone());
                merged += 1;
            } else if decision == 2 {
                let ghost before = conflicts@;
                conflicts.push(id.clone());
                proof {
                    assert(conflicts@.map_values(|s: String| s@) =~= before.map_values(|s: String| s@).push(
                        id@,
                    ));
                }
            }
            i += 1;
        }
        assert(so.take(i as int) =~= so);
        if conflicts.len() > 0 {
            return Err(BrainError::MergeConflicts(conflicts));
        }
        proof {
            assert(tgt@ =~= (BranchStateView {
                name: tgt0.name,
                memory_objects: tgt.memory_objects@,
                rules: tgt0.rules,
                ledger: tgt0.ledger,
                suppressions: tgt0.suppressions,
            }));
        }
        self.branches.insert(owned(target), tgt);
        let mut entries: Vec<(String, String)> = Vec::new();
        entries.push(member("merged", decimal(merged)));
        entries.push(member("source", quoted(source)));
        entries.push(member("target", quoted(target)));
        proof {
            assert(entries@.map_values(|e: (String, String)| (e.0@, e.1@)) =~= seq![
                ("merged"@, dec_nat(merged as nat)),
                ("source"@, json_quote(source@)),
                ("target"@, json_quote(target@)),
            ]);
        }
        let details = json_object_text(&entries);
        let e = audit_entry("user", "brain.merge", details, stamp);
        let ghost before = self.audit@;
        self.audit.push(e);
        let report = MergeReport { merged, conflicts: Vec::new() };
        proof {
            assert(self.audit@.map_values(|x: AuditEntry| x@) =~= before.map_values(|x: AuditEntry| x@).push(e@));
            let out = merge_outcome(old(self)@, source@, target@, strategy, stamp@)->Ok_0;
            assert(self@ =~= out.0);
            assert(report@ =~= out.1);
        }
        Ok(report)
    }

    /// Suppresses the active branch's unsuppressed objects about `subject`
    /// and `predicate`, records the request and returns how many it
    /// suppressed (see [`forget_outcome`]); on refusal the state is
    /// unchanged.
    pub fn forget_suppress(
        &mut self,
        active_branch: &str,
        subject: &str,
        predicate: &str,
        scope: &str,
        reason: &str,
        record: &Stamp,
        stamp: &Stamp,
    ) -> (r: Result<usize, BrainError>)
        ensures
            match forget_outcome(
                old(self)@,
                active_branch@,
                subject@,
                predicate@,
                scope@,
                reason@,
                record@,
                stamp@,
            ) {
                Ok(out) => r matches Ok(x) && x == out.1 && final(self)@ == out.0,
                Err(e) => r matches Err(x) && x@ == e && final(self)@ == old(self)@,
            },
    {
        let mut b = match self.branches.get(active_branch) {
            None => {
                return Err(BrainError::ActiveBranchMissing);
            },
            Some(b) => b.clone(),
        };
        let ghost b0 = b@;
        let ghost m0 = b.memory_objects@;
        let mut count: usize = 0;
        let mut i: usize = 0;
        assert(m0.skip(0) =~= m0);
        assert(suppress_fold(m0.take(0), subject@, predicate@).0 =~= Seq::<(Seq<char>, MemoryObjectView)>::empty());
        while i < b.memory_objects.len()
            invariant
                i <= m0.len(),
                b.name@ == b0.name,
                b@.rules == b0.rules,
                b@.ledger == b0.ledger,
                b@.suppressions == b0.suppressions,
                b.memory_objects@ == suppress_fold(m0.take(i as int), subject@, predicate@).0 + m0.skip(i as int),
                b.memory_objects@.len() == m0.len(),
                count as nat == suppress_fold(m0.take(i as int), subject@, predicate@).1,
                count <= i,
            decreases m0.len() - i,
        {
            proof {
                lemma_suppress_keys(m0.take(i as int), subject@, predicate@);
                let t = m0.take(i + 1);
                assert(t.drop_last() =~= m0.take(i as int));
                assert(t.last() == m0[i as int]);
            }
            let ghost a = suppress_fold(m0.take(i as int), subject@, predicate@).0;
            assert(b.memory_objects@[i as int] == m0[i as int]);
            let o = b.memory_objects.value_at(i);
            if str_eq(o.subject.as_str(), subject) && str_eq(o.predicate.as_str(), predicate) && !o.suppressed {
                let mut o2 = o.clone();
                o2.suppressed = true;
                let ghost ov = o@;
                b.memory_objects.set_value_at(i, o2);
                count += 1;
                proof {
                    assert(b.memory_objects@ =~= a.push((m0[i as int].0, MemoryObjectView { suppressed: true, ..ov }))
                        + m0.skip(i + 1));
                }
            } else {
                proof {
                    assert(b.memory_objects@ =~= a.push(m0[i as int]) + m0.skip(i + 1));
                }
            }
            i += 1;
        }
        proof {
            assert(m0.take(i as int) =~= m0);
            assert(m0.skip(i as int) =~= Seq::<(Seq<char>, MemoryObjectView)>::empty());
            assert(b.memory_objects@ =~= suppress_fold(m0, subject@, predicate@).0);
        }
        let rec = SuppressionRecord {
            id: record.id.clone(),
            ts: record.ts.clone(),
            subject: owned(subject),
            predicate: owned(predicate),
            scope: owned(scope),
            reason: owned(reason),
            suppressed_count: count,
        };
        let ghost sup0 = b.suppressions@;
        b.suppressions.push(rec);
        proof {
            assert(b.suppressions@.map_values(|x: SuppressionRecord| x@) =~= sup0.map_values(
                |x: SuppressionRecord| x@,
            ).push(rec@));
        }
        self.branches.insert(owned(active_branch), b);
        let mut entries: Vec<(String, String)> = Vec::new();
        entries.push(member("predicate", quoted(predicate)));
        entries.push(member("scope", quoted(scope)));
        entries.push(member("subject", quoted(subject)));
        entries.push(member("suppressed", decimal(count)));
        proof {
            assert(entries@.map_values(|e: (String, String)| (e.0@, e.1@)) =~= seq![
                ("predicate"@, json_quote(predicate@)),
                ("scope"@, json_quote(scope@)),
                ("subject"@, json_quote(subject@)),
                ("suppressed"@, dec_nat(count as nat)),
            ]);
        }
        let details = json_object_text(&entries);
        let e = audit_entry("user", "brain.forget.suppress", details, stamp);
        let ghost before = self.audit@;
        self.audit.push(e);
        proof {
            assert(self.audit@.map_values(|x: AuditEntry| x@) =~= before.map_values(|x: AuditEntry| x@).push(e@));
            let out = forget_outcome(
                old(self)@,
                active_branch@,
                subject@,
                predicate@,
                scope@,
                reason@,
                record@,
                stamp@,
            )->Ok_0;
            assert(self@ =~= out.0);
        }
        Ok(count)
    }

    fn keep_grants(&self, agent: &str, model: Option<&str>) -> (out: (Vec<AttachmentGrant>, usize))
        ensures
            ({
                let m = match model {
                    Some(x) => Some(x@),
                    None => None,
                };
                &&& out.0@.map_values(|x: AttachmentGrant| x@) == detach_fold(self@.attachments, agent@, m).0
                &&& out.1 as nat == detach_fold(self@.attachments, agent@, m).1
            }),
    {
        let ghost m = match model {
            Some(x) => Some(x@),
            None => None,
        };
        let ghost g = self@.attachments;
        let mut kept: Vec<AttachmentGrant> = Vec::new();
        let mut removed: usize = 0;
        let mut i: usize = 0;
        while i < self.attachments.len()
            invariant
                i <= self.attachments.len(),
                g == self@.attachments,
                m == (match model {
                    Some(x) => Some(x@),
                    None => None,
                }),
                kept@.map_values(|x: AttachmentGrant| x@) == detach_fold(g.take(i as int), agent@, m).0,
                removed as nat == detach_fold(g.take(i as int), agent@, m).1,
                removed <= i,
            decreases self.attachments.len() - i,
        {
            let a = &self.attachments[i];
            let hit = str_eq(a.agent_id.as_str(), agent) && match model {
                None => true,
                Some(x) => str_eq(x, a.model_id.as_str()),
            };
            proof {
                let t = g.take(i + 1);
                assert(t.drop_last() =~= g.take(i as int));
                assert(t.last() == a@);
            }
            if hit {
                removed += 1;
            } else {
                let ghost before = kept@;
                let c = a.clone();
                kept.push(c);
                proof {
                    assert(kept@.map_values(|x: AttachmentGrant| x@) =~= before.map_values(
                        |x: AttachmentGrant| x@,
                    ).push(a@));
                }
            }
            i += 1;
        }
        assert(g.take(i as int) =~= g);
        (kept, removed)
    }

    /// Grants `grant`, replacing any grant for the same agent and model (see
    /// [`attach_outcome`]).
    pub fn attach(&mut self, grant: AttachmentGrant, stamp: &Stamp)
        ensures
            final(self)@ == attach_outcome(old(self)@, grant@, stamp@),
    {
        let (kept, _removed) = self.keep_grants(grant.agent_id.as_str(), Some(grant.model_id.as_str()));
        let mut entries: Vec<(String, String)> = Vec::new();
        entries.push(member("agent", quoted(grant.agent_id.as_str())));
        entries.push(member("model", quoted(grant.model_id.as_str())));
        proof {
            assert(entries@.map_values(|e: (String, String)| (e.0@, e.1@)) =~= seq![
                ("agent"@, json_quote(grant.agent_id@)),
                ("model"@, json_quote(grant.model_id@)),
            ]);
        }
        let details = json_object_text(&entries);
        let e = audit_entry("user", "brain.attach", details, stamp);
        let ghost gv = grant@;
        let mut kept = kept;
        let ghost k0 = kept@;
        kept.push(grant);
        self.attachments = kept;
        let ghost before = self.audit@;
        self.audit.push(e);
        proof {
            assert(self.attachments@.map_values(|x: AttachmentGrant| x@) =~= k0.map_values(
                |x: AttachmentGrant| x@,
            ).push(gv));
            assert(self.audit@.map_values(|x: AuditEntry| x@) =~= before.map_values(|x: AuditEntry| x@).push(e@));
            assert(self@ =~= attach_outcome(old(self)@, gv, stamp@));
        }
    }

    /// Revokes the grants of `agent` (for `model`, or for every model when
    /// none is named) and returns how many it removed (see
    /// [`detach_outcome`]).
    pub fn detach(&mut self, agent: &str, model: Option<&str>, stamp: &Stamp) -> (n: usize)
        ensures
            ({
                let m = match model {
                    Some(x) => Some(x@),
                    None => None,
                };
                &&& final(self)@ == detach_outcome(old(self)@, agent@, m, stamp@).0
                &&& n as nat == detach_outcome(old(self)@, agent@, m, stamp@).1
            }),
    {
        let ghost m = match model {
            Some(x) => Some(x@),
            None => None,
        };
        let (kept, removed) = self.keep_grants(agent, model);
        let model_text = match model {
            Some(x) => quoted(x),
            None => owned("null"),
        };
        proof {
            reveal_strlit("null");
            assert("null"@ =~= seq!['n', 'u', 'l', 'l']);
            assert(model_text@ == json_opt_str(m));
        }
        let mut entries: Vec<(String, String)> = Vec::new();
        entries.push(member("agent", quoted(agent)));
        entries.push(member("model", model_text));
        entries.push(member("removed", decimal(removed)));
        proof {
            assert(entries@.map_values(|e: (String, String)| (e.0@, e.1@)) =~= seq![
                ("agent"@, json_quote(agent@)),
                ("model"@, json_opt_str(m)),
                ("removed"@, dec_nat(removed as nat)),
            ]);
        }
        let details = json_object_text(&entries);
        let e = audit_entry("user", "brain.detach", details, stamp);
        self.attachments = kept;
        let ghost before = self.audit@;
        self.audit.push(e);
        proof {
            assert(self.audit@.map_values(|x: AuditEntry| x@) =~= before.map_values(|x: AuditEntry| x@).push(e@));
            assert(self@ =~= detach_outcome(old(self)@, agent@, m, stamp@).0);
        }
        removed
    }
}

} // verus!
