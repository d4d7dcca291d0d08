//! Registers of a running plan and the two ways a run stops early.
use vstd::prelude::*;

use crate::proto::{
    clone_vec, ErrorCode, HandleRef, HandleRefView, Hint, HintView, StallInfo, StallInfoView,
    TrustTier, Value, ValueView, tier_number,
};
use crate::smap::StrMap;
use crate::text::{owned, str_eq};

verus! {

/// Which operation produced a register.
#[derive(Clone, Copy, Debug, PartialEq, Eq, Structural)]
pub enum SourceKind {
    Fetch,
    ApplySelector,
    Resolve,
    Filter,
    Join,
    Project,
    Assert,
}

/// The contents of a register.
pub enum RegData {
    Handle(HandleRef),
    HandleSet(Vec<HandleRef>),
    Struct(StrMap<Value>),
}

/// The mathematical model of [`RegData`].
pub enum RegDataView {
    Handle(HandleRefView),
    HandleSet(Seq<HandleRefView>),
    Struct(Seq<(Seq<char>, ValueView)>),
}

impl View for RegData {
    type V = RegDataView;

    open spec fn view(&self) -> RegDataView {
        match self {
            RegData::Handle(h) => RegDataView::Handle(h@),
            RegData::HandleSet(hs) => RegDataView::HandleSet(hs@.map_values(|h: HandleRef| h@)),
            RegData::Struct(m) => RegDataView::Struct(m@),
        }
    }
}

/// A register: its data and what it was derived from.
pub struct RegValue {
    pub data: RegData,
    pub provenance: Vec<String>,
    pub taint: Vec<i32>,
    pub min_trust: TrustTier,
    pub join_depth: u64,
    pub source: SourceKind,
}

/// The mathematical model of [`RegValue`]: provenance and taint are sets.
pub struct RegView {
    pub data: RegDataView,
    pub provenance: Set<Seq<char>>,
    pub taint: Set<i32>,
    pub min_trust: TrustTier,
    pub join_depth: nat,
    pub source: SourceKind,
}

impl View for RegValue {
    type V = RegView;

    open spec fn view(&self) -> RegView {
        RegView {
            data: self.data@,
            provenance: self.provenance@.map_values(|s: String| s@).to_set(),
            taint: self.taint@.to_set(),
            min_trust: self.min_trust,
            join_depth: self.join_depth as nat,
            source: self.source,
        }
    }
}

/// The register environment: later entries shadow earlier ones.
pub open spec fn reg_lookup(regs: Seq<(Seq<char>, RegView)>, name: Seq<char>) -> Option<RegView>
    decreases regs.len(),
{
    if regs.len() == 0 {
        None
    } else if regs.last().0 == name {
        Some(regs.last().1)
    } else {
        reg_lookup(regs.drop_last(), name)
    }
}

/// The model of a register environment.
pub open spec fn regs_view(regs: Seq<(String, RegValue)>) -> Seq<(Seq<char>, RegView)> {
    regs.map_values(|e: (String, RegValue)| (e.0@, e.1@))
}

/// The register named `name`, the latest definition winning.
pub fn find_reg<'a>(regs: &'a Vec<(String, RegValue)>, name: &str) -> (r: Option<&'a RegValue>)
    ensures
        match r {
            Some(v) => reg_lookup(regs_view(regs@), name@) == Some(v@),
            None => reg_lookup(regs_view(regs@), name@) is None,
        },
{
    let mut i: usize = regs.len();
    assert(regs@.take(i as int) =~= regs@);
    while i > 0
        invariant
            i <= regs.len(),
            reg_lookup(regs_view(regs@), name@) == reg_lookup(regs_view(regs@.take(i as int)), name@),
        decreases i,
    {
        let ghost t = regs@.take(i as int);
        proof {
            assert(regs_view(t).last() == (regs@[i - 1].0@, regs@[i - 1].1@));
            assert(regs_view(t).drop_last() =~= regs_view(regs@.take(i - 1)));
        }
        if str_eq(regs[i - 1].0.as_str(), name) {
            return Some(&regs[i - 1].1);
        }
        i -= 1;
    }
    None
}

/// The lower of two tiers by rank.
pub open spec fn min_tier(a: TrustTier, b: TrustTier) -> TrustTier {
    if tier_number(a) <= tier_number(b) {
        a
    } else {
        b
    }
}

pub fn min_tier_exec(a: TrustTier, b: TrustTier) -> (r: TrustTier)
    ensures
        r == min_tier(a, b),
{
    if a.number() <= b.number() {
        a
    } else {
        b
    }
}

/// Why a run stopped before producing its results: a rejection (code,
/// message and pruning hints) or a stall.
pub enum ExecStop {
    Failure(ErrorCode, String, Vec<Hint>),
    Stall(StallInfo),
}

/// The mathematical model of [`ExecStop`].
pub enum StopView {
    Failure(ErrorCode, Seq<char>, Seq<HintView>),
    Stall(StallInfoView),
}

/// The models of a list of hints.
pub open spec fn hint_views(hs: Seq<Hint>) -> Seq<HintView> {
    hs.map_values(|h: Hint| h@)
}

impl View for ExecStop {
    type V = StopView;

    open spec fn view(&self) -> StopView {
        match self {
            ExecStop::Failure(c, m, hs) => StopView::Failure(*c, m@, hint_views(hs@)),
            ExecStop::Stall(s) => StopView::Stall(s@),
        }
    }
}

/// A rejection with the given code and message and no hints.
pub fn fail(code: ErrorCode, message: &str) -> (s: ExecStop)
    ensures
        s@ == rejected(code, message),
{
    let s = ExecStop::Failure(code, owned(message), Vec::new());
    assert(hint_views(Seq::<Hint>::empty()) =~= Seq::<HintView>::empty());
    s
}

/// The model of a rejection without hints.
pub open spec fn rejected(code: ErrorCode, message: &str) -> StopView {
    StopView::Failure(code, message@, Seq::empty())
}

/// Copies a handle list.
pub fn clone_handles(hs: &Vec<HandleRef>) -> (r: Vec<HandleRef>)
    ensures
        r@.map_values(|h: HandleRef| h@) == hs@.map_values(|h: HandleRef| h@),
{
    clone_vec(hs)
}

/// Copies a list of strings keeping their views.
pub fn clone_names(v: &Vec<String>) -> (r: Vec<String>)
    ensures
        r@.map_values(|s: String| s@) == v@.map_values(|s: String| s@),
{
    clone_vec(v)
}

/// Copies a taint list.
pub fn clone_taint(v: &Vec<i32>) -> (r: Vec<i32>)
    ensures
        r@ == v@,
{
    crate::proto::clone_plain_vec(v)
}

} // verus!
