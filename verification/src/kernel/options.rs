//! Execution options and the normalized budget.
use vstd::prelude::*;

use crate::kernel::regs::clone_names;
use crate::proto::{PlanBudget, PlanBudgetView};
use crate::text::str_eq;

verus! {

/// How a run treats stalls, broken lineage and narrative templates.
pub struct ExecuteOptions {
    pub allow_partial_on_stall: bool,
    pub degraded_mode: bool,
    /// Handles whose lineage is broken (only membership is read).
    pub broken_lineage_handles: Vec<String>,
    pub narrative_templates: Vec<String>,
}

/// The mathematical model of [`ExecuteOptions`].
pub struct OptionsView {
    pub allow_partial_on_stall: bool,
    pub degraded_mode: bool,
    pub broken_lineage_handles: Set<Seq<char>>,
    pub narrative_templates: Seq<Seq<char>>,
}

impl View for ExecuteOptions {
    type V = OptionsView;

    open spec fn view(&self) -> OptionsView {
        OptionsView {
            allow_partial_on_stall: self.allow_partial_on_stall,
            degraded_mode: self.degraded_mode,
            broken_lineage_handles: self.broken_lineage_handles@.map_values(|s: String| s@).to_set(),
            narrative_templates: self.narrative_templates@.map_values(|s: String| s@),
        }
    }
}

impl Default for ExecuteOptions {
    fn default() -> (o: Self)
        ensures
            !o@.allow_partial_on_stall,
            !o@.degraded_mode,
            o@.broken_lineage_handles == Set::<Seq<char>>::empty(),
            o@.narrative_templates == Seq::<Seq<char>>::empty(),
    {
        let o = ExecuteOptions {
            allow_partial_on_stall: false,
            degraded_mode: false,
            broken_lineage_handles: Vec::new(),
            narrative_templates: Vec::new(),
        };
        assert(o@.broken_lineage_handles =~= Set::<Seq<char>>::empty());
        assert(o@.narrative_templates =~= Seq::<Seq<char>>::empty());
        o
    }
}

impl Clone for ExecuteOptions {
    fn clone(&self) -> (res: Self)
        ensures
            res@ == self@,
    {
        let res = ExecuteOptions {
            allow_partial_on_stall: self.allow_partial_on_stall,
            degraded_mode: self.degraded_mode,
            broken_lineage_handles: clone_names(&self.broken_lineage_handles),
            narrative_templates: clone_names(&self.narrative_templates),
        };
        assert(res@.broken_lineage_handles =~= self@.broken_lineage_handles);
        assert(res@.narrative_templates =~= self@.narrative_templates);
        res
    }
}

impl ExecuteOptions {
    /// Whether a handle is marked as having broken lineage.
    pub fn is_broken(&self, handle_ref: &str) -> (r: bool)
        ensures
            r == self@.broken_lineage_handles.contains(handle_ref@),
    {
        let ghost names = self.broken_lineage_handles@.map_values(|s: String| s@);
        let mut i: usize = 0;
        while i < self.broken_lineage_handles.len()
            invariant
                i <= self.broken_lineage_handles.len(),
                names == self.broken_lineage_handles@.map_values(|s: String| s@),
                forall|j: int| 0 <= j < i ==> names[j] != handle_ref@,
            decreases self.broken_lineage_handles.len() - i,
        {
            if str_eq(self.broken_lineage_handles[i].as_str(), handle_ref) {
                assert(names[i as int] == handle_ref@);
                return true;
            }
            i += 1;
        }
        false
    }
}

/// The limits a plan runs under, defaults filled in.
#[derive(Clone, Copy, Debug, PartialEq, Eq, Structural)]
pub struct NormalizedBudget {
    pub max_ops: u32,
    pub max_join_depth: u32,
    pub max_fanout: u32,
}

/// Each limit of the manifest's budget, or its default when absent or zero:
/// 128 operations, join depth 3, fanout 64.
pub open spec fn normalize_budget_spec(b: Option<PlanBudgetView>) -> NormalizedBudget {
    match b {
        Some(b) => NormalizedBudget {
            max_ops: if b.max_ops == 0 {
                128
            } else {
                b.max_ops
            },
            max_join_depth: if b.max_join_depth == 0 {
                3
            } else {
                b.max_join_depth
            },
            max_fanout: if b.max_fanout == 0 {
                64
            } else {
                b.max_fanout
            },
        },
        None => NormalizedBudget { max_ops: 128, max_join_depth: 3, max_fanout: 64 },
    }
}

fn non_zero_or(v: u32, d: u32) -> (r: u32)
    ensures
        r == if v == 0 {
            d
        } else {
            v
        },
{
    if v == 0 {
        d
    } else {
        v
    }
}

/// The limits of a manifest's budget with defaults filled in.
pub fn normalize_budget(b: &Option<PlanBudget>) -> (r: NormalizedBudget)
    ensures
        r == normalize_budget_spec(
            match b {
                Some(x) => Some(x@),
                None => None,
            },
        ),
{
    match b {
        Some(b) => NormalizedBudget {
            max_ops: non_zero_or(b.max_ops, 128),
            max_join_depth: non_zero_or(b.max_join_depth, 3),
            max_fanout: non_zero_or(b.max_fanout, 64),
        },
        None => NormalizedBudget { max_ops: 128, max_join_depth: 3, max_fanout: 64 },
    }
}

} // verus!
