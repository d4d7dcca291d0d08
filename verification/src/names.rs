//! Enumeration values by protocol name (what `from_str_name` accepts: the
//! exact names, the `..._UNSPECIFIED` ones included).
use vstd::prelude::*;

use crate::proto::{
    AssertionType, EdgeType, HandleAvailability, ParamType, Scope, SelectorReturn, TrustTier,
};
use crate::text::str_eq;

verus! {

/// The [`HandleAvailability`] with this protocol name.
pub open spec fn availability_by_name(s: Seq<char>) -> Option<HandleAvailability> {
    if s == "HANDLE_AVAILABILITY_UNSPECIFIED"@ {
        Some(HandleAvailability::Unspecified)
    } else if s == "READY"@ {
        Some(HandleAvailability::Ready)
    } else if s == "OFFLINE"@ {
        Some(HandleAvailability::Offline)
    } else if s == "ARCHIVAL_PENDING"@ {
        Some(HandleAvailability::ArchivalPending)
    } else {
        None
    }
}

/// The [`HandleAvailability`] with this protocol name.
pub fn availability_from_str_name(s: &str) -> (r: Option<HandleAvailability>)
    ensures
        r == availability_by_name(s@),
{
    if str_eq(s, "HANDLE_AVAILABILITY_UNSPECIFIED") {
        Some(HandleAvailability::Unspecified)
    } else if str_eq(s, "READY") {
        Some(HandleAvailability::Ready)
    } else if str_eq(s, "OFFLINE") {
        Some(HandleAvailability::Offline)
    } else if str_eq(s, "ARCHIVAL_PENDING") {
        Some(HandleAvailability::ArchivalPending)
    } else {
        None
    }
}

/// The [`TrustTier`] with this protocol name.
pub open spec fn trust_tier_by_name(s: Seq<char>) -> Option<TrustTier> {
    if s == "TRUST_TIER_UNSPECIFIED"@ {
        Some(TrustTier::Unspecified)
    } else if s == "TIER_0_QUARANTINED"@ {
        Some(TrustTier::Tier0Quarantined)
    } else if s == "TIER_1_ASSERTED"@ {
        Some(TrustTier::Tier1Asserted)
    } else if s == "TIER_2_VERIFIED"@ {
        Some(TrustTier::Tier2Verified)
    } else if s == "TIER_3_CONFIRMED"@ {
        Some(TrustTier::Tier3Confirmed)
    } else if s == "TIER_4_POLICY_SIGNED"@ {
        Some(TrustTier::Tier4PolicySigned)
    } else {
        None
    }
}

/// The [`TrustTier`] with this protocol name.
pub fn trust_tier_from_str_name(s: &str) -> (r: Option<TrustTier>)
    ensures
        r == trust_tier_by_name(s@),
{
    if str_eq(s, "TRUST_TIER_UNSPECIFIED") {
        Some(TrustTier::Unspecified)
    } else if str_eq(s, "TIER_0_QUARANTINED") {
        Some(TrustTier::Tier0Quarantined)
    } else if str_eq(s, "TIER_1_ASSERTED") {
        Some(TrustTier::Tier1Asserted)
    } else if str_eq(s, "TIER_2_VERIFIED") {
        Some(TrustTier::Tier2Verified)
    } else if str_eq(s, "TIER_3_CONFIRMED") {
        Some(TrustTier::Tier3Confirmed)
    } else if str_eq(s, "TIER_4_POLICY_SIGNED") {
        Some(TrustTier::Tier4PolicySigned)
    } else {
        None
    }
}

/// The [`Scope`] with this protocol name.
pub open spec fn scope_by_name(s: Seq<char>) -> Option<Scope> {
    if s == "SCOPE_UNSPECIFIED"@ {
        Some(Scope::Unspecified)
    } else if s == "SCOPE_GLOBAL"@ {
        Some(Scope::Global)
    } else {
        None
    }
}

/// The [`Scope`] with this protocol name.
pub fn scope_from_str_name(s: &str) -> (r: Option<Scope>)
    ensures
        r == scope_by_name(s@),
{
    if str_eq(s, "SCOPE_UNSPECIFIED") {
        Some(Scope::Unspecified)
    } else if str_eq(s, "SCOPE_GLOBAL") {
        Some(Scope::Global)
    } else {
        None
    }
}

/// The [`ParamType`] with this protocol name.
pub open spec fn param_type_by_name(s: Seq<char>) -> Option<ParamType> {
    if s == "PARAM_TYPE_UNSPECIFIED"@ {
        Some(ParamType::Unspecified)
    } else if s == "PARAM_STRING"@ {
        Some(ParamType::ParamString)
    } else if s == "PARAM_BOOL"@ {
        Some(ParamType::ParamBool)
    } else if s == "PARAM_INT64"@ {
        Some(ParamType::ParamInt64)
    } else if s == "PARAM_FLOAT64"@ {
        Some(ParamType::ParamFloat64)
    } else if s == "PARAM_TIMESTAMP"@ {
        Some(ParamType::ParamTimestamp)
    } else if s == "PARAM_ENUM"@ {
        Some(ParamType::ParamEnum)
    } else if s == "PARAM_SCOPE"@ {
        Some(ParamType::ParamScope)
    } else {
        None
    }
}

/// The [`ParamType`] with this protocol name.
pub fn param_type_from_str_name(s: &str) -> (r: Option<ParamType>)
    ensures
        r == param_type_by_name(s@),
{
    if str_eq(s, "PARAM_TYPE_UNSPECIFIED") {
        Some(ParamType::Unspecified)
    } else if str_eq(s, "PARAM_STRING") {
        Some(ParamType::ParamString)
    } else if str_eq(s, "PARAM_BOOL") {
        Some(ParamType::ParamBool)
    } else if str_eq(s, "PARAM_INT64") {
        Some(ParamType::ParamInt64)
    } else if str_eq(s, "PARAM_FLOAT64") {
        Some(ParamType::ParamFloat64)
    } else if str_eq(s, "PARAM_TIMESTAMP") {
        Some(ParamType::ParamTimestamp)
    } else if str_eq(s, "PARAM_ENUM") {
        Some(ParamType::ParamEnum)
    } else if str_eq(s, "PARAM_SCOPE") {
        Some(ParamType::ParamScope)
    } else {
        None
    }
}

/// The [`SelectorReturn`] with this protocol name.
pub open spec fn selector_return_by_name(s: Seq<char>) -> Option<SelectorReturn> {
    if s == "SELECTOR_RETURN_UNSPECIFIED"@ {
        Some(SelectorReturn::Unspecified)
    } else if s == "RETURN_HANDLE"@ {
        Some(SelectorReturn::ReturnHandle)
    } else if s == "RETURN_HANDLE_SET"@ {
        Some(SelectorReturn::ReturnHandleSet)
    } else if s == "RETURN_STRUCT"@ {
        Some(SelectorReturn::ReturnStruct)
    } else {
        None
    }
}

/// The [`SelectorReturn`] with this protocol name.
pub fn selector_return_from_str_name(s: &str) -> (r: Option<SelectorReturn>)
    ensures
        r == selector_return_by_name(s@),
{
    if str_eq(s, "SELECTOR_RETURN_UNSPECIFIED") {
        Some(SelectorReturn::Unspecified)
    } else if str_eq(s, "RETURN_HANDLE") {
        Some(SelectorReturn::ReturnHandle)
    } else if str_eq(s, "RETURN_HANDLE_SET") {
        Some(SelectorReturn::ReturnHandleSet)
    } else if str_eq(s, "RETURN_STRUCT") {
        Some(SelectorReturn::ReturnStruct)
    } else {
        None
    }
}

/// The [`EdgeType`] with this protocol name.
pub open spec fn edge_type_by_name(s: Seq<char>) -> Option<EdgeType> {
    if s == "EDGE_TYPE_UNSPECIFIED"@ {
        Some(EdgeType::Unspecified)
    } else if s == "EDGE_CONFLICTS_WITH"@ {
        Some(EdgeType::EdgeConflictsWith)
    } else if s == "EDGE_SUPERSEDES"@ {
        Some(EdgeType::EdgeSupersedes)
    } else if s == "EDGE_PROVENANCE"@ {
        Some(EdgeType::EdgeProvenance)
    } else if s == "EDGE_SAME_ENTITY"@ {
        Some(EdgeType::EdgeSameEntity)
    } else {
        None
    }
}

/// The [`EdgeType`] with this protocol name.
pub fn edge_type_from_str_name(s: &str) -> (r: Option<EdgeType>)
    ensures
        r == edge_type_by_name(s@),
{
    if str_eq(s, "EDGE_TYPE_UNSPECIFIED") {
        Some(EdgeType::Unspecified)
    } else if str_eq(s, "EDGE_CONFLICTS_WITH") {
        Some(EdgeType::EdgeConflictsWith)
    } else if str_eq(s, "EDGE_SUPERSEDES") {
        Some(EdgeType::EdgeSupersedes)
    } else if str_eq(s, "EDGE_PROVENANCE") {
        Some(EdgeType::EdgeProvenance)
    } else if str_eq(s, "EDGE_SAME_ENTITY") {
        Some(EdgeType::EdgeSameEntity)
    } else {
        None
    }
}

/// The [`AssertionType`] with this protocol name.
pub open spec fn assertion_type_by_name(s: Seq<char>) -> Option<AssertionType> {
    if s == "ASSERTION_TYPE_UNSPECIFIED"@ {
        Some(AssertionType::Unspecified)
    } else if s == "ASSERT_USER_PREFERENCE"@ {
        Some(AssertionType::AssertUserPreference)
    } else if s == "ASSERT_WORLD_FACT"@ {
        Some(AssertionType::AssertWorldFact)
    } else if s == "ASSERT_DECISION"@ {
        Some(AssertionType::AssertDecision)
    } else if s == "ASSERT_PROCEDURE"@ {
        Some(AssertionType::AssertProcedure)
    } else if s == "ASSERT_CONFLICT_EXPLANATION"@ {
        Some(AssertionType::AssertConflictExplanation)
    } else {
        None
    }
}

/// The [`AssertionType`] with this protocol name.
pub fn assertion_type_from_str_name(s: &str) -> (r: Option<AssertionType>)
    ensures
        r == assertion_type_by_name(s@),
{
    if str_eq(s, "ASSERTION_TYPE_UNSPECIFIED") {
        Some(AssertionType::Unspecified)
    } else if str_eq(s, "ASSERT_USER_PREFERENCE") {
        Some(AssertionType::AssertUserPreference)
    } else if str_eq(s, "ASSERT_WORLD_FACT") {
        Some(AssertionType::AssertWorldFact)
    } else if str_eq(s, "ASSERT_DECISION") {
        Some(AssertionType::AssertDecision)
    } else if str_eq(s, "ASSERT_PROCEDURE") {
        Some(AssertionType::AssertProcedure)
    } else if str_eq(s, "ASSERT_CONFLICT_EXPLANATION") {
        Some(AssertionType::AssertConflictExplanation)
    } else {
        None
    }
}

/// The number of the taint class with this protocol name.
pub open spec fn taint_by_name(s: Seq<char>) -> Option<i32> {
    if s == "TAINT_CLASS_UNSPECIFIED"@ {
        Some(0i32)
    } else if s == "TAINT_USER"@ {
        Some(1i32)
    } else if s == "TAINT_WEB_UNTRUSTED"@ {
        Some(2i32)
    } else if s == "TAINT_MIXED"@ {
        Some(3i32)
    } else {
        None
    }
}

/// The number of the taint class with this protocol name.
pub fn taint_from_str_name(s: &str) -> (r: Option<i32>)
    ensures
        r == taint_by_name(s@),
{
    if str_eq(s, "TAINT_CLASS_UNSPECIFIED") {
        Some(0)
    } else if str_eq(s, "TAINT_USER") {
        Some(1)
    } else if str_eq(s, "TAINT_WEB_UNTRUSTED") {
        Some(2)
    } else if str_eq(s, "TAINT_MIXED") {
        Some(3)
    } else {
        None
    }
}

} // verus!
