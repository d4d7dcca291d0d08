//! The RMVM v3.1 wire types: enumerations with their numbers and names,
//! and the messages of manifests, plans and responses with their models.
use vstd::prelude::*;

use crate::smap::StrMap;

verus! {

/// Clones a vector of values whose `clone` keeps the view.
pub fn clone_vec<T: View + Clone>(v: &Vec<T>) -> (res: Vec<T>)
    requires
        forall|x: T, y: T| #[trigger] call_ensures(T::clone, (&x,), y) ==> y@ == x@,
    ensures
        res@.map_values(|a: T| a@) == v@.map_values(|a: T| a@),
        res.len() == v.len(),
{
    let r = v.clone();
    proof {
        assert forall|i: int| 0 <= i < r.len() implies r@[i]@ == v@[i]@ by {
            assert(cloned::<T>(v[i], r[i]));
        }
        assert(r@.map_values(|a: T| a@) =~= v@.map_values(|a: T| a@));
    }
    r
}

/// Clones a vector of strings.
pub fn clone_strings(v: &Vec<String>) -> (res: Vec<String>)
    ensures
        res@.map_values(|a: String| a@) == v@.map_values(|a: String| a@),
        res.len() == v.len(),
{
    clone_vec(v)
}

/// Clones a vector of plain integers.
pub fn clone_plain_vec(v: &Vec<i32>) -> (res: Vec<i32>)
    ensures
        res@ == v@,
{
    let r = v.clone();
    proof {
        assert forall|i: int| 0 <= i < r.len() implies r@[i] == v@[i] by {
            assert(cloned::<i32>(v[i], r[i]));
        }
        assert(r@ =~= v@);
    }
    r
}

impl<T: View + Clone> StrMap<T> {
    /// A copy of the map whose values keep their views.
    pub fn clone_map(&self) -> (res: Self)
        requires
            forall|x: T, y: T| #[trigger] call_ensures(T::clone, (&x,), y) ==> y@ == x@,
        ensures
            res@ == self@,
    {
        let mut res = StrMap::new();
        let mut i: usize = 0;
        proof {
            use_type_invariant(self);
        }
        while i < self.len()
            invariant
                i <= self@.len(),
                forall|x: T, y: T| #[trigger] call_ensures(T::clone, (&x,), y) ==> y@ == x@,
                crate::smap::smap_sorted(self@),
                res@ == self@.take(i as int),
            decreases self@.len() - i,
        {
            let k = self.key_at(i).clone();
            let v = self.value_at(i).clone();
            proof {
                crate::smap::lemma_smap_append_sorted(self@, i as int);
            }
            res.insert(k, v);
            i += 1;
        }
        assert(self@.take(self@.len() as int) =~= self@);
        res
    }
}

impl Clone for StrMap<Value> {
    fn clone(&self) -> (res: Self)
        ensures
            res@ == self@,
    {
        self.clone_map()
    }
}

impl Clone for StrMap<ValueRef> {
    fn clone(&self) -> (res: Self)
        ensures
            res@ == self@,
    {
        self.clone_map()
    }
}

// ----------------------------------------------------------------------
// Enumerations
// ----------------------------------------------------------------------

/// Trust tier of a handle, lowest first.
#[derive(Clone, Copy, Debug, PartialEq, Eq, Structural)]
pub enum TrustTier {
    Unspecified,
    Tier0Quarantined,
    Tier1Asserted,
    Tier2Verified,
    Tier3Confirmed,
    Tier4PolicySigned,
}

/// The tier numbered `v`, or `Unspecified` for an unknown number.
pub open spec fn tier_from(v: i32) -> TrustTier {
    if v == 1 {
        TrustTier::Tier0Quarantined
    } else if v == 2 {
        TrustTier::Tier1Asserted
    } else if v == 3 {
        TrustTier::Tier2Verified
    } else if v == 4 {
        TrustTier::Tier3Confirmed
    } else if v == 5 {
        TrustTier::Tier4PolicySigned
    } else {
        TrustTier::Unspecified
    }
}

/// The wire number of a tier, which is also its rank.
pub open spec fn tier_number(t: TrustTier) -> i32 {
    match t {
        TrustTier::Unspecified => 0,
        TrustTier::Tier0Quarantined => 1,
        TrustTier::Tier1Asserted => 2,
        TrustTier::Tier2Verified => 3,
        TrustTier::Tier3Confirmed => 4,
        TrustTier::Tier4PolicySigned => 5,
    }
}

/// The protocol name of a tier.
pub open spec fn tier_name(t: TrustTier) -> Seq<char> {
    match t {
        TrustTier::Unspecified => "TRUST_TIER_UNSPECIFIED"@,
        TrustTier::Tier0Quarantined => "TIER_0_QUARANTINED"@,
        TrustTier::Tier1Asserted => "TIER_1_ASSERTED"@,
        TrustTier::Tier2Verified => "TIER_2_VERIFIED"@,
        TrustTier::Tier3Confirmed => "TIER_3_CONFIRMED"@,
        TrustTier::Tier4PolicySigned => "TIER_4_POLICY_SIGNED"@,
    }
}

impl TrustTier {
    /// The wire number.
    pub fn number(self) -> (n: i32)
        ensures
            n == tier_number(self),
    {
        match self {
            TrustTier::Unspecified => 0,
            TrustTier::Tier0Quarantined => 1,
            TrustTier::Tier1Asserted => 2,
            TrustTier::Tier2Verified => 3,
            TrustTier::Tier3Confirmed => 4,
            TrustTier::Tier4PolicySigned => 5,
        }
    }

    /// The protocol name.
    pub fn as_str_name(self) -> (s: String)
        ensures
            s@ == tier_name(self),
    {
        let t = match self {
            TrustTier::Unspecified => "TRUST_TIER_UNSPECIFIED",
            TrustTier::Tier0Quarantined => "TIER_0_QUARANTINED",
            TrustTier::Tier1Asserted => "TIER_1_ASSERTED",
            TrustTier::Tier2Verified => "TIER_2_VERIFIED",
            TrustTier::Tier3Confirmed => "TIER_3_CONFIRMED",
            TrustTier::Tier4PolicySigned => "TIER_4_POLICY_SIGNED",
        };
        crate::text::owned(t)
    }
}

/// The trust tier numbered `v`; unknown numbers map to `Unspecified`.
pub fn trust_tier_from_i32(v: i32) -> (t: TrustTier)
    ensures
        t == tier_from(v),
{
    if v == 1 {
        TrustTier::Tier0Quarantined
    } else if v == 2 {
        TrustTier::Tier1Asserted
    } else if v == 3 {
        TrustTier::Tier2Verified
    } else if v == 4 {
        TrustTier::Tier3Confirmed
    } else if v == 5 {
        TrustTier::Tier4PolicySigned
    } else {
        TrustTier::Unspecified
    }
}

/// Whether a handle can be fetched now.
#[derive(Clone, Copy, Debug, PartialEq, Eq, Structural)]
pub enum HandleAvailability {
    Unspecified,
    Ready,
    Offline,
    ArchivalPending,
}

pub open spec fn availability_from(v: i32) -> HandleAvailability {
    if v == 1 {
        HandleAvailability::Ready
    } else if v == 2 {
        HandleAvailability::Offline
    } else if v == 3 {
        HandleAvailability::ArchivalPending
    } else {
        HandleAvailability::Unspecified
    }
}

pub open spec fn availability_name_spec(a: HandleAvailability) -> Seq<char> {
    match a {
        HandleAvailability::Unspecified => "HANDLE_AVAILABILITY_UNSPECIFIED"@,
        HandleAvailability::Ready => "READY"@,
        HandleAvailability::Offline => "OFFLINE"@,
        HandleAvailability::ArchivalPending => "ARCHIVAL_PENDING"@,
    }
}

impl HandleAvailability {
    /// The protocol name.
    pub fn as_str_name(self) -> (s: String)
        ensures
            s@ == availability_name_spec(self),
    {
        let t = match self {
            HandleAvailability::Unspecified => "HANDLE_AVAILABILITY_UNSPECIFIED",
            HandleAvailability::Ready => "READY",
            HandleAvailability::Offline => "OFFLINE",
            HandleAvailability::ArchivalPending => "ARCHIVAL_PENDING",
        };
        crate::text::owned(t)
    }
}

/// The availability numbered `v`; unknown numbers map to `Unspecified`.
pub fn availability_from_i32(v: i32) -> (a: HandleAvailability)
    ensures
        a == availability_from(v),
{
    if v == 1 {
        HandleAvailability::Ready
    } else if v == 2 {
        HandleAvailability::Offline
    } else if v == 3 {
        HandleAvailability::ArchivalPending
    } else {
        HandleAvailability::Unspecified
    }
}

/// What a selector returns.
#[derive(Clone, Copy, Debug, PartialEq, Eq, Structural)]
pub enum SelectorReturn {
    Unspecified,
    ReturnHandle,
    ReturnHandleSet,
    ReturnStruct,
}

pub open spec fn selector_return_from(v: i32) -> SelectorReturn {
    if v == 1 {
        SelectorReturn::ReturnHandle
    } else if v == 2 {
        SelectorReturn::ReturnHandleSet
    } else if v == 3 {
        SelectorReturn::ReturnStruct
    } else {
        SelectorReturn::Unspecified
    }
}

/// The selector return kind numbered `v`; unknown numbers map to `Unspecified`.
pub fn selector_return_from_i32(v: i32) -> (r: SelectorReturn)
    ensures
        r == selector_return_from(v),
{
    if v == 1 {
        SelectorReturn::ReturnHandle
    } else if v == 2 {
        SelectorReturn::ReturnHandleSet
    } else if v == 3 {
        SelectorReturn::ReturnStruct
    } else {
        SelectorReturn::Unspecified
    }
}

/// Declared type of a selector parameter.
#[derive(Clone, Copy, Debug, PartialEq, Eq, Structural)]
pub enum ParamType {
    Unspecified,
    ParamString,
    ParamBool,
    ParamInt64,
    ParamFloat64,
    ParamTimestamp,
    ParamEnum,
    ParamScope,
}

pub open spec fn param_type_from(v: i32) -> ParamType {
    if v == 1 {
        ParamType::ParamString
    } else if v == 2 {
        ParamType::ParamBool
    } else if v == 3 {
        ParamType::ParamInt64
    } else if v == 4 {
        ParamType::ParamFloat64
    } else if v == 5 {
        ParamType::ParamTimestamp
    } else if v == 6 {
        ParamType::ParamEnum
    } else if v == 7 {
        ParamType::ParamScope
    } else {
        ParamType::Unspecified
    }
}

/// The parameter type numbered `v`; unknown numbers map to `Unspecified`.
pub fn param_type_from_i32(v: i32) -> (r: ParamType)
    ensures
        r == param_type_from(v),
{
    if v == 1 {
        ParamType::ParamString
    } else if v == 2 {
        ParamType::ParamBool
    } else if v == 3 {
        ParamType::ParamInt64
    } else if v == 4 {
        ParamType::ParamFloat64
    } else if v == 5 {
        ParamType::ParamTimestamp
    } else if v == 6 {
        ParamType::ParamEnum
    } else if v == 7 {
        ParamType::ParamScope
    } else {
        ParamType::Unspecified
    }
}

/// Kind of a verified assertion.
#[derive(Clone, Copy, Debug, PartialEq, Eq, Structural)]
pub enum AssertionType {
    Unspecified,
    AssertUserPreference,
    AssertWorldFact,
    AssertDecision,
    AssertProcedure,
    AssertConflictExplanation,
}

pub open spec fn assertion_type_from(v: i32) -> AssertionType {
    if v == 1 {
        AssertionType::AssertUserPreference
    } else if v == 2 {
        AssertionType::AssertWorldFact
    } else if v == 3 {
        AssertionType::AssertDecision
    } else if v == 4 {
        AssertionType::AssertProcedure
    } else if v == 5 {
        AssertionType::AssertConflictExplanation
    } else {
        AssertionType::Unspecified
    }
}

pub open spec fn assertion_type_number(t: AssertionType) -> i32 {
    match t {
        AssertionType::Unspecified => 0,
        AssertionType::AssertUserPreference => 1,
        AssertionType::AssertWorldFact => 2,
        AssertionType::AssertDecision => 3,
        AssertionType::AssertProcedure => 4,
        AssertionType::AssertConflictExplanation => 5,
    }
}

pub open spec fn assertion_type_name(t: AssertionType) -> Seq<char> {
    match t {
        AssertionType::Unspecified => "ASSERTION_TYPE_UNSPECIFIED"@,
        AssertionType::AssertUserPreference => "ASSERT_USER_PREFERENCE"@,
        AssertionType::AssertWorldFact => "ASSERT_WORLD_FACT"@,
        AssertionType::AssertDecision => "ASSERT_DECISION"@,
        AssertionType::AssertProcedure => "ASSERT_PROCEDURE"@,
        AssertionType::AssertConflictExplanation => "ASSERT_CONFLICT_EXPLANATION"@,
    }
}

impl AssertionType {
    /// The wire number.
    pub fn number(self) -> (n: i32)
        ensures
            n == assertion_type_number(self),
    {
        match self {
            AssertionType::Unspecified => 0,
            AssertionType::AssertUserPreference => 1,
            AssertionType::AssertWorldFact => 2,
            AssertionType::AssertDecision => 3,
            AssertionType::AssertProcedure => 4,
            AssertionType::AssertConflictExplanation => 5,
        }
    }

    /// The protocol name.
    pub fn as_str_name(self) -> (s: String)
        ensures
            s@ == assertion_type_name(self),
    {
        let t = match self {
            AssertionType::Unspecified => "ASSERTION_TYPE_UNSPECIFIED",
            AssertionType::AssertUserPreference => "ASSERT_USER_PREFERENCE",
            AssertionType::AssertWorldFact => "ASSERT_WORLD_FACT",
            AssertionType::AssertDecision => "ASSERT_DECISION",
            AssertionType::AssertProcedure => "ASSERT_PROCEDURE",
            AssertionType::AssertConflictExplanation => "ASSERT_CONFLICT_EXPLANATION",
        };
        crate::text::owned(t)
    }
}

/// The assertion type numbered `v`; unknown numbers map to `Unspecified`.
pub fn assertion_type_from_i32(v: i32) -> (r: AssertionType)
    ensures
        r == assertion_type_from(v),
{
    if v == 1 {
        AssertionType::AssertUserPreference
    } else if v == 2 {
        AssertionType::AssertWorldFact
    } else if v == 3 {
        AssertionType::AssertDecision
    } else if v == 4 {
        AssertionType::AssertProcedure
    } else if v == 5 {
        AssertionType::AssertConflictExplanation
    } else {
        AssertionType::Unspecified
    }
}

/// Relation used by JOIN.
#[derive(Clone, Copy, Debug, PartialEq, Eq, Structural)]
pub enum EdgeType {
    Unspecified,
    EdgeConflictsWith,
    EdgeSupersedes,
    EdgeProvenance,
    EdgeSameEntity,
}

pub open spec fn edge_type_from(v: i32) -> EdgeType {
    if v == 1 {
        EdgeType::EdgeConflictsWith
    } else if v == 2 {
        EdgeType::EdgeSupersedes
    } else if v == 3 {
        EdgeType::EdgeProvenance
    } else if v == 4 {
        EdgeType::EdgeSameEntity
    } else {
        EdgeType::Unspecified
    }
}

/// The edge type numbered `v`; unknown numbers map to `Unspecified`.
pub fn edge_type_from_i32(v: i32) -> (r: EdgeType)
    ensures
        r == edge_type_from(v),
{
    if v == 1 {
        EdgeType::EdgeConflictsWith
    } else if v == 2 {
        EdgeType::EdgeSupersedes
    } else if v == 3 {
        EdgeType::EdgeProvenance
    } else if v == 4 {
        EdgeType::EdgeSameEntity
    } else {
        EdgeType::Unspecified
    }
}

/// The wire number of an edge type.
pub open spec fn edge_type_number(t: EdgeType) -> i32 {
    match t {
        EdgeType::Unspecified => 0,
        EdgeType::EdgeConflictsWith => 1,
        EdgeType::EdgeSupersedes => 2,
        EdgeType::EdgeProvenance => 3,
        EdgeType::EdgeSameEntity => 4,
    }
}

/// The protocol name of an edge type.
pub open spec fn edge_type_name(t: EdgeType) -> Seq<char> {
    match t {
        EdgeType::Unspecified => "EDGE_TYPE_UNSPECIFIED"@,
        EdgeType::EdgeConflictsWith => "EDGE_CONFLICTS_WITH"@,
        EdgeType::EdgeSupersedes => "EDGE_SUPERSEDES"@,
        EdgeType::EdgeProvenance => "EDGE_PROVENANCE"@,
        EdgeType::EdgeSameEntity => "EDGE_SAME_ENTITY"@,
    }
}

impl EdgeType {
    /// The wire number.
    pub fn number(self) -> (n: i32)
        ensures
            n == edge_type_number(self),
    {
        match self {
            EdgeType::Unspecified => 0,
            EdgeType::EdgeConflictsWith => 1,
            EdgeType::EdgeSupersedes => 2,
            EdgeType::EdgeProvenance => 3,
            EdgeType::EdgeSameEntity => 4,
        }
    }

    /// The protocol name.
    pub fn as_str_name(self) -> (s: String)
        ensures
            s@ == edge_type_name(self),
    {
        let t = match self {
            EdgeType::Unspecified => "EDGE_TYPE_UNSPECIFIED",
            EdgeType::EdgeConflictsWith => "EDGE_CONFLICTS_WITH",
            EdgeType::EdgeSupersedes => "EDGE_SUPERSEDES",
            EdgeType::EdgeProvenance => "EDGE_PROVENANCE",
            EdgeType::EdgeSameEntity => "EDGE_SAME_ENTITY",
        };
        crate::text::owned(t)
    }
}

/// Scope of a handle.
#[derive(Clone, Copy, Debug, PartialEq, Eq, Structural)]
pub enum Scope {
    Unspecified,
    Global,
}

pub open spec fn scope_from(v: i32) -> Scope {
    if v == 1 {
        Scope::Global
    } else {
        Scope::Unspecified
    }
}

pub open spec fn scope_name(s: Scope) -> Seq<char> {
    match s {
        Scope::Unspecified => "SCOPE_UNSPECIFIED"@,
        Scope::Global => "SCOPE_GLOBAL"@,
    }
}

impl Scope {
    /// The protocol name.
    pub fn as_str_name(self) -> (s: String)
        ensures
            s@ == scope_name(self),
    {
        let t = match self {
            Scope::Unspecified => "SCOPE_UNSPECIFIED",
            Scope::Global => "SCOPE_GLOBAL",
        };
        crate::text::owned(t)
    }
}

/// The scope numbered `v`; unknown numbers map to `Unspecified`.
pub fn scope_from_i32(v: i32) -> (r: Scope)
    ensures
        r == scope_from(v),
{
    if v == 1 {
        Scope::Global
    } else {
        Scope::Unspecified
    }
}

/// Taint classes carried by handle metadata; only their numbers are read.
pub const TAINT_USER: i32 = 1;

pub const TAINT_WEB_UNTRUSTED: i32 = 2;

pub const TAINT_MIXED: i32 = 3;

/// Outcome status of an execution.
#[derive(Clone, Copy, Debug, PartialEq, Eq, Structural)]
pub enum ExecutionStatus {
    Unspecified,
    Okay,
    Stall,
    Rejected,
    AuthDenied,
    RangeExceeded,
}

pub open spec fn status_from(v: i32) -> ExecutionStatus {
    if v == 1 {
        ExecutionStatus::Okay
    } else if v == 2 {
        ExecutionStatus::Stall
    } else if v == 3 {
        ExecutionStatus::Rejected
    } else if v == 4 {
        ExecutionStatus::AuthDenied
    } else if v == 5 {
        ExecutionStatus::RangeExceeded
    } else {
        ExecutionStatus::Unspecified
    }
}

pub open spec fn status_name_spec(s: ExecutionStatus) -> Seq<char> {
    match s {
        ExecutionStatus::Unspecified => "EXECUTION_STATUS_UNSPECIFIED"@,
        ExecutionStatus::Okay => "OK"@,
        ExecutionStatus::Stall => "STALL"@,
        ExecutionStatus::Rejected => "REJECTED"@,
        ExecutionStatus::AuthDenied => "AUTH_DENIED"@,
        ExecutionStatus::RangeExceeded => "RANGE_EXCEEDED"@,
    }
}

/// The execution status numbered `v`; unknown numbers map to `Unspecified`.
pub fn status_from_i32(v: i32) -> (r: ExecutionStatus)
    ensures
        r == status_from(v),
{
    if v == 1 {
        ExecutionStatus::Okay
    } else if v == 2 {
        ExecutionStatus::Stall
    } else if v == 3 {
        ExecutionStatus::Rejected
    } else if v == 4 {
        ExecutionStatus::AuthDenied
    } else if v == 5 {
        ExecutionStatus::RangeExceeded
    } else {
        ExecutionStatus::Unspecified
    }
}

impl ExecutionStatus {
    /// The protocol name.
    pub fn as_str_name(self) -> (s: String)
        ensures
            s@ == status_name_spec(self),
    {
        let t = match self {
            ExecutionStatus::Unspecified => "EXECUTION_STATUS_UNSPECIFIED",
            ExecutionStatus::Okay => "OK",
            ExecutionStatus::Stall => "STALL",
            ExecutionStatus::Rejected => "REJECTED",
            ExecutionStatus::AuthDenied => "AUTH_DENIED",
            ExecutionStatus::RangeExceeded => "RANGE_EXCEEDED",
        };
        crate::text::owned(t)
    }
}

/// Structured error codes.
#[derive(Clone, Copy, Debug, PartialEq, Eq, Structural)]
pub enum ErrorCode {
    Unspecified,
    SchemaViolation,
    UnknownHandleRef,
    UnknownSelectorRef,
    TypeMismatch,
    GraphTraversalLimit,
    CostGuardRejected,
    AmbiguousConflict,
    FieldRedacted,
    UntrustedProvenance,
    DataLeakPrevention,
    ErrorBrokenLineage,
    HandleNotReady,
}

pub open spec fn error_code_number(c: ErrorCode) -> i32 {
    match c {
        ErrorCode::Unspecified => 0,
        ErrorCode::SchemaViolation => 1,
        ErrorCode::UnknownHandleRef => 2,
        ErrorCode::UnknownSelectorRef => 3,
        ErrorCode::TypeMismatch => 4,
        ErrorCode::GraphTraversalLimit => 5,
        ErrorCode::CostGuardRejected => 6,
        ErrorCode::AmbiguousConflict => 7,
        ErrorCode::FieldRedacted => 8,
        ErrorCode::UntrustedProvenance => 9,
        ErrorCode::DataLeakPrevention => 10,
        ErrorCode::ErrorBrokenLineage => 11,
        ErrorCode::HandleNotReady => 12,
    }
}

pub open spec fn error_code_from(v: i32) -> ErrorCode {
    if v == 1 {
        ErrorCode::SchemaViolation
    } else if v == 2 {
        ErrorCode::UnknownHandleRef
    } else if v == 3 {
        ErrorCode::UnknownSelectorRef
    } else if v == 4 {
        ErrorCode::TypeMismatch
    } else if v == 5 {
        ErrorCode::GraphTraversalLimit
    } else if v == 6 {
        ErrorCode::CostGuardRejected
    } else if v == 7 {
        ErrorCode::AmbiguousConflict
    } else if v == 8 {
        ErrorCode::FieldRedacted
    } else if v == 9 {
        ErrorCode::UntrustedProvenance
    } else if v == 10 {
        ErrorCode::DataLeakPrevention
    } else if v == 11 {
        ErrorCode::ErrorBrokenLineage
    } else if v == 12 {
        ErrorCode::HandleNotReady
    } else {
        ErrorCode::Unspecified
    }
}

pub open spec fn error_code_name_spec(c: ErrorCode) -> Seq<char> {
    match c {
        ErrorCode::Unspecified => "ERROR_CODE_UNSPECIFIED"@,
        ErrorCode::SchemaViolation => "SCHEMA_VIOLATION"@,
        ErrorCode::UnknownHandleRef => "UNKNOWN_HANDLE_REF"@,
        ErrorCode::UnknownSelectorRef => "UNKNOWN_SELECTOR_REF"@,
        ErrorCode::TypeMismatch => "TYPE_MISMATCH"@,
        ErrorCode::GraphTraversalLimit => "GRAPH_TRAVERSAL_LIMIT"@,
        ErrorCode::CostGuardRejected => "COST_GUARD_REJECTED"@,
        ErrorCode::AmbiguousConflict => "AMBIGUOUS_CONFLICT"@,
        ErrorCode::FieldRedacted => "FIELD_REDACTED"@,
        ErrorCode::UntrustedProvenance => "UNTRUSTED_PROVENANCE"@,
        ErrorCode::DataLeakPrevention => "DATA_LEAK_PREVENTION"@,
        ErrorCode::ErrorBrokenLineage => "ERROR_BROKEN_LINEAGE"@,
        ErrorCode::HandleNotReady => "HANDLE_NOT_READY"@,
    }
}

impl ErrorCode {
    /// The wire number.
    pub fn number(self) -> (n: i32)
        ensures
            n == error_code_number(self),
    {
        match self {
            ErrorCode::Unspecified => 0,
            ErrorCode::SchemaViolation => 1,
            ErrorCode::UnknownHandleRef => 2,
            ErrorCode::UnknownSelectorRef => 3,
            ErrorCode::TypeMismatch => 4,
            ErrorCode::GraphTraversalLimit => 5,
            ErrorCode::CostGuardRejected => 6,
            ErrorCode::AmbiguousConflict => 7,
            ErrorCode::FieldRedacted => 8,
            ErrorCode::UntrustedProvenance => 9,
            ErrorCode::DataLeakPrevention => 10,
            ErrorCode::ErrorBrokenLineage => 11,
            ErrorCode::HandleNotReady => 12,
        }
    }

    /// The protocol name.
    pub fn as_str_name(self) -> (s: String)
        ensures
            s@ == error_code_name_spec(self),
    {
        let t = match self {
            ErrorCode::Unspecified => "ERROR_CODE_UNSPECIFIED",
            ErrorCode::SchemaViolation => "SCHEMA_VIOLATION",
            ErrorCode::UnknownHandleRef => "UNKNOWN_HANDLE_REF",
            ErrorCode::UnknownSelectorRef => "UNKNOWN_SELECTOR_REF",
            ErrorCode::TypeMismatch => "TYPE_MISMATCH",
            ErrorCode::GraphTraversalLimit => "GRAPH_TRAVERSAL_LIMIT",
            ErrorCode::CostGuardRejected => "COST_GUARD_REJECTED",
            ErrorCode::AmbiguousConflict => "AMBIGUOUS_CONFLICT",
            ErrorCode::FieldRedacted => "FIELD_REDACTED",
            ErrorCode::UntrustedProvenance => "UNTRUSTED_PROVENANCE",
            ErrorCode::DataLeakPrevention => "DATA_LEAK_PREVENTION",
            ErrorCode::ErrorBrokenLineage => "ERROR_BROKEN_LINEAGE",
            ErrorCode::HandleNotReady => "HANDLE_NOT_READY",
        };
        crate::text::owned(t)
    }
}

/// The error code numbered `v`; unknown numbers map to `Unspecified`.
pub fn error_code_from_i32(v: i32) -> (r: ErrorCode)
    ensures
        r == error_code_from(v),
{
    if v == 1 {
        ErrorCode::SchemaViolation
    } else if v == 2 {
        ErrorCode::UnknownHandleRef
    } else if v == 3 {
        ErrorCode::UnknownSelectorRef
    } else if v == 4 {
        ErrorCode::TypeMismatch
    } else if v == 5 {
        ErrorCode::GraphTraversalLimit
    } else if v == 6 {
        ErrorCode::CostGuardRejected
    } else if v == 7 {
        ErrorCode::AmbiguousConflict
    } else if v == 8 {
        ErrorCode::FieldRedacted
    } else if v == 9 {
        ErrorCode::UntrustedProvenance
    } else if v == 10 {
        ErrorCode::DataLeakPrevention
    } else if v == 11 {
        ErrorCode::ErrorBrokenLineage
    } else if v == 12 {
        ErrorCode::HandleNotReady
    } else {
        ErrorCode::Unspecified
    }
}

// ----------------------------------------------------------------------
// Oneofs
// ----------------------------------------------------------------------

/// The set variant of a [`Value`].
pub enum ValueKind {
    S(String),
    B(bool),
    I64(i64),
    F64(Float64),
    Ts(Timestamp),
    E(String),
}

/// The mathematical model of [`ValueKind`].
pub enum ValueKindView {
    S(Seq<char>),
    B(bool),
    I64(i64),
    F64(Float64View),
    Ts(Timestamp),
    E(Seq<char>),
}

impl View for ValueKind {
    type V = ValueKindView;

    open spec fn view(&self) -> ValueKindView {
        match self {
            ValueKind::S(s) => ValueKindView::S(s@),
            ValueKind::B(b) => ValueKindView::B(*b),
            ValueKind::I64(i) => ValueKindView::I64(*i),
            ValueKind::F64(f) => ValueKindView::F64(f@),
            ValueKind::Ts(t) => ValueKindView::Ts(*t),
            ValueKind::E(s) => ValueKindView::E(s@),
        }
    }
}

impl Clone for ValueKind {
    fn clone(&self) -> (res: Self)
        ensures
            res@ == self@,
    {
        match self {
            ValueKind::S(s) => ValueKind::S(s.clone()),
            ValueKind::B(b) => ValueKind::B(*b),
            ValueKind::I64(i) => ValueKind::I64(*i),
            ValueKind::F64(f) => ValueKind::F64(f.clone()),
            ValueKind::Ts(t) => ValueKind::Ts(*t),
            ValueKind::E(s) => ValueKind::E(s.clone()),
        }
    }
}

/// The set variant of a [`CitationRef`].
pub enum Cite {
    HandleRef(String),
    AnchorRef(String),
}

/// The mathematical model of [`Cite`].
pub enum CiteView {
    HandleRef(Seq<char>),
    AnchorRef(Seq<char>),
}

impl View for Cite {
    type V = CiteView;

    open spec fn view(&self) -> CiteView {
        match self {
            Cite::HandleRef(s) => CiteView::HandleRef(s@),
            Cite::AnchorRef(s) => CiteView::AnchorRef(s@),
        }
    }
}

impl Clone for Cite {
    fn clone(&self) -> (res: Self)
        ensures
            res@ == self@,
    {
        match self {
            Cite::HandleRef(s) => Cite::HandleRef(s.clone()),
            Cite::AnchorRef(s) => Cite::AnchorRef(s.clone()),
        }
    }
}

/// The operation of a [`Step`].
pub enum Op {
    Fetch(OpFetch),
    ApplySelector(OpApplySelector),
    Resolve(OpResolve),
    Filter(OpFilter),
    Join(OpJoin),
    Project(OpProject),
    AssertOp(OpAssert),
}

/// The mathematical model of [`Op`].
pub enum OpView {
    Fetch(OpFetchView),
    ApplySelector(OpApplySelectorView),
    Resolve(OpResolveView),
    Filter(OpFilterView),
    Join(OpJoinView),
    Project(OpProjectView),
    AssertOp(OpAssertView),
}

impl View for Op {
    type V = OpView;

    open spec fn view(&self) -> OpView {
        match self {
            Op::Fetch(o) => OpView::Fetch(o@),
            Op::ApplySelector(o) => OpView::ApplySelector(o@),
            Op::Resolve(o) => OpView::Resolve(o@),
            Op::Filter(o) => OpView::Filter(o@),
            Op::Join(o) => OpView::Join(o@),
            Op::Project(o) => OpView::Project(o@),
            Op::AssertOp(o) => OpView::AssertOp(o@),
        }
    }
}

impl Clone for Op {
    fn clone(&self) -> (res: Self)
        ensures
            res@ == self@,
    {
        match self {
            Op::Fetch(o) => Op::Fetch(o.clone()),
            Op::ApplySelector(o) => Op::ApplySelector(o.clone()),
            Op::Resolve(o) => Op::Resolve(o.clone()),
            Op::Filter(o) => Op::Filter(o.clone()),
            Op::Join(o) => Op::Join(o.clone()),
            Op::Project(o) => Op::Project(o.clone()),
            Op::AssertOp(o) => Op::AssertOp(o.clone()),
        }
    }
}

// ----------------------------------------------------------------------
// Messages
// ----------------------------------------------------------------------

/// A point in time: seconds and nanoseconds since the Unix epoch.
#[derive(Clone, Copy, Debug, PartialEq, Eq, Structural)]
pub struct Timestamp {
    pub seconds: i64,
    pub nanos: i32,
}

/// A 64-bit float carried as its IEEE-754 bit pattern together with its
/// decimal rendering (Rust's `Display` of the value), which is all the
/// kernel reads of it.
pub struct Float64 {
    pub bits: u64,
    pub text: String,
}

/// The mathematical model of [`Float64`].
#[verifier::ext_equal]
pub struct Float64View {
    pub bits: u64,
    pub text: Seq<char>,
}

impl View for Float64 {
    type V = Float64View;

    open spec fn view(&self) -> Float64View {
        Float64View {
            bits: self.bits,
            text: self.text@,
        }
    }
}

impl Clone for Float64 {
    fn clone(&self) -> (res: Self)
        ensures
            res@ == self@,
    {
        let res = Float64 {
            bits: self.bits,
            text: self.text.clone(),
        };
        proof {
            assert(res@ =~= self@);
        }
        res
    }
}

/// A scalar value; `v` is `None` when unset.
pub struct Value {
    pub v: Option<ValueKind>,
}

/// The mathematical model of [`Value`].
#[verifier::ext_equal]
pub struct ValueView {
    pub v: Option<ValueKindView>,
}

impl View for Value {
    type V = ValueView;

    open spec fn view(&self) -> ValueView {
        ValueView {
            v: match self.v { Some(x) => Some(x@), None => None },
        }
    }
}

impl Clone for Value {
    fn clone(&self) -> (res: Self)
        ensures
            res@ == self@,
    {
        let res = Value {
            v: match &self.v { Some(x) => Some(x.clone()), None => None },
        };
        proof {
            assert(res@ =~= self@);
        }
        res
    }
}

/// Validity window of a handle.
pub struct TemporalBound {
    pub valid_from: Option<Timestamp>,
    pub valid_to: Option<Timestamp>,
    pub open_end: bool,
}

/// The mathematical model of [`TemporalBound`].
#[verifier::ext_equal]
pub struct TemporalBoundView {
    pub valid_from: Option<Timestamp>,
    pub valid_to: Option<Timestamp>,
    pub open_end: bool,
}

impl View for TemporalBound {
    type V = TemporalBoundView;

    open spec fn view(&self) -> TemporalBoundView {
        TemporalBoundView {
            valid_from: self.valid_from,
            valid_to: self.valid_to,
            open_end: self.open_end,
        }
    }
}

impl Clone for TemporalBound {
    fn clone(&self) -> (res: Self)
        ensures
            res@ == self@,
    {
        let res = TemporalBound {
            valid_from: self.valid_from,
            valid_to: self.valid_to,
            open_end: self.open_end,
        };
        proof {
            assert(res@ =~= self@);
        }
        res
    }
}

/// Public metadata of a handle.
pub struct HandleMeta {
    pub subject: String,
    pub predicate_label: String,
    pub trust_tier: i32,
    pub taint: Vec<i32>,
    pub temporal: Option<TemporalBound>,
    pub scope: i32,
}

/// The mathematical model of [`HandleMeta`].
#[verifier::ext_equal]
pub struct HandleMetaView {
    pub subject: Seq<char>,
    pub predicate_label: Seq<char>,
    pub trust_tier: i32,
    pub taint: Seq<i32>,
    pub temporal: Option<TemporalBoundView>,
    pub scope: i32,
}

impl View for HandleMeta {
    type V = HandleMetaView;

    open spec fn view(&self) -> HandleMetaView {
        HandleMetaView {
            subject: self.subject@,
            predicate_label: self.predicate_label@,
            trust_tier: self.trust_tier,
            taint: self.taint@,
            temporal: match self.temporal { Some(x) => Some(x@), None => None },
            scope: self.scope,
        }
    }
}

impl Clone for HandleMeta {
    fn clone(&self) -> (res: Self)
        ensures
            res@ == self@,
    {
        let res = HandleMeta {
            subject: self.subject.clone(),
            predicate_label: self.predicate_label.clone(),
            trust_tier: self.trust_tier,
            taint: clone_plain_vec(&self.taint),
            temporal: match &self.temporal { Some(x) => Some(x.clone()), None => None },
            scope: self.scope,
        };
        proof {
            assert(res@ =~= self@);
        }
        res
    }
}

/// A capability handle issued by the manifest.
pub struct HandleRef {
    pub ref_id: String,
    pub type_id: String,
    pub availability: i32,
    pub meta: Option<HandleMeta>,
    pub signature_summary: String,
    pub conflict_group_id: String,
}

/// The mathematical model of [`HandleRef`].
#[verifier::ext_equal]
pub struct HandleRefView {
    pub ref_id: Seq<char>,
    pub type_id: Seq<char>,
    pub availability: i32,
    pub meta: Option<HandleMetaView>,
    pub signature_summary: Seq<char>,
    pub conflict_group_id: Seq<char>,
}

impl View for HandleRef {
    type V = HandleRefView;

    open spec fn view(&self) -> HandleRefView {
        HandleRefView {
            ref_id: self.ref_id@,
            type_id: self.type_id@,
            availability: self.availability,
            meta: match self.meta { Some(x) => Some(x@), None => None },
            signature_summary: self.signature_summary@,
            conflict_group_id: self.conflict_group_id@,
        }
    }
}

impl Clone for HandleRef {
    fn clone(&self) -> (res: Self)
        ensures
            res@ == self@,
    {
        let res = HandleRef {
            ref_id: self.ref_id.clone(),
            type_id: self.type_id.clone(),
            availability: self.availability,
            meta: match &self.meta { Some(x) => Some(x.clone()), None => None },
            signature_summary: self.signature_summary.clone(),
            conflict_group_id: self.conflict_group_id.clone(),
        };
        proof {
            assert(res@ =~= self@);
        }
        res
    }
}

/// A declared selector parameter.
pub struct ParamSpec {
    pub name: String,
    pub param_type: i32,
    pub enum_values: Vec<String>,
}

/// The mathematical model of [`ParamSpec`].
#[verifier::ext_equal]
pub struct ParamSpecView {
    pub name: Seq<char>,
    pub param_type: i32,
    pub enum_values: Seq<Seq<char>>,
}

impl View for ParamSpec {
    type V = ParamSpecView;

    open spec fn view(&self) -> ParamSpecView {
        ParamSpecView {
            name: self.name@,
            param_type: self.param_type,
            enum_values: self.enum_values@.map_values(|x: String| x@),
        }
    }
}

impl Clone for ParamSpec {
    fn clone(&self) -> (res: Self)
        ensures
            res@ == self@,
    {
        let res = ParamSpec {
            name: self.name.clone(),
            param_type: self.param_type,
            enum_values: clone_strings(&self.enum_values),
        };
        proof {
            assert(res@ =~= self@);
        }
        res
    }
}

/// A selector issued by the manifest; `cost_weight_bits` is the bit
/// pattern of its `f64` cost weight.
pub struct SelectorRef {
    pub sel: String,
    pub description: String,
    pub params: Vec<ParamSpec>,
    pub cost_weight_bits: u64,
    pub return_type: i32,
}

/// The mathematical model of [`SelectorRef`].
#[verifier::ext_equal]
pub struct SelectorRefView {
    pub sel: Seq<char>,
    pub description: Seq<char>,
    pub params: Seq<ParamSpecView>,
    pub cost_weight_bits: u64,
    pub return_type: i32,
}

impl View for SelectorRef {
    type V = SelectorRefView;

    open spec fn view(&self) -> SelectorRefView {
        SelectorRefView {
            sel: self.sel@,
            description: self.description@,
            params: self.params@.map_values(|x: ParamSpec| x@),
            cost_weight_bits: self.cost_weight_bits,
            return_type: self.return_type,
        }
    }
}

impl Clone for SelectorRef {
    fn clone(&self) -> (res: Self)
        ensures
            res@ == self@,
    {
        let res = SelectorRef {
            sel: self.sel.clone(),
            description: self.description.clone(),
            params: clone_vec(&self.params),
            cost_weight_bits: self.cost_weight_bits,
            return_type: self.return_type,
        };
        proof {
            assert(res@ =~= self@);
        }
        res
    }
}

/// A named context value.
pub struct ContextVar {
    pub name: String,
    pub value: Option<Value>,
}

/// The mathematical model of [`ContextVar`].
#[verifier::ext_equal]
pub struct ContextVarView {
    pub name: Seq<char>,
    pub value: Option<ValueView>,
}

impl View for ContextVar {
    type V = ContextVarView;

    open spec fn view(&self) -> ContextVarView {
        ContextVarView {
            name: self.name@,
            value: match self.value { Some(x) => Some(x@), None => None },
        }
    }
}

impl Clone for ContextVar {
    fn clone(&self) -> (res: Self)
        ensures
            res@ == self@,
    {
        let res = ContextVar {
            name: self.name.clone(),
            value: match &self.value { Some(x) => Some(x.clone()), None => None },
        };
        proof {
            assert(res@ =~= self@);
        }
        res
    }
}

/// Execution limits; `max_total_cost_bits` is the bit pattern of the
/// `f64` cost ceiling.
pub struct PlanBudget {
    pub max_ops: u32,
    pub max_join_depth: u32,
    pub max_fanout: u32,
    pub max_total_cost_bits: u64,
}

/// The mathematical model of [`PlanBudget`].
#[verifier::ext_equal]
pub struct PlanBudgetView {
    pub max_ops: u32,
    pub max_join_depth: u32,
    pub max_fanout: u32,
    pub max_total_cost_bits: u64,
}

impl View for PlanBudget {
    type V = PlanBudgetView;

    open spec fn view(&self) -> PlanBudgetView {
        PlanBudgetView {
            max_ops: self.max_ops,
            max_join_depth: self.max_join_depth,
            max_fanout: self.max_fanout,
            max_total_cost_bits: self.max_total_cost_bits,
        }
    }
}

impl Clone for PlanBudget {
    fn clone(&self) -> (res: Self)
        ensures
            res@ == self@,
    {
        let res = PlanBudget {
            max_ops: self.max_ops,
            max_join_depth: self.max_join_depth,
            max_fanout: self.max_fanout,
            max_total_cost_bits: self.max_total_cost_bits,
        };
        proof {
            assert(res@ =~= self@);
        }
        res
    }
}

/// The manifest a plan is checked and run against.
pub struct PublicManifest {
    pub request_id: String,
    pub handles: Vec<HandleRef>,
    pub selectors: Vec<SelectorRef>,
    pub context: Vec<ContextVar>,
    pub budget: Option<PlanBudget>,
}

/// The mathematical model of [`PublicManifest`].
#[verifier::ext_equal]
pub struct PublicManifestView {
    pub request_id: Seq<char>,
    pub handles: Seq<HandleRefView>,
    pub selectors: Seq<SelectorRefView>,
    pub context: Seq<ContextVarView>,
    pub budget: Option<PlanBudgetView>,
}

impl View for PublicManifest {
    type V = PublicManifestView;

    open spec fn view(&self) -> PublicManifestView {
        PublicManifestView {
            request_id: self.request_id@,
            handles: self.handles@.map_values(|x: HandleRef| x@),
            selectors: self.selectors@.map_values(|x: SelectorRef| x@),
            context: self.context@.map_values(|x: ContextVar| x@),
            budget: match self.budget { Some(x) => Some(x@), None => None },
        }
    }
}

impl Clone for PublicManifest {
    fn clone(&self) -> (res: Self)
        ensures
            res@ == self@,
    {
        let res = PublicManifest {
            request_id: self.request_id.clone(),
            handles: clone_vec(&self.handles),
            selectors: clone_vec(&self.selectors),
            context: clone_vec(&self.context),
            budget: match &self.budget { Some(x) => Some(x.clone()), None => None },
        };
        proof {
            assert(res@ =~= self@);
        }
        res
    }
}

/// FETCH a manifest handle.
pub struct OpFetch {
    pub handle_ref: String,
}

/// The mathematical model of [`OpFetch`].
#[verifier::ext_equal]
pub struct OpFetchView {
    pub handle_ref: Seq<char>,
}

impl View for OpFetch {
    type V = OpFetchView;

    open spec fn view(&self) -> OpFetchView {
        OpFetchView {
            handle_ref: self.handle_ref@,
        }
    }
}

impl Clone for OpFetch {
    fn clone(&self) -> (res: Self)
        ensures
            res@ == self@,
    {
        let res = OpFetch {
            handle_ref: self.handle_ref.clone(),
        };
        proof {
            assert(res@ =~= self@);
        }
        res
    }
}

/// APPLY_SELECTOR with parameters.
pub struct OpApplySelector {
    pub selector_ref: String,
    pub params: StrMap<Value>,
}

/// The mathematical model of [`OpApplySelector`].
#[verifier::ext_equal]
pub struct OpApplySelectorView {
    pub selector_ref: Seq<char>,
    pub params: Seq<(Seq<char>, ValueView)>,
}

impl View for OpApplySelector {
    type V = OpApplySelectorView;

    open spec fn view(&self) -> OpApplySelectorView {
        OpApplySelectorView {
            selector_ref: self.selector_ref@,
            params: self.params@,
        }
    }
}

impl Clone for OpApplySelector {
    fn clone(&self) -> (res: Self)
        ensures
            res@ == self@,
    {
        let res = OpApplySelector {
            selector_ref: self.selector_ref.clone(),
            params: self.params.clone(),
        };
        proof {
            assert(res@ =~= self@);
        }
        res
    }
}

/// RESOLVE a handle set to its best candidate.
pub struct OpResolve {
    pub in_reg: String,
    pub policy_id: String,
}

/// The mathematical model of [`OpResolve`].
#[verifier::ext_equal]
pub struct OpResolveView {
    pub in_reg: Seq<char>,
    pub policy_id: Seq<char>,
}

impl View for OpResolve {
    type V = OpResolveView;

    open spec fn view(&self) -> OpResolveView {
        OpResolveView {
            in_reg: self.in_reg@,
            policy_id: self.policy_id@,
        }
    }
}

impl Clone for OpResolve {
    fn clone(&self) -> (res: Self)
        ensures
            res@ == self@,
    {
        let res = OpResolve {
            in_reg: self.in_reg.clone(),
            policy_id: self.policy_id.clone(),
        };
        proof {
            assert(res@ =~= self@);
        }
        res
    }
}

/// FILTER a handle set.
pub struct OpFilter {
    pub in_reg: String,
    pub filter_ref: String,
    pub params: StrMap<Value>,
}

/// The mathematical model of [`OpFilter`].
#[verifier::ext_equal]
pub struct OpFilterView {
    pub in_reg: Seq<char>,
    pub filter_ref: Seq<char>,
    pub params: Seq<(Seq<char>, ValueView)>,
}

impl View for OpFilter {
    type V = OpFilterView;

    open spec fn view(&self) -> OpFilterView {
        OpFilterView {
            in_reg: self.in_reg@,
            filter_ref: self.filter_ref@,
            params: self.params@,
        }
    }
}

impl Clone for OpFilter {
    fn clone(&self) -> (res: Self)
        ensures
            res@ == self@,
    {
        let res = OpFilter {
            in_reg: self.in_reg.clone(),
            filter_ref: self.filter_ref.clone(),
            params: self.params.clone(),
        };
        proof {
            assert(res@ =~= self@);
        }
        res
    }
}

/// JOIN two handle sets along an edge type.
pub struct OpJoin {
    pub left_reg: String,
    pub right_reg: String,
    pub edge_type: i32,
}

/// The mathematical model of [`OpJoin`].
#[verifier::ext_equal]
pub struct OpJoinView {
    pub left_reg: Seq<char>,
    pub right_reg: Seq<char>,
    pub edge_type: i32,
}

impl View for OpJoin {
    type V = OpJoinView;

    open spec fn view(&self) -> OpJoinView {
        OpJoinView {
            left_reg: self.left_reg@,
            right_reg: self.right_reg@,
            edge_type: self.edge_type,
        }
    }
}

impl Clone for OpJoin {
    fn clone(&self) -> (res: Self)
        ensures
            res@ == self@,
    {
        let res = OpJoin {
            left_reg: self.left_reg.clone(),
            right_reg: self.right_reg.clone(),
            edge_type: self.edge_type,
        };
        proof {
            assert(res@ =~= self@);
        }
        res
    }
}

/// PROJECT fields of a register.
pub struct OpProject {
    pub in_reg: String,
    pub field_paths: Vec<String>,
}

/// The mathematical model of [`OpProject`].
#[verifier::ext_equal]
pub struct OpProjectView {
    pub in_reg: Seq<char>,
    pub field_paths: Seq<Seq<char>>,
}

impl View for OpProject {
    type V = OpProjectView;

    open spec fn view(&self) -> OpProjectView {
        OpProjectView {
            in_reg: self.in_reg@,
            field_paths: self.field_paths@.map_values(|x: String| x@),
        }
    }
}

impl Clone for OpProject {
    fn clone(&self) -> (res: Self)
        ensures
            res@ == self@,
    {
        let res = OpProject {
            in_reg: self.in_reg.clone(),
            field_paths: clone_strings(&self.field_paths),
        };
        proof {
            assert(res@ =~= self@);
        }
        res
    }
}

/// A register field used as an assertion binding.
pub struct ValueRef {
    pub reg: String,
    pub field_path: String,
}

/// The mathematical model of [`ValueRef`].
#[verifier::ext_equal]
pub struct ValueRefView {
    pub reg: Seq<char>,
    pub field_path: Seq<char>,
}

impl View for ValueRef {
    type V = ValueRefView;

    open spec fn view(&self) -> ValueRefView {
        ValueRefView {
            reg: self.reg@,
            field_path: self.field_path@,
        }
    }
}

impl Clone for ValueRef {
    fn clone(&self) -> (res: Self)
        ensures
            res@ == self@,
    {
        let res = ValueRef {
            reg: self.reg.clone(),
            field_path: self.field_path.clone(),
        };
        proof {
            assert(res@ =~= self@);
        }
        res
    }
}

/// A citation given in the plan; `cite` is `None` when unset.
pub struct CitationRef {
    pub cite: Option<Cite>,
}

/// The mathematical model of [`CitationRef`].
#[verifier::ext_equal]
pub struct CitationRefView {
    pub cite: Option<CiteView>,
}

impl View for CitationRef {
    type V = CitationRefView;

    open spec fn view(&self) -> CitationRefView {
        CitationRefView {
            cite: match self.cite { Some(x) => Some(x@), None => None },
        }
    }
}

impl Clone for CitationRef {
    fn clone(&self) -> (res: Self)
        ensures
            res@ == self@,
    {
        let res = CitationRef {
            cite: match &self.cite { Some(x) => Some(x.clone()), None => None },
        };
        proof {
            assert(res@ =~= self@);
        }
        res
    }
}

/// ASSERT a verified fact from bound register fields.
pub struct OpAssert {
    pub assertion_type: i32,
    pub bindings: StrMap<ValueRef>,
    pub citations: Vec<CitationRef>,
}

/// The mathematical model of [`OpAssert`].
#[verifier::ext_equal]
pub struct OpAssertView {
    pub assertion_type: i32,
    pub bindings: Seq<(Seq<char>, ValueRefView)>,
    pub citations: Seq<CitationRefView>,
}

impl View for OpAssert {
    type V = OpAssertView;

    open spec fn view(&self) -> OpAssertView {
        OpAssertView {
            assertion_type: self.assertion_type,
            bindings: self.bindings@,
            citations: self.citations@.map_values(|x: CitationRef| x@),
        }
    }
}

impl Clone for OpAssert {
    fn clone(&self) -> (res: Self)
        ensures
            res@ == self@,
    {
        let res = OpAssert {
            assertion_type: self.assertion_type,
            bindings: self.bindings.clone(),
            citations: clone_vec(&self.citations),
        };
        proof {
            assert(res@ =~= self@);
        }
        res
    }
}

/// One plan step writing register `out`.
pub struct Step {
    pub out: String,
    pub op: Option<Op>,
}

/// The mathematical model of [`Step`].
#[verifier::ext_equal]
pub struct StepView {
    pub out: Seq<char>,
    pub op: Option<OpView>,
}

impl View for Step {
    type V = StepView;

    open spec fn view(&self) -> StepView {
        StepView {
            out: self.out@,
            op: match self.op { Some(x) => Some(x@), None => None },
        }
    }
}

impl Clone for Step {
    fn clone(&self) -> (res: Self)
        ensures
            res@ == self@,
    {
        let res = Step {
            out: self.out.clone(),
            op: match &self.op { Some(x) => Some(x.clone()), None => None },
        };
        proof {
            assert(res@ =~= self@);
        }
        res
    }
}

/// A register to render.
pub struct OutputSpec {
    pub reg: String,
}

/// The mathematical model of [`OutputSpec`].
#[verifier::ext_equal]
pub struct OutputSpecView {
    pub reg: Seq<char>,
}

impl View for OutputSpec {
    type V = OutputSpecView;

    open spec fn view(&self) -> OutputSpecView {
        OutputSpecView {
            reg: self.reg@,
        }
    }
}

impl Clone for OutputSpec {
    fn clone(&self) -> (res: Self)
        ensures
            res@ == self@,
    {
        let res = OutputSpec {
            reg: self.reg.clone(),
        };
        proof {
            assert(res@ =~= self@);
        }
        res
    }
}

/// An SSA-style plan.
pub struct RmvmPlan {
    pub request_id: String,
    pub steps: Vec<Step>,
    pub outputs: Vec<OutputSpec>,
}

/// The mathematical model of [`RmvmPlan`].
#[verifier::ext_equal]
pub struct RmvmPlanView {
    pub request_id: Seq<char>,
    pub steps: Seq<StepView>,
    pub outputs: Seq<OutputSpecView>,
}

impl View for RmvmPlan {
    type V = RmvmPlanView;

    open spec fn view(&self) -> RmvmPlanView {
        RmvmPlanView {
            request_id: self.request_id@,
            steps: self.steps@.map_values(|x: Step| x@),
            outputs: self.outputs@.map_values(|x: OutputSpec| x@),
        }
    }
}

impl Clone for RmvmPlan {
    fn clone(&self) -> (res: Self)
        ensures
            res@ == self@,
    {
        let res = RmvmPlan {
            request_id: self.request_id.clone(),
            steps: clone_vec(&self.steps),
            outputs: clone_vec(&self.outputs),
        };
        proof {
            assert(res@ =~= self@);
        }
        res
    }
}

/// A manifest and a plan to run against it.
pub struct ExecuteRequest {
    pub manifest: Option<PublicManifest>,
    pub plan: Option<RmvmPlan>,
}

/// The mathematical model of [`ExecuteRequest`].
#[verifier::ext_equal]
pub struct ExecuteRequestView {
    pub manifest: Option<PublicManifestView>,
    pub plan: Option<RmvmPlanView>,
}

impl View for ExecuteRequest {
    type V = ExecuteRequestView;

    open spec fn view(&self) -> ExecuteRequestView {
        ExecuteRequestView {
            manifest: match self.manifest { Some(x) => Some(x@), None => None },
            plan: match self.plan { Some(x) => Some(x@), None => None },
        }
    }
}

impl Clone for ExecuteRequest {
    fn clone(&self) -> (res: Self)
        ensures
            res@ == self@,
    {
        let res = ExecuteRequest {
            manifest: match &self.manifest { Some(x) => Some(x.clone()), None => None },
            plan: match &self.plan { Some(x) => Some(x.clone()), None => None },
        };
        proof {
            assert(res@ =~= self@);
        }
        res
    }
}

/// A canonical citation anchor.
pub struct CanonicalCitation {
    pub anchor_digest: String,
}

/// The mathematical model of [`CanonicalCitation`].
#[verifier::ext_equal]
pub struct CanonicalCitationView {
    pub anchor_digest: Seq<char>,
}

impl View for CanonicalCitation {
    type V = CanonicalCitationView;

    open spec fn view(&self) -> CanonicalCitationView {
        CanonicalCitationView {
            anchor_digest: self.anchor_digest@,
        }
    }
}

impl Clone for CanonicalCitation {
    fn clone(&self) -> (res: Self)
        ensures
            res@ == self@,
    {
        let res = CanonicalCitation {
            anchor_digest: self.anchor_digest.clone(),
        };
        proof {
            assert(res@ =~= self@);
        }
        res
    }
}

/// A verified assertion with its bound fields and citations.
pub struct VerifiedAssertion {
    pub assertion_type: i32,
    pub fields: StrMap<Value>,
    pub citations: Vec<CanonicalCitation>,
}

/// The mathematical model of [`VerifiedAssertion`].
#[verifier::ext_equal]
pub struct VerifiedAssertionView {
    pub assertion_type: i32,
    pub fields: Seq<(Seq<char>, ValueView)>,
    pub citations: Seq<CanonicalCitationView>,
}

impl View for VerifiedAssertion {
    type V = VerifiedAssertionView;

    open spec fn view(&self) -> VerifiedAssertionView {
        VerifiedAssertionView {
            assertion_type: self.assertion_type,
            fields: self.fields@,
            citations: self.citations@.map_values(|x: CanonicalCitation| x@),
        }
    }
}

impl Clone for VerifiedAssertion {
    fn clone(&self) -> (res: Self)
        ensures
            res@ == self@,
    {
        let res = VerifiedAssertion {
            assertion_type: self.assertion_type,
            fields: self.fields.clone(),
            citations: clone_vec(&self.citations),
        };
        proof {
            assert(res@ =~= self@);
        }
        res
    }
}

/// Merkle inclusion path of one assertion.
pub struct InclusionProof {
    pub assertion_index: u32,
    pub sibling_hashes: Vec<String>,
}

/// The mathematical model of [`InclusionProof`].
#[verifier::ext_equal]
pub struct InclusionProofView {
    pub assertion_index: u32,
    pub sibling_hashes: Seq<Seq<char>>,
}

impl View for InclusionProof {
    type V = InclusionProofView;

    open spec fn view(&self) -> InclusionProofView {
        InclusionProofView {
            assertion_index: self.assertion_index,
            sibling_hashes: self.sibling_hashes@.map_values(|x: String| x@),
        }
    }
}

impl Clone for InclusionProof {
    fn clone(&self) -> (res: Self)
        ensures
            res@ == self@,
    {
        let res = InclusionProof {
            assertion_index: self.assertion_index,
            sibling_hashes: clone_strings(&self.sibling_hashes),
        };
        proof {
            assert(res@ =~= self@);
        }
        res
    }
}

/// Semantic and trace roots with inclusion paths.
pub struct AssertionMerkleProof {
    pub semantic_root: String,
    pub trace_root: String,
    pub inclusion: Vec<InclusionProof>,
}

/// The mathematical model of [`AssertionMerkleProof`].
#[verifier::ext_equal]
pub struct AssertionMerkleProofView {
    pub semantic_root: Seq<char>,
    pub trace_root: Seq<char>,
    pub inclusion: Seq<InclusionProofView>,
}

impl View for AssertionMerkleProof {
    type V = AssertionMerkleProofView;

    open spec fn view(&self) -> AssertionMerkleProofView {
        AssertionMerkleProofView {
            semantic_root: self.semantic_root@,
            trace_root: self.trace_root@,
            inclusion: self.inclusion@.map_values(|x: InclusionProof| x@),
        }
    }
}

impl Clone for AssertionMerkleProof {
    fn clone(&self) -> (res: Self)
        ensures
            res@ == self@,
    {
        let res = AssertionMerkleProof {
            semantic_root: self.semantic_root.clone(),
            trace_root: self.trace_root.clone(),
            inclusion: clone_vec(&self.inclusion),
        };
        proof {
            assert(res@ =~= self@);
        }
        res
    }
}

/// Rendered verified and narrative blocks.
pub struct RenderedOutput {
    pub verified_blocks: Vec<String>,
    pub narrative_blocks: Vec<String>,
}

/// The mathematical model of [`RenderedOutput`].
#[verifier::ext_equal]
pub struct RenderedOutputView {
    pub verified_blocks: Seq<Seq<char>>,
    pub narrative_blocks: Seq<Seq<char>>,
}

impl View for RenderedOutput {
    type V = RenderedOutputView;

    open spec fn view(&self) -> RenderedOutputView {
        RenderedOutputView {
            verified_blocks: self.verified_blocks@.map_values(|x: String| x@),
            narrative_blocks: self.narrative_blocks@.map_values(|x: String| x@),
        }
    }
}

impl Clone for RenderedOutput {
    fn clone(&self) -> (res: Self)
        ensures
            res@ == self@,
    {
        let res = RenderedOutput {
            verified_blocks: clone_strings(&self.verified_blocks),
            narrative_blocks: clone_strings(&self.narrative_blocks),
        };
        proof {
            assert(res@ =~= self@);
        }
        res
    }
}

/// Why and where execution stalled.
pub struct StallInfo {
    pub handle_ref: String,
    pub availability: i32,
    pub estimated_ready_at: Option<Timestamp>,
    pub retrieval_ticket: String,
}

/// The mathematical model of [`StallInfo`].
#[verifier::ext_equal]
pub struct StallInfoView {
    pub handle_ref: Seq<char>,
    pub availability: i32,
    pub estimated_ready_at: Option<Timestamp>,
    pub retrieval_ticket: Seq<char>,
}

impl View for StallInfo {
    type V = StallInfoView;

    open spec fn view(&self) -> StallInfoView {
        StallInfoView {
            handle_ref: self.handle_ref@,
            availability: self.availability,
            estimated_ready_at: self.estimated_ready_at,
            retrieval_ticket: self.retrieval_ticket@,
        }
    }
}

impl Clone for StallInfo {
    fn clone(&self) -> (res: Self)
        ensures
            res@ == self@,
    {
        let res = StallInfo {
            handle_ref: self.handle_ref.clone(),
            availability: self.availability,
            estimated_ready_at: self.estimated_ready_at,
            retrieval_ticket: self.retrieval_ticket.clone(),
        };
        proof {
            assert(res@ =~= self@);
        }
        res
    }
}

/// A pruning hint attached to an error.
pub struct Hint {
    pub text: String,
}

/// The mathematical model of [`Hint`].
#[verifier::ext_equal]
pub struct HintView {
    pub text: Seq<char>,
}

impl View for Hint {
    type V = HintView;

    open spec fn view(&self) -> HintView {
        HintView {
            text: self.text@,
        }
    }
}

impl Clone for Hint {
    fn clone(&self) -> (res: Self)
        ensures
            res@ == self@,
    {
        let res = Hint {
            text: self.text.clone(),
        };
        proof {
            assert(res@ =~= self@);
        }
        res
    }
}

/// A structured execution error.
pub struct ExecutionError {
    pub code: i32,
    pub message: String,
    pub hints: Vec<Hint>,
}

/// The mathematical model of [`ExecutionError`].
#[verifier::ext_equal]
pub struct ExecutionErrorView {
    pub code: i32,
    pub message: Seq<char>,
    pub hints: Seq<HintView>,
}

impl View for ExecutionError {
    type V = ExecutionErrorView;

    open spec fn view(&self) -> ExecutionErrorView {
        ExecutionErrorView {
            code: self.code,
            message: self.message@,
            hints: self.hints@.map_values(|x: Hint| x@),
        }
    }
}

impl Clone for ExecutionError {
    fn clone(&self) -> (res: Self)
        ensures
            res@ == self@,
    {
        let res = ExecutionError {
            code: self.code,
            message: self.message.clone(),
            hints: clone_vec(&self.hints),
        };
        proof {
            assert(res@ =~= self@);
        }
        res
    }
}

/// The outcome of `execute`.
pub struct ExecuteResponse {
    pub status: i32,
    pub assertions: Vec<VerifiedAssertion>,
    pub proof: Option<AssertionMerkleProof>,
    pub rendered: Option<RenderedOutput>,
    pub stall: Option<StallInfo>,
    pub error: Option<ExecutionError>,
}

/// The mathematical model of [`ExecuteResponse`].
#[verifier::ext_equal]
pub struct ExecuteResponseView {
    pub status: i32,
    pub assertions: Seq<VerifiedAssertionView>,
    pub proof: Option<AssertionMerkleProofView>,
    pub rendered: Option<RenderedOutputView>,
    pub stall: Option<StallInfoView>,
    pub error: Option<ExecutionErrorView>,
}

impl View for ExecuteResponse {
    type V = ExecuteResponseView;

    open spec fn view(&self) -> ExecuteResponseView {
        ExecuteResponseView {
            status: self.status,
            assertions: self.assertions@.map_values(|x: VerifiedAssertion| x@),
            proof: match self.proof { Some(x) => Some(x@), None => None },
            rendered: match self.rendered { Some(x) => Some(x@), None => None },
            stall: match self.stall { Some(x) => Some(x@), None => None },
            error: match self.error { Some(x) => Some(x@), None => None },
        }
    }
}

impl Clone for ExecuteResponse {
    fn clone(&self) -> (res: Self)
        ensures
            res@ == self@,
    {
        let res = ExecuteResponse {
            status: self.status,
            assertions: clone_vec(&self.assertions),
            proof: match &self.proof { Some(x) => Some(x.clone()), None => None },
            rendered: match &self.rendered { Some(x) => Some(x.clone()), None => None },
            stall: match &self.stall { Some(x) => Some(x.clone()), None => None },
            error: match &self.error { Some(x) => Some(x.clone()), None => None },
        };
        proof {
            assert(res@ =~= self@);
        }
        res
    }
}

} // verus!

verus! {

/// The wire number of a [`HandleAvailability`].
pub open spec fn availability_number(v: HandleAvailability) -> i32 {
    match v {
        HandleAvailability::Unspecified => 0,
        HandleAvailability::Ready => 1,
        HandleAvailability::Offline => 2,
        HandleAvailability::ArchivalPending => 3,
    }
}

impl HandleAvailability {
    /// The wire number.
    pub fn wire_number(self) -> (n: i32)
        ensures
            n == availability_number(self),
    {
        match self {
            HandleAvailability::Unspecified => 0,
            HandleAvailability::Ready => 1,
            HandleAvailability::Offline => 2,
            HandleAvailability::ArchivalPending => 3,
        }
    }
}

/// The wire number of a [`Scope`].
pub open spec fn scope_number(v: Scope) -> i32 {
    match v {
        Scope::Unspecified => 0,
        Scope::Global => 1,
    }
}

impl Scope {
    /// The wire number.
    pub fn wire_number(self) -> (n: i32)
        ensures
            n == scope_number(self),
    {
        match self {
            Scope::Unspecified => 0,
            Scope::Global => 1,
        }
    }
}

/// The wire number of a [`ParamType`].
pub open spec fn param_type_number(v: ParamType) -> i32 {
    match v {
        ParamType::Unspecified => 0,
        ParamType::ParamString => 1,
        ParamType::ParamBool => 2,
        ParamType::ParamInt64 => 3,
        ParamType::ParamFloat64 => 4,
        ParamType::ParamTimestamp => 5,
        ParamType::ParamEnum => 6,
        ParamType::ParamScope => 7,
    }
}

impl ParamType {
    /// The wire number.
    pub fn wire_number(self) -> (n: i32)
        ensures
            n == param_type_number(self),
    {
        match self {
            ParamType::Unspecified => 0,
            ParamType::ParamString => 1,
            ParamType::ParamBool => 2,
            ParamType::ParamInt64 => 3,
            ParamType::ParamFloat64 => 4,
            ParamType::ParamTimestamp => 5,
            ParamType::ParamEnum => 6,
            ParamType::ParamScope => 7,
        }
    }
}

/// The wire number of a [`SelectorReturn`].
pub open spec fn selector_return_number(v: SelectorReturn) -> i32 {
    match v {
        SelectorReturn::Unspecified => 0,
        SelectorReturn::ReturnHandle => 1,
        SelectorReturn::ReturnHandleSet => 2,
        SelectorReturn::ReturnStruct => 3,
    }
}

impl SelectorReturn {
    /// The wire number.
    pub fn wire_number(self) -> (n: i32)
        ensures
            n == selector_return_number(self),
    {
        match self {
            SelectorReturn::Unspecified => 0,
            SelectorReturn::ReturnHandle => 1,
            SelectorReturn::ReturnHandleSet => 2,
            SelectorReturn::ReturnStruct => 3,
        }
    }
}

} // verus!
