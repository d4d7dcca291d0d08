//! Reading handle fields and values: field paths, textual renderings,
//! selector matching, filters and parameter type checks.
use vstd::prelude::*;

use crate::kernel::regs::{fail, rejected, ExecStop, RegData, RegDataView, StopView};
use crate::proto::{
    availability_from, availability_from_i32, availability_name_spec, param_type_from,
    param_type_from_i32, scope_from, scope_from_i32, scope_name, tier_from, tier_name, tier_number,
    trust_tier_from_i32, ErrorCode, HandleRef, HandleRefView, ParamSpec, ParamSpecView, ParamType,
    TrustTier, Value, ValueKind, ValueKindView, ValueView,
};
use crate::smap::StrMap;
use crate::text::{dec_int, join, push_i64, push_str, str_eq};

verus! {

/// A string value.
pub open spec fn s_val(s: Seq<char>) -> ValueView {
    ValueView { v: Some(ValueKindView::S(s)) }
}

/// An enum-name value.
pub open spec fn e_val(s: Seq<char>) -> ValueView {
    ValueView { v: Some(ValueKindView::E(s)) }
}

pub fn s_value(s: String) -> (v: Value)
    ensures
        v@ == s_val(s@),
{
    Value { v: Some(ValueKind::S(s)) }
}

pub fn e_value(s: String) -> (v: Value)
    ensures
        v@ == e_val(s@),
{
    Value { v: Some(ValueKind::E(s)) }
}

/// The value at a field path of a handle, if the path names one.
pub open spec fn handle_field_spec(h: HandleRefView, path: Seq<char>) -> Option<ValueView> {
    if path == "ref"@ {
        Some(s_val(h.ref_id))
    } else if path == "type_id"@ {
        Some(s_val(h.type_id))
    } else if path == "signature_summary"@ {
        Some(s_val(h.signature_summary))
    } else if path == "conflict_group_id"@ {
        Some(s_val(h.conflict_group_id))
    } else if path == "availability"@ {
        Some(e_val(availability_name_spec(availability_from(h.availability))))
    } else if path == "meta.subject"@ {
        match h.meta {
            Some(m) => Some(s_val(m.subject)),
            None => None,
        }
    } else if path == "meta.predicate_label"@ {
        match h.meta {
            Some(m) => Some(s_val(m.predicate_label)),
            None => None,
        }
    } else if path == "meta.trust_tier"@ {
        match h.meta {
            Some(m) => Some(e_val(tier_name(tier_from(m.trust_tier)))),
            None => None,
        }
    } else if path == "meta.scope"@ {
        match h.meta {
            Some(m) => Some(e_val(scope_name(scope_from(m.scope)))),
            None => None,
        }
    } else if path == "meta.temporal.open_end"@ {
        match h.meta {
            Some(m) => match m.temporal {
                Some(t) => Some(ValueView { v: Some(ValueKindView::B(t.open_end)) }),
                None => None,
            },
            None => None,
        }
    } else if path == "meta.temporal.valid_from"@ {
        match h.meta {
            Some(m) => match m.temporal {
                Some(t) => match t.valid_from {
                    Some(ts) => Some(ValueView { v: Some(ValueKindView::Ts(ts)) }),
                    None => None,
                },
                None => None,
            },
            None => None,
        }
    } else if path == "meta.temporal.valid_to"@ {
        match h.meta {
            Some(m) => match m.temporal {
                Some(t) => match t.valid_to {
                    Some(ts) => Some(ValueView { v: Some(ValueKindView::Ts(ts)) }),
                    None => None,
                },
                None => None,
            },
            None => None,
        }
    } else {
        None
    }
}

/// The value at a field path of a handle.
pub fn handle_field(h: &HandleRef, path: &str) -> (r: Option<Value>)
    ensures
        match r {
            Some(v) => handle_field_spec(h@, path@) == Some(v@),
            None => handle_field_spec(h@, path@) is None,
        },
{
    if str_eq(path, "ref") {
        Some(s_value(h.ref_id.clone()))
    } else if str_eq(path, "type_id") {
        Some(s_value(h.type_id.clone()))
    } else if str_eq(path, "signature_summary") {
        Some(s_value(h.signature_summary.clone()))
    } else if str_eq(path, "conflict_group_id") {
        Some(s_value(h.conflict_group_id.clone()))
    } else if str_eq(path, "availability") {
        Some(e_value(availability_from_i32(h.availability).as_str_name()))
    } else if str_eq(path, "meta.subject") {
        match &h.meta {
            Some(m) => Some(s_value(m.subject.clone())),
            None => None,
        }
    } else if str_eq(path, "meta.predicate_label") {
        match &h.meta {
            Some(m) => Some(s_value(m.predicate_label.clone())),
            None => None,
        }
    } else if str_eq(path, "meta.trust_tier") {
        match &h.meta {
            Some(m) => Some(e_value(trust_tier_from_i32(m.trust_tier).as_str_name())),
            None => None,
        }
    } else if str_eq(path, "meta.scope") {
        match &h.meta {
            Some(m) => Some(e_value(scope_from_i32(m.scope).as_str_name())),
            None => None,
        }
    } else if str_eq(path, "meta.temporal.open_end") {
        match &h.meta {
            Some(m) => match &m.temporal {
                Some(t) => Some(Value { v: Some(ValueKind::B(t.open_end)) }),
                None => None,
            },
            None => None,
        }
    } else if str_eq(path, "meta.temporal.valid_from") {
        match &h.meta {
            Some(m) => match &m.temporal {
                Some(t) => match t.valid_from {
                    Some(ts) => Some(Value { v: Some(ValueKind::Ts(ts)) }),
                    None => None,
                },
                None => None,
            },
            None => None,
        }
    } else if str_eq(path, "meta.temporal.valid_to") {
        match &h.meta {
            Some(m) => match &m.temporal {
                Some(t) => match t.valid_to {
                    Some(ts) => Some(Value { v: Some(ValueKind::Ts(ts)) }),
                    None => None,
                },
                None => None,
            },
            None => None,
        }
    } else {
        None
    }
}

/// The textual rendering of a value.
pub open spec fn value_text(v: ValueView) -> Seq<char> {
    match v.v {
        Some(k) => match k {
            ValueKindView::S(s) => s,
            ValueKindView::B(b) => if b {
                "true"@
            } else {
                "false"@
            },
            ValueKindView::I64(i) => dec_int(i as int),
            ValueKindView::F64(f) => f.text,
            ValueKindView::Ts(t) => dec_int(t.seconds as int) + ":"@ + dec_int(t.nanos as int),
            ValueKindView::E(e) => e,
        },
        None => "<null>"@,
    }
}

/// Appends the textual rendering of a value.
pub fn push_value_text(out: &mut String, v: &Value)
    ensures
        final(out)@ == old(out)@ + value_text(v@),
{
    match &v.v {
        Some(k) => match k {
            ValueKind::S(s) => push_str(out, s.as_str()),
            ValueKind::B(b) => {
                if *b {
                    push_str(out, "true");
                } else {
                    push_str(out, "false");
                }
            },
            ValueKind::I64(i) => push_i64(out, *i),
            ValueKind::F64(f) => push_str(out, f.text.as_str()),
            ValueKind::Ts(t) => {
                push_i64(out, t.seconds);
                push_str(out, ":");
                push_i64(out, t.nanos as i64);
                assert(final(out)@ =~= old(out)@ + value_text(v@));
            },
            ValueKind::E(e) => push_str(out, e.as_str()),
        },
        None => push_str(out, "<null>"),
    }
}

/// The textual rendering of a value.
pub fn value_to_string(v: &Value) -> (s: String)
    ensures
        s@ == value_text(v@),
{
    let mut s = String::new();
    push_value_text(&mut s, v);
    assert(s@ =~= value_text(v@));
    s
}

/// `k:v` rendering of a struct entry.
pub open spec fn struct_entry_text(e: (Seq<char>, ValueView)) -> Seq<char> {
    e.0 + ":"@ + value_text(e.1)
}

/// The rendering of a register's data.
pub open spec fn reg_text(d: RegDataView) -> Seq<char> {
    match d {
        RegDataView::Handle(h) => "HANDLE("@ + h.ref_id + ")"@,
        RegDataView::HandleSet(hs) => "HANDLE_SET(["@ + join(
            hs.map_values(|h: HandleRefView| h.ref_id),
            ","@,
        ) + "])"@,
        RegDataView::Struct(m) => "STRUCT("@ + join(
            m.map_values(|e: (Seq<char>, ValueView)| struct_entry_text(e)),
            ","@,
        ) + ")"@,
    }
}

proof fn lemma_join_push(parts: Seq<Seq<char>>, p: Seq<char>, sep: Seq<char>)
    ensures
        join(parts.push(p), sep) == if parts.len() == 0 {
            p
        } else {
            join(parts, sep) + sep + p
        },
{
    assert(parts.push(p).drop_last() =~= parts);
}

/// The rendering of a register's data.
pub fn reg_to_string(d: &RegData) -> (s: String)
    ensures
        s@ == reg_text(d@),
{
    let mut s = String::new();
    match d {
        RegData::Handle(h) => {
            push_str(&mut s, "HANDLE(");
            push_str(&mut s, h.ref_id.as_str());
            push_str(&mut s, ")");
        },
        RegData::HandleSet(hs) => {
            push_str(&mut s, "HANDLE_SET([");
            let ghost refs = hs@.map_values(|h: HandleRef| h@).map_values(
                |h: HandleRefView| h.ref_id,
            );
            let ghost start = s@;
            let mut i: usize = 0;
            while i < hs.len()
                invariant
                    i <= hs.len(),
                    refs == hs@.map_values(|h: HandleRef| h@).map_values(
                        |h: HandleRefView| h.ref_id,
                    ),
                    s@ == start + join(refs.take(i as int), ","@),
                decreases hs.len() - i,
            {
                if i > 0 {
                    push_str(&mut s, ",");
                }
                push_str(&mut s, hs[i].ref_id.as_str());
                proof {
                    lemma_join_push(refs.take(i as int), refs[i as int], ","@);
                    assert(refs.take(i + 1) =~= refs.take(i as int).push(refs[i as int]));
                }
                i += 1;
            }
            assert(refs.take(hs.len() as int) =~= refs);
            push_str(&mut s, "])");
        },
        RegData::Struct(m) => {
            push_str(&mut s, "STRUCT(");
            let ghost parts = m@.map_values(|e: (Seq<char>, ValueView)| struct_entry_text(e));
            let ghost start = s@;
            let mut i: usize = 0;
            while i < m.len()
                invariant
                    i <= m@.len(),
                    parts == m@.map_values(|e: (Seq<char>, ValueView)| struct_entry_text(e)),
                    s@ == start + join(parts.take(i as int), ","@),
                decreases m@.len() - i,
            {
                if i > 0 {
                    push_str(&mut s, ",");
                }
                push_str(&mut s, m.key_at(i).as_str());
                push_str(&mut s, ":");
                push_value_text(&mut s, m.value_at(i));
                proof {
                    lemma_join_push(parts.take(i as int), parts[i as int], ","@);
                    assert(parts.take(i + 1) =~= parts.take(i as int).push(parts[i as int]));
                }
                i += 1;
            }
            assert(parts.take(m@.len() as int) =~= parts);
            push_str(&mut s, ")");
        },
    }
    assert(s@ =~= reg_text(d@));
    s
}

/// The string held by a string value.
pub open spec fn as_string(v: Option<ValueView>) -> Option<Seq<char>> {
    match v {
        Some(x) => match x.v {
            Some(ValueKindView::S(s)) => Some(s),
            _ => None,
        },
        None => None,
    }
}

/// The string held by a string or enum value.
pub open spec fn as_string_or_enum(v: Option<ValueView>) -> Option<Seq<char>> {
    match v {
        Some(x) => match x.v {
            Some(ValueKindView::S(s)) => Some(s),
            Some(ValueKindView::E(s)) => Some(s),
            _ => None,
        },
        None => None,
    }
}

fn as_string_exec(v: Option<&Value>) -> (r: Option<String>)
    ensures
        match r {
            Some(s) => as_string(
                match v {
                    Some(x) => Some(x@),
                    None => None,
                },
            ) == Some(s@),
            None => as_string(
                match v {
                    Some(x) => Some(x@),
                    None => None,
                },
            ) is None,
        },
{
    match v {
        Some(x) => match &x.v {
            Some(ValueKind::S(s)) => Some(s.clone()),
            _ => None,
        },
        None => None,
    }
}

fn as_string_or_enum_exec(v: Option<&Value>) -> (r: Option<String>)
    ensures
        match r {
            Some(s) => as_string_or_enum(
                match v {
                    Some(x) => Some(x@),
                    None => None,
                },
            ) == Some(s@),
            None => as_string_or_enum(
                match v {
                    Some(x) => Some(x@),
                    None => None,
                },
            ) is None,
        },
{
    match v {
        Some(x) => match &x.v {
            Some(ValueKind::S(s)) => Some(s.clone()),
            Some(ValueKind::E(s)) => Some(s.clone()),
            _ => None,
        },
        None => None,
    }
}

/// The trust-tier number named by a tier name, 0 when unknown.
pub open spec fn parse_enum_i32(name: Seq<char>) -> i32 {
    if name == "TIER_0_QUARANTINED"@ {
        1
    } else if name == "TIER_1_ASSERTED"@ {
        2
    } else if name == "TIER_2_VERIFIED"@ {
        3
    } else if name == "TIER_3_CONFIRMED"@ {
        4
    } else if name == "TIER_4_POLICY_SIGNED"@ {
        5
    } else {
        0
    }
}

fn parse_enum_i32_exec(name: &str) -> (r: i32)
    ensures
        r == parse_enum_i32(name@),
{
    if str_eq(name, "TIER_0_QUARANTINED") {
        1
    } else if str_eq(name, "TIER_1_ASSERTED") {
        2
    } else if str_eq(name, "TIER_2_VERIFIED") {
        3
    } else if str_eq(name, "TIER_3_CONFIRMED") {
        4
    } else if str_eq(name, "TIER_4_POLICY_SIGNED") {
        5
    } else {
        0
    }
}

/// The tier rank a filter parameter asks for.
pub open spec fn value_to_tier_rank(v: ValueView) -> Option<i32> {
    match v.v {
        Some(ValueKindView::I64(i)) => Some(i as i32),
        Some(ValueKindView::E(e)) => Some(tier_number(tier_from(parse_enum_i32(e)))),
        _ => None,
    }
}

fn value_to_tier_rank_exec(v: &Value) -> (r: Option<i32>)
    ensures
        r == value_to_tier_rank(v@),
{
    match &v.v {
        Some(ValueKind::I64(i)) => Some(*i as i32),
        Some(ValueKind::E(e)) => Some(trust_tier_from_i32(parse_enum_i32_exec(e.as_str())).number()),
        _ => None,
    }
}

/// The subject of a handle, if it has metadata.
pub open spec fn subject_of(h: HandleRefView) -> Option<Seq<char>> {
    match h.meta {
        Some(m) => Some(m.subject),
        None => None,
    }
}

/// The scope name of a handle, if it has metadata.
pub open spec fn scope_of(h: HandleRefView) -> Option<Seq<char>> {
    match h.meta {
        Some(m) => Some(scope_name(scope_from(m.scope))),
        None => None,
    }
}

/// The trust rank of a handle, 0 without metadata.
pub open spec fn handle_rank(h: HandleRefView) -> i32 {
    match h.meta {
        Some(m) => tier_number(tier_from(m.trust_tier)),
        None => 0,
    }
}

/// The trust tier of a handle, `Unspecified` without metadata.
pub open spec fn handle_tier(h: HandleRefView) -> TrustTier {
    match h.meta {
        Some(m) => tier_from(m.trust_tier),
        None => TrustTier::Unspecified,
    }
}

fn subject_exec(h: &HandleRef) -> (r: Option<&String>)
    ensures
        match r {
            Some(s) => subject_of(h@) == Some(s@),
            None => subject_of(h@) is None,
        },
{
    match &h.meta {
        Some(m) => Some(&m.subject),
        None => None,
    }
}

fn scope_exec(h: &HandleRef) -> (r: Option<String>)
    ensures
        match r {
            Some(s) => scope_of(h@) == Some(s@),
            None => scope_of(h@) is None,
        },
{
    match &h.meta {
        Some(m) => Some(scope_from_i32(m.scope).as_str_name()),
        None => None,
    }
}

pub fn handle_rank_exec(h: &HandleRef) -> (r: i32)
    ensures
        r == handle_rank(h@),
{
    match &h.meta {
        Some(m) => trust_tier_from_i32(m.trust_tier).number(),
        None => 0,
    }
}

pub fn handle_tier_exec(h: &HandleRef) -> (r: TrustTier)
    ensures
        r == handle_tier(h@),
{
    match &h.meta {
        Some(m) => trust_tier_from_i32(m.trust_tier),
        None => TrustTier::Unspecified,
    }
}

fn opt_eq(a: Option<&String>, b: &Option<String>) -> (r: bool)
    ensures
        r == (match a {
            Some(x) => Some(x@),
            None => None,
        } == match b {
            Some(y) => Some(y@),
            None => None::<Seq<char>>,
        }),
{
    match (a, b) {
        (Some(x), Some(y)) => str_eq(x.as_str(), y.as_str()),
        (None, None) => true,
        _ => false,
    }
}

/// Whether one selector parameter accepts a handle.
pub open spec fn param_accepts(h: HandleRefView, name: Seq<char>, value: ValueView) -> bool {
    if name == "subject"@ {
        subject_of(h) == as_string(Some(value))
    } else if name == "type_id"@ {
        Some(h.type_id) == as_string(Some(value))
    } else if name == "scope"@ {
        scope_of(h) == as_string_or_enum(Some(value))
    } else if name == "availability"@ {
        Some(availability_name_spec(availability_from(h.availability))) == as_string_or_enum(
            Some(value),
        )
    } else {
        true
    }
}

/// Whether every selector parameter accepts a handle.
pub open spec fn selector_match_spec(h: HandleRefView, params: Seq<(Seq<char>, ValueView)>) -> bool {
    forall|i: int| 0 <= i < params.len() ==> param_accepts(h, #[trigger] params[i].0, params[i].1)
}

/// Whether every selector parameter accepts a handle.
pub fn selector_match(h: &HandleRef, params: &StrMap<Value>) -> (r: bool)
    ensures
        r == selector_match_spec(h@, params@),
{
    let mut i: usize = 0;
    while i < params.len()
        invariant
            i <= params@.len(),
            forall|j: int| 0 <= j < i ==> param_accepts(h@, #[trigger] params@[j].0, params@[j].1),
        decreases params@.len() - i,
    {
        let name = params.key_at(i);
        let value = params.value_at(i);
        let ok = if str_eq(name.as_str(), "subject") {
            let e = as_string_exec(Some(value));
            opt_eq(subject_exec(h), &e)
        } else if str_eq(name.as_str(), "type_id") {
            let e = as_string_exec(Some(value));
            opt_eq(Some(&h.type_id), &e)
        } else if str_eq(name.as_str(), "scope") {
            let e = as_string_or_enum_exec(Some(value));
            let a = scope_exec(h);
            match &a {
                Some(x) => opt_eq(Some(x), &e),
                None => opt_eq(None, &e),
            }
        } else if str_eq(name.as_str(), "availability") {
            let e = as_string_or_enum_exec(Some(value));
            let a = availability_from_i32(h.availability).as_str_name();
            opt_eq(Some(&a), &e)
        } else {
            true
        };
        if !ok {
            assert(!param_accepts(h@, params@[i as int].0, params@[i as int].1));
            return false;
        }
        i += 1;
    }
    true
}

/// The outcome of a FILTER predicate on one handle.
pub open spec fn filter_spec(
    h: HandleRefView,
    filter_ref: Seq<char>,
    params: Seq<(Seq<char>, ValueView)>,
) -> Result<bool, StopView> {
    if filter_ref == "identity"@ {
        Ok(true)
    } else if filter_ref == "by_subject"@ {
        match as_string(crate::smap::smap_get(params, "subject"@)) {
            Some(s) => Ok(subject_of(h) == Some(s)),
            None => Err(rejected(ErrorCode::SchemaViolation, "by_subject requires subject string")),
        }
    } else if filter_ref == "by_type"@ {
        match as_string(crate::smap::smap_get(params, "type_id"@)) {
            Some(t) => Ok(h.type_id == t),
            None => Err(rejected(ErrorCode::SchemaViolation, "by_type requires type_id string")),
        }
    } else if filter_ref == "by_scope"@ {
        match as_string_or_enum(crate::smap::smap_get(params, "scope"@)) {
            Some(s) => Ok(
                match scope_of(h) {
                    Some(a) => a,
                    None => Seq::<char>::empty(),
                } == s,
            ),
            None => Err(rejected(ErrorCode::SchemaViolation, "by_scope requires scope enum/string")),
        }
    } else if filter_ref == "trust_at_least"@ {
        match crate::smap::smap_get(params, "tier"@) {
            Some(v) => match value_to_tier_rank(v) {
                Some(expected) => Ok(handle_rank(h) >= expected),
                None => Err(rejected(ErrorCode::SchemaViolation, "trust_at_least requires tier")),
            },
            None => Err(rejected(ErrorCode::SchemaViolation, "trust_at_least requires tier")),
        }
    } else {
        Err(rejected(ErrorCode::SchemaViolation, "unknown filter_ref"))
    }
}

/// The outcome of a FILTER predicate on one handle.
pub fn matches_filter(h: &HandleRef, filter_ref: &str, params: &StrMap<Value>) -> (r: Result<
    bool,
    ExecStop,
>)
    ensures
        match r {
            Ok(b) => filter_spec(h@, filter_ref@, params@) == Ok::<bool, StopView>(b),
            Err(e) => filter_spec(h@, filter_ref@, params@) == Err::<bool, StopView>(e@),
        },
{
    if str_eq(filter_ref, "identity") {
        Ok(true)
    } else if str_eq(filter_ref, "by_subject") {
        match as_string_exec(params.get("subject")) {
            Some(s) => {
                let e = Some(s);
                Ok(opt_eq(subject_exec(h), &e))
            },
            None => Err(fail(ErrorCode::SchemaViolation, "by_subject requires subject string")),
        }
    } else if str_eq(filter_ref, "by_type") {
        match as_string_exec(params.get("type_id")) {
            Some(t) => Ok(str_eq(h.type_id.as_str(), t.as_str())),
            None => Err(fail(ErrorCode::SchemaViolation, "by_type requires type_id string")),
        }
    } else if str_eq(filter_ref, "by_scope") {
        match as_string_or_enum_exec(params.get("scope")) {
            Some(s) => {
                let actual = match scope_exec(h) {
                    Some(a) => a,
                    None => String::new(),
                };
                Ok(str_eq(actual.as_str(), s.as_str()))
            },
            None => Err(fail(ErrorCode::SchemaViolation, "by_scope requires scope enum/string")),
        }
    } else if str_eq(filter_ref, "trust_at_least") {
        match params.get("tier") {
            Some(v) => match value_to_tier_rank_exec(v) {
                Some(expected) => Ok(handle_rank_exec(h) >= expected),
                None => Err(fail(ErrorCode::SchemaViolation, "trust_at_least requires tier")),
            },
            None => Err(fail(ErrorCode::SchemaViolation, "trust_at_least requires tier")),
        }
    } else {
        Err(fail(ErrorCode::SchemaViolation, "unknown filter_ref"))
    }
}

/// Whether a value has the type a parameter declares.
pub open spec fn value_matches_type_spec(v: ValueView, spec: ParamSpecView) -> bool {
    match param_type_from(spec.param_type) {
        ParamType::ParamString => v.v matches Some(ValueKindView::S(_)),
        ParamType::ParamBool => v.v matches Some(ValueKindView::B(_)),
        ParamType::ParamInt64 => v.v matches Some(ValueKindView::I64(_)),
        ParamType::ParamFloat64 => v.v matches Some(ValueKindView::F64(_)),
        ParamType::ParamTimestamp => v.v matches Some(ValueKindView::Ts(_)),
        ParamType::ParamEnum | ParamType::ParamScope => match v.v {
            Some(ValueKindView::E(e)) => spec.enum_values.len() == 0 || spec.enum_values.contains(e),
            _ => false,
        },
        ParamType::Unspecified => false,
    }
}

fn contains_string(v: &Vec<String>, s: &str) -> (r: bool)
    ensures
        r == v@.map_values(|x: String| x@).contains(s@),
{
    let ghost vs = v@.map_values(|x: String| x@);
    let mut i: usize = 0;
    while i < v.len()
        invariant
            i <= v.len(),
            vs == v@.map_values(|x: String| x@),
            forall|j: int| 0 <= j < i ==> vs[j] != s@,
        decreases v.len() - i,
    {
        if str_eq(v[i].as_str(), s) {
            assert(vs[i as int] == s@);
            return true;
        }
        i += 1;
    }
    false
}

/// Whether a value has the type a parameter declares.
pub fn value_matches_type(v: &Value, spec: &ParamSpec) -> (r: bool)
    ensures
        r == value_matches_type_spec(v@, spec@),
{
    match param_type_from_i32(spec.param_type) {
        ParamType::ParamString => matches!(v.v, Some(ValueKind::S(_))),
        ParamType::ParamBool => matches!(v.v, Some(ValueKind::B(_))),
        ParamType::ParamInt64 => matches!(v.v, Some(ValueKind::I64(_))),
        ParamType::ParamFloat64 => matches!(v.v, Some(ValueKind::F64(_))),
        ParamType::ParamTimestamp => matches!(v.v, Some(ValueKind::Ts(_))),
        ParamType::ParamEnum | ParamType::ParamScope => match &v.v {
            Some(ValueKind::E(e)) => spec.enum_values.len() == 0 || contains_string(
                &spec.enum_values,
                e.as_str(),
            ),
            _ => false,
        },
        ParamType::Unspecified => false,
    }
}

/// The declared parameter named `name`, the last declaration winning.
pub open spec fn find_param_spec(specs: Seq<ParamSpecView>, name: Seq<char>) -> Option<
    ParamSpecView,
>
    decreases specs.len(),
{
    if specs.len() == 0 {
        None
    } else if specs.last().name == name {
        Some(specs.last())
    } else {
        find_param_spec(specs.drop_last(), name)
    }
}

/// Checks supplied parameters, in key order, against the declared ones.
pub open spec fn check_params(specs: Seq<ParamSpecView>, params: Seq<(Seq<char>, ValueView)>) -> Result<
    (),
    StopView,
>
    decreases params.len(),
{
    if params.len() == 0 {
        Ok(())
    } else {
        match find_param_spec(specs, params[0].0) {
            None => Err(rejected(ErrorCode::SchemaViolation, "param not in selector spec")),
            Some(sp) => if !value_matches_type_spec(params[0].1, sp) {
                Err(rejected(ErrorCode::TypeMismatch, "param type mismatch"))
            } else {
                check_params(specs, params.drop_first())
            },
        }
    }
}

fn find_param_spec_exec<'a>(specs: &'a Vec<ParamSpec>, name: &str) -> (r: Option<&'a ParamSpec>)
    ensures
        match r {
            Some(s) => find_param_spec(specs@.map_values(|p: ParamSpec| p@), name@) == Some(s@),
            None => find_param_spec(specs@.map_values(|p: ParamSpec| p@), name@) is None,
        },
{
    let ghost sv = specs@.map_values(|p: ParamSpec| p@);
    let mut i: usize = specs.len();
    assert(sv.take(i as int) =~= sv);
    while i > 0
        invariant
            i <= specs.len(),
            sv == specs@.map_values(|p: ParamSpec| p@),
            find_param_spec(sv, name@) == find_param_spec(sv.take(i as int), name@),
        decreases i,
    {
        proof {
            assert(sv.take(i as int).drop_last() =~= sv.take(i - 1));
            assert(sv.take(i as int).last() == specs@[i - 1]@);
        }
        if str_eq(specs[i - 1].name.as_str(), name) {
            return Some(&specs[i - 1]);
        }
        i -= 1;
    }
    None
}

/// Checks supplied parameters, in key order, against the declared ones.
pub fn validate_param_specs(specs: &Vec<ParamSpec>, params: &StrMap<Value>) -> (r: Result<
    (),
    ExecStop,
>)
    ensures
        match r {
            Ok(_) => check_params(specs@.map_values(|p: ParamSpec| p@), params@) == Ok::<
                (),
                StopView,
            >(()),
            Err(e) => check_params(specs@.map_values(|p: ParamSpec| p@), params@) == Err::<
                (),
                StopView,
            >(e@),
        },
{
    let ghost sv = specs@.map_values(|p: ParamSpec| p@);
    let mut i: usize = 0;
    assert(params@.skip(0) =~= params@);
    while i < params.len()
        invariant
            i <= params@.len(),
            sv == specs@.map_values(|p: ParamSpec| p@),
            check_params(sv, params@) == check_params(sv, params@.skip(i as int)),
        decreases params@.len() - i,
    {
        let ghost rest = params@.skip(i as int);
        assert(rest[0] == params@[i as int]);
        assert(rest.drop_first() =~= params@.skip(i + 1));
        match find_param_spec_exec(specs, params.key_at(i).as_str()) {
            None => {
                return Err(fail(ErrorCode::SchemaViolation, "param not in selector spec"));
            },
            Some(sp) => {
                if !value_matches_type(params.value_at(i), sp) {
                    return Err(fail(ErrorCode::TypeMismatch, "param type mismatch"));
                }
            },
        }
        i += 1;
    }
    Ok(())
}

} // verus!
