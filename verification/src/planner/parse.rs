//! Reading a plan out of the JSON a planner produced. Two step shapes are
//! accepted: `{out, op: {kind, ...}}` with camel- or snake-case fields, and
//! the protocol shape `{out, fetch: {...}}` and so on.
use vstd::prelude::*;

use crate::json::{get_string, get_string1, get_string2, obj_get, obj_get_exec, str_of, Json};
use crate::proto::{
    assertion_type_number, edge_type_number, AssertionType, CitationRef, CitationRefView, Cite,
    CiteView, EdgeType, Float64View, Op, OpApplySelector, OpApplySelectorView, OpAssert,
    OpAssertView, OpFetch, OpFetchView, OpFilter, OpFilterView, OpJoin, OpJoinView, OpProject,
    OpProjectView, OpResolve, OpResolveView, OpView, OutputSpec, OutputSpecView, RmvmPlan,
    RmvmPlanView, Step, StepView, Value, ValueKind, ValueKindView, ValueRef, ValueRefView,
    ValueView,
};
use crate::smap::{smap_insert, StrMap};
use crate::text::{concat2, owned, str_eq};

verus! {

// ----------------------------------------------------------------------
// Enumerations by name
// ----------------------------------------------------------------------

/// The edge type a protocol name denotes, `Unspecified` for any other name.
pub open spec fn edge_by_name(s: Seq<char>) -> EdgeType {
    if s == "EDGE_CONFLICTS_WITH"@ {
        EdgeType::EdgeConflictsWith
    } else if s == "EDGE_SUPERSEDES"@ {
        EdgeType::EdgeSupersedes
    } else if s == "EDGE_PROVENANCE"@ {
        EdgeType::EdgeProvenance
    } else if s == "EDGE_SAME_ENTITY"@ {
        EdgeType::EdgeSameEntity
    } else {
        EdgeType::Unspecified
    }
}

/// The wire number of a named edge type, or the failure for another name.
pub open spec fn parse_edge_spec(s: Seq<char>) -> Result<i32, Seq<char>> {
    if edge_by_name(s) == EdgeType::Unspecified {
        Err("unsupported edge type: "@ + s)
    } else {
        Ok(edge_type_number(edge_by_name(s)))
    }
}

/// The wire number of a named edge type.
pub fn parse_edge_type(s: &str) -> (r: Result<i32, String>)
    ensures
        match r {
            Ok(n) => parse_edge_spec(s@) == Ok::<i32, Seq<char>>(n),
            Err(e) => parse_edge_spec(s@) == Err::<i32, Seq<char>>(e@),
        },
{
    let edge = if str_eq(s, "EDGE_CONFLICTS_WITH") {
        EdgeType::EdgeConflictsWith
    } else if str_eq(s, "EDGE_SUPERSEDES") {
        EdgeType::EdgeSupersedes
    } else if str_eq(s, "EDGE_PROVENANCE") {
        EdgeType::EdgeProvenance
    } else if str_eq(s, "EDGE_SAME_ENTITY") {
        EdgeType::EdgeSameEntity
    } else {
        EdgeType::Unspecified
    };
    if edge == EdgeType::Unspecified {
        Err(concat2("unsupported edge type: ", s))
    } else {
        Ok(edge.number())
    }
}

/// The assertion type a protocol name denotes, `Unspecified` for any other name.
pub open spec fn assertion_by_name(s: Seq<char>) -> AssertionType {
    if s == "ASSERT_USER_PREFERENCE"@ {
        AssertionType::AssertUserPreference
    } else if s == "ASSERT_WORLD_FACT"@ {
        AssertionType::AssertWorldFact
    } else if s == "ASSERT_DECISION"@ {
        AssertionType::AssertDecision
    } else if s == "ASSERT_PROCEDURE"@ {
        AssertionType::AssertProcedure
    } else if s == "ASSERT_CONFLICT_EXPLANATION"@ {
        AssertionType::AssertConflictExplanation
    } else {
        AssertionType::Unspecified
    }
}

/// The wire number of a named assertion type, or the failure for another name.
pub open spec fn parse_assertion_spec(s: Seq<char>) -> Result<i32, Seq<char>> {
    if assertion_by_name(s) == AssertionType::Unspecified {
        Err("unsupported assertion type: "@ + s)
    } else {
        Ok(assertion_type_number(assertion_by_name(s)))
    }
}

/// The wire number of a named assertion type.
pub fn parse_assertion_type(s: &str) -> (r: Result<i32, String>)
    ensures
        match r {
            Ok(n) => parse_assertion_spec(s@) == Ok::<i32, Seq<char>>(n),
            Err(e) => parse_assertion_spec(s@) == Err::<i32, Seq<char>>(e@),
        },
{
    let at = if str_eq(s, "ASSERT_USER_PREFERENCE") {
        AssertionType::AssertUserPreference
    } else if str_eq(s, "ASSERT_WORLD_FACT") {
        AssertionType::AssertWorldFact
    } else if str_eq(s, "ASSERT_DECISION") {
        AssertionType::AssertDecision
    } else if str_eq(s, "ASSERT_PROCEDURE") {
        AssertionType::AssertProcedure
    } else if str_eq(s, "ASSERT_CONFLICT_EXPLANATION") {
        AssertionType::AssertConflictExplanation
    } else {
        AssertionType::Unspecified
    };
    if at == AssertionType::Unspecified {
        Err(concat2("unsupported assertion type: ", s))
    } else {
        Ok(at.number())
    }
}

// ----------------------------------------------------------------------
// Values and parameter maps
// ----------------------------------------------------------------------

/// The JSON value a reference points to.
pub open spec fn deref_opt(v: Option<&Json>) -> Option<Json> {
    match v {
        Some(x) => Some(*x),
        None => None,
    }
}

/// The boolean held by a value.
pub open spec fn bool_of(j: Option<Json>) -> Option<bool> {
    match j {
        Some(Json::Bool(b)) => Some(b),
        _ => None,
    }
}

/// The `i64` a value holds.
pub open spec fn int_of(j: Option<Json>) -> Option<i64> {
    match j {
        Some(Json::Number(n)) => n.int,
        _ => None,
    }
}

/// The `f64` a value holds.
pub open spec fn float_of(j: Option<Json>) -> Option<Float64View> {
    match j {
        Some(Json::Number(n)) => Some(n.float@),
        _ => None,
    }
}

/// The protocol value a JSON value denotes: a tagged object `{s}`, `{b}`,
/// `{i64}`, `{f64}` or `{e}` (tags tried in that order), or a bare string,
/// boolean, integer or other number.
pub open spec fn json_value_spec(v: Json) -> Option<ValueView> {
    let tagged = match v {
        Json::Object(o) => if str_of(obj_get(o@, "s"@)) is Some {
            Some(ValueKindView::S(str_of(obj_get(o@, "s"@))->Some_0))
        } else if bool_of(obj_get(o@, "b"@)) is Some {
            Some(ValueKindView::B(bool_of(obj_get(o@, "b"@))->Some_0))
        } else if int_of(obj_get(o@, "i64"@)) is Some {
            Some(ValueKindView::I64(int_of(obj_get(o@, "i64"@))->Some_0))
        } else if float_of(obj_get(o@, "f64"@)) is Some {
            Some(ValueKindView::F64(float_of(obj_get(o@, "f64"@))->Some_0))
        } else if str_of(obj_get(o@, "e"@)) is Some {
            Some(ValueKindView::E(str_of(obj_get(o@, "e"@))->Some_0))
        } else {
            None
        },
        _ => None,
    };
    let bare = match v {
        Json::Str(s) => Some(ValueKindView::S(s@)),
        Json::Bool(b) => Some(ValueKindView::B(b)),
        Json::Number(n) => match n.int {
            Some(i) => Some(ValueKindView::I64(i)),
            None => Some(ValueKindView::F64(n.float@)),
        },
        _ => None,
    };
    match tagged {
        Some(k) => Some(ValueView { v: Some(k) }),
        None => match bare {
            Some(k) => Some(ValueView { v: Some(k) }),
            None => None,
        },
    }
}

/// The protocol value a JSON value denotes (see [`json_value_spec`]).
pub fn json_to_rmvm_value(v: &Json) -> (r: Option<Value>)
    ensures
        match r {
            Some(x) => json_value_spec(*v) == Some(x@),
            None => json_value_spec(*v) is None,
        },
{
    if let Json::Object(o) = v {
        if let Some(Json::Str(s)) = obj_get_exec(o, "s") {
            return Some(Value { v: Some(ValueKind::S(owned(s.as_str()))) });
        }
        if let Some(Json::Bool(b)) = obj_get_exec(o, "b") {
            return Some(Value { v: Some(ValueKind::B(*b)) });
        }
        if let Some(Json::Number(n)) = obj_get_exec(o, "i64") {
            if let Some(i) = n.int {
                return Some(Value { v: Some(ValueKind::I64(i)) });
            }
        }
        if let Some(Json::Number(n)) = obj_get_exec(o, "f64") {
            return Some(Value { v: Some(ValueKind::F64(n.float.clone())) });
        }
        if let Some(Json::Str(e)) = obj_get_exec(o, "e") {
            return Some(Value { v: Some(ValueKind::E(owned(e.as_str()))) });
        }
        return None;
    }
    match v {
        Json::Str(s) => Some(Value { v: Some(ValueKind::S(owned(s.as_str()))) }),
        Json::Bool(b) => Some(Value { v: Some(ValueKind::B(*b)) }),
        Json::Number(n) => match n.int {
            Some(i) => Some(Value { v: Some(ValueKind::I64(i)) }),
            None => Some(Value { v: Some(ValueKind::F64(n.float.clone())) }),
        },
        _ => None,
    }
}

/// The parameters of an object: each entry whose value denotes a protocol
/// value, set in entry order.
pub open spec fn param_entries(o: Seq<(String, Json)>) -> Seq<(Seq<char>, ValueView)>
    decreases o.len(),
{
    if o.len() == 0 {
        Seq::empty()
    } else {
        let prev = param_entries(o.drop_last());
        match json_value_spec(o.last().1) {
            Some(x) => smap_insert(prev, o.last().0@, x),
            None => prev,
        }
    }
}

/// The parameter map under a key: empty unless the value is an object.
pub open spec fn param_map_spec(v: Option<Json>) -> Seq<(Seq<char>, ValueView)> {
    match v {
        Some(Json::Object(o)) => param_entries(o@),
        _ => Seq::empty(),
    }
}

/// The parameter map under a key (see [`param_map_spec`]).
pub fn parse_param_map(v: Option<&Json>) -> (r: StrMap<Value>)
    ensures
        r@ == param_map_spec(deref_opt(v)),
{
    let mut out: StrMap<Value> = StrMap::new();
    if let Some(Json::Object(o)) = v {
        let mut i: usize = 0;
        while i < o.len()
            invariant
                i <= o.len(),
                out@ == param_entries(o@.take(i as int)),
            decreases o.len() - i,
        {
            proof {
                assert(o@.take(i + 1).drop_last() =~= o@.take(i as int));
            }
            match json_to_rmvm_value(&o[i].1) {
                Some(x) => {
                    out.insert(owned(o[i].0.as_str()), x);
                },
                None => {},
            }
            i += 1;
        }
        assert(o@.take(o.len() as int) =~= o@);
    }
    out
}

// ----------------------------------------------------------------------
// ASSERT
// ----------------------------------------------------------------------

/// The bindings of an ASSERT, entry by entry; the first bad entry decides.
pub open spec fn bindings_spec(b: Seq<(String, Json)>) -> Result<Seq<(Seq<char>, ValueRefView)>, Seq<char>>
    decreases b.len(),
{
    if b.len() == 0 {
        Ok(Seq::empty())
    } else {
        match bindings_spec(b.drop_last()) {
            Err(e) => Err(e),
            Ok(prev) => match b.last().1 {
                Json::Object(e) => match get_string(e@, seq!["reg"@]) {
                    None => Err("binding.reg missing"@),
                    Some(reg) => match get_string(e@, seq!["fieldPath"@, "field_path"@]) {
                        None => Err("binding.fieldPath missing"@),
                        Some(fp) => Ok(
                            smap_insert(prev, b.last().0@, ValueRefView { reg, field_path: fp }),
                        ),
                    },
                },
                _ => Err("assert binding entries must be objects"@),
            },
        }
    }
}

/// The citations of an ASSERT: handle citations, else anchor citations;
/// entries with neither are skipped, entries that are not objects fail.
pub open spec fn citations_entries(cs: Seq<Json>) -> Result<Seq<CitationRefView>, Seq<char>>
    decreases cs.len(),
{
    if cs.len() == 0 {
        Ok(Seq::empty())
    } else {
        match citations_entries(cs.drop_last()) {
            Err(e) => Err(e),
            Ok(prev) => match cs.last() {
                Json::Object(c) => match get_string(c@, seq!["handleRef"@, "handle_ref"@]) {
                    Some(h) => Ok(prev.push(CitationRefView { cite: Some(CiteView::HandleRef(h)) })),
                    None => match get_string(c@, seq!["anchorRef"@, "anchor_ref"@]) {
                        Some(a) => Ok(
                            prev.push(CitationRefView { cite: Some(CiteView::AnchorRef(a)) }),
                        ),
                        None => Ok(prev),
                    },
                },
                _ => Err("citation entries must be objects"@),
            },
        }
    }
}

/// An ASSERT from its parts: the assertion type name, the bindings value
/// (treated as an empty object when absent and `absent_empty` holds) and the
/// citations value (ignored unless it is an array).
pub open spec fn assert_parts_spec(
    at: Option<Seq<char>>,
    bindings: Option<Json>,
    absent_empty: bool,
    citations: Option<Json>,
) -> Result<OpView, Seq<char>> {
    match at {
        None => Err("assert.assertionType is required"@),
        Some(name) => match parse_assertion_spec(name) {
            Err(e) => Err(e),
            Ok(t) => {
                let bs = match bindings {
                    Some(Json::Object(b)) => bindings_spec(b@),
                    None => if absent_empty {
                        Ok(Seq::empty())
                    } else {
                        Err("assert.bindings must be an object"@)
                    },
                    _ => Err("assert.bindings must be an object"@),
                };
                match bs {
                    Err(e) => Err(e),
                    Ok(b) => {
                        let cs = match citations {
                            Some(Json::Array(a)) => citations_entries(a@),
                            _ => Ok(Seq::empty()),
                        };
                        match cs {
                            Err(e) => Err(e),
                            Ok(c) => Ok(
                                OpView::AssertOp(
                                    OpAssertView { assertion_type: t, bindings: b, citations: c },
                                ),
                            ),
                        }
                    },
                }
            },
        },
    }
}

fn parse_bindings(b: &Vec<(String, Json)>) -> (r: Result<StrMap<ValueRef>, String>)
    ensures
        match r {
            Ok(m) => bindings_spec(b@) == Ok::<Seq<(Seq<char>, ValueRefView)>, Seq<char>>(m@),
            Err(e) => bindings_spec(b@) == Err::<Seq<(Seq<char>, ValueRefView)>, Seq<char>>(e@),
        },
{
    let mut out: StrMap<ValueRef> = StrMap::new();
    let mut i: usize = 0;
    while i < b.len()
        invariant
            i <= b.len(),
            bindings_spec(b@.take(i as int)) == Ok::<Seq<(Seq<char>, ValueRefView)>, Seq<char>>(
                out@,
            ),
        decreases b.len() - i,
    {
        proof {
            assert(b@.take(i + 1).drop_last() =~= b@.take(i as int));
            assert(b@.take(i + 1).last() == b@[i as int]);
        }
        let e = match &b[i].1 {
            Json::Object(e) => e,
            _ => {
                proof {
                    lemma_bindings_prefix(b@, i + 1);
                }
                return Err(owned("assert binding entries must be objects"));
            },
        };
        let reg = match get_string1(e, "reg") {
            Some(r) => r,
            None => {
                proof {
                    lemma_bindings_prefix(b@, i + 1);
                }
                return Err(owned("binding.reg missing"));
            },
        };
        let field_path = match get_string2(e, "fieldPath", "field_path") {
            Some(f) => f,
            None => {
                proof {
                    lemma_bindings_prefix(b@, i + 1);
                }
                return Err(owned("binding.fieldPath missing"));
            },
        };
        out.insert(owned(b[i].0.as_str()), ValueRef { reg, field_path });
        i += 1;
    }
    assert(b@.take(b.len() as int) =~= b@);
    Ok(out)
}

proof fn lemma_bindings_prefix(b: Seq<(String, Json)>, k: int)
    requires
        0 <= k <= b.len(),
        bindings_spec(b.take(k)) is Err,
    ensures
        bindings_spec(b) == bindings_spec(b.take(k)),
    decreases b.len(),
{
    if k == b.len() {
        assert(b.take(k) =~= b);
    } else {
        assert(b.drop_last().take(k) =~= b.take(k));
        lemma_bindings_prefix(b.drop_last(), k);
    }
}

proof fn lemma_citations_prefix(cs: Seq<Json>, k: int)
    requires
        0 <= k <= cs.len(),
        citations_entries(cs.take(k)) is Err,
    ensures
        citations_entries(cs) == citations_entries(cs.take(k)),
    decreases cs.len(),
{
    if k == cs.len() {
        assert(cs.take(k) =~= cs);
    } else {
        assert(cs.drop_last().take(k) =~= cs.take(k));
        lemma_citations_prefix(cs.drop_last(), k);
    }
}

fn parse_citations(cs: &Vec<Json>) -> (r: Result<Vec<CitationRef>, String>)
    ensures
        match r {
            Ok(v) => citations_entries(cs@) == Ok::<Seq<CitationRefView>, Seq<char>>(
                v@.map_values(|c: CitationRef| c@),
            ),
            Err(e) => citations_entries(cs@) == Err::<Seq<CitationRefView>, Seq<char>>(e@),
        },
{
    let mut out: Vec<CitationRef> = Vec::new();
    let mut i: usize = 0;
    assert(cs@.take(0) =~= Seq::<Json>::empty());
    assert(out@.map_values(|c: CitationRef| c@) =~= Seq::<CitationRefView>::empty());
    while i < cs.len()
        invariant
            i <= cs.len(),
            citations_entries(cs@.take(i as int)) == Ok::<Seq<CitationRefView>, Seq<char>>(
                out@.map_values(|c: CitationRef| c@),
            ),
        decreases cs.len() - i,
    {
        proof {
            assert(cs@.take(i + 1).drop_last() =~= cs@.take(i as int));
            assert(cs@.take(i + 1).last() == cs@[i as int]);
        }
        let c = match &cs[i] {
            Json::Object(c) => c,
            _ => {
                proof {
                    lemma_citations_prefix(cs@, i + 1);
                }
                return Err(owned("citation entries must be objects"));
            },
        };
        let ghost before = out@;
        match get_string2(c, "handleRef", "handle_ref") {
            Some(h) => {
                out.push(CitationRef { cite: Some(Cite::HandleRef(h)) });
            },
            None => match get_string2(c, "anchorRef", "anchor_ref") {
                Some(a) => {
                    out.push(CitationRef { cite: Some(Cite::AnchorRef(a)) });
                },
                None => {},
            },
        }
        proof {
            if out@.len() > before.len() {
                assert(out@.map_values(|c: CitationRef| c@) =~= before.map_values(
                    |c: CitationRef| c@,
                ).push(out@.last()@));
            }
        }
        i += 1;
    }
    assert(cs@.take(cs.len() as int) =~= cs@);
    Ok(out)
}

/// An ASSERT from its parts (see [`assert_parts_spec`]).
fn parse_assert_parts(
    at: Option<String>,
    bindings: Option<&Json>,
    absent_empty: bool,
    citations: Option<&Json>,
) -> (r: Result<Op, String>)
    ensures
        match r {
            Ok(op) => assert_parts_spec(
                match at {
                    Some(s) => Some(s@),
                    None => None,
                },
                deref_opt(bindings),
                absent_empty,
                deref_opt(citations),
            ) == Ok::<OpView, Seq<char>>(op@),
            Err(e) => assert_parts_spec(
                match at {
                    Some(s) => Some(s@),
                    None => None,
                },
                deref_opt(bindings),
                absent_empty,
                deref_opt(citations),
            ) == Err::<OpView, Seq<char>>(e@),
        },
{
    let name = match at {
        Some(s) => s,
        None => {
            return Err(owned("assert.assertionType is required"));
        },
    };
    let assertion_type = match parse_assertion_type(name.as_str()) {
        Ok(t) => t,
        Err(e) => {
            return Err(e);
        },
    };
    let bindings = match bindings {
        Some(Json::Object(b)) => match parse_bindings(b) {
            Ok(m) => m,
            Err(e) => {
                return Err(e);
            },
        },
        None => {
            if absent_empty {
                StrMap::new()
            } else {
                return Err(owned("assert.bindings must be an object"));
            }
        },
        _ => {
            return Err(owned("assert.bindings must be an object"));
        },
    };
    let citations = match citations {
        Some(Json::Array(a)) => match parse_citations(a) {
            Ok(c) => c,
            Err(e) => {
                return Err(e);
            },
        },
        _ => {
            let v: Vec<CitationRef> = Vec::new();
            assert(v@.map_values(|c: CitationRef| c@) =~= Seq::<CitationRefView>::empty());
            v
        },
    };
    Ok(Op::AssertOp(OpAssert { assertion_type, bindings, citations }))
}

// ----------------------------------------------------------------------
// Operations
// ----------------------------------------------------------------------

/// The strings among some JSON values, in order.
pub open spec fn strings_of(a: Seq<Json>) -> Seq<Seq<char>>
    decreases a.len(),
{
    if a.len() == 0 {
        Seq::empty()
    } else {
        match a.last() {
            Json::Str(s) => strings_of(a.drop_last()).push(s@),
            _ => strings_of(a.drop_last()),
        }
    }
}

fn strings_of_exec(a: &Vec<Json>) -> (out: Vec<String>)
    ensures
        out@.map_values(|s: String| s@) == strings_of(a@),
{
    let mut out: Vec<String> = Vec::new();
    let mut i: usize = 0;
    assert(out@.map_values(|s: String| s@) =~= strings_of(a@.take(0)));
    while i < a.len()
        invariant
            i <= a.len(),
            out@.map_values(|s: String| s@) == strings_of(a@.take(i as int)),
        decreases a.len() - i,
    {
        proof {
            assert(a@.take(i + 1).drop_last() =~= a@.take(i as int));
            assert(a@.take(i + 1).last() == a@[i as int]);
        }
        let ghost before = out@;
        match &a[i] {
            Json::Str(s) => {
                out.push(owned(s.as_str()));
                assert(out@.map_values(|s: String| s@) =~= before.map_values(|s: String| s@).push(
                    s@,
                ));
            },
            _ => {},
        }
        i += 1;
    }
    assert(a@.take(a.len() as int) =~= a@);
    out
}

/// The first of two optional values that is present.
pub open spec fn first_present(a: Option<Json>, b: Option<Json>) -> Option<Json> {
    match a {
        Some(x) => Some(x),
        None => b,
    }
}

/// The field paths of a PROJECT: the strings of the array, or the failure.
pub open spec fn field_paths_spec(v: Option<Json>, missing: Seq<char>) -> Result<Seq<Seq<char>>, Seq<char>> {
    match v {
        Some(Json::Array(a)) => Ok(strings_of(a@)),
        _ => Err(missing),
    }
}

/// An operation in the `{kind, ...}` shape.
pub open spec fn unified_kind_spec(o: Seq<(String, Json)>, kind: Seq<char>) -> Result<OpView, Seq<char>> {
    if kind == "fetch"@ {
        match get_string(o, seq!["handleRef"@, "handle_ref"@]) {
            None => Err("fetch.handleRef is required"@),
            Some(h) => Ok(OpView::Fetch(OpFetchView { handle_ref: h })),
        }
    } else if kind == "applySelector"@ {
        match get_string(o, seq!["selectorRef"@, "selector_ref"@]) {
            None => Err("applySelector.selectorRef is required"@),
            Some(s) => Ok(
                OpView::ApplySelector(
                    OpApplySelectorView {
                        selector_ref: s,
                        params: param_map_spec(obj_get(o, "params"@)),
                    },
                ),
            ),
        }
    } else if kind == "resolve"@ {
        match get_string(o, seq!["inReg"@, "in_reg"@]) {
            None => Err("resolve.inReg is required"@),
            Some(r) => Ok(
                OpView::Resolve(
                    OpResolveView {
                        in_reg: r,
                        policy_id: match get_string(o, seq!["policyId"@, "policy_id"@]) {
                            Some(p) => p,
                            None => Seq::empty(),
                        },
                    },
                ),
            ),
        }
    } else if kind == "filter"@ {
        match get_string(o, seq!["inReg"@, "in_reg"@]) {
            None => Err("filter.inReg is required"@),
            Some(r) => match get_string(o, seq!["filterRef"@, "filter_ref"@]) {
                None => Err("filter.filterRef is required"@),
                Some(f) => Ok(
                    OpView::Filter(
                        OpFilterView {
                            in_reg: r,
                            filter_ref: f,
                            params: param_map_spec(obj_get(o, "params"@)),
                        },
                    ),
                ),
            },
        }
    } else if kind == "join"@ {
        match get_string(o, seq!["leftReg"@, "left_reg"@]) {
            None => Err("join.leftReg is required"@),
            Some(l) => match get_string(o, seq!["rightReg"@, "right_reg"@]) {
                None => Err("join.rightReg is required"@),
                Some(r) => match get_string(o, seq!["edgeType"@, "edge_type"@]) {
                    None => Err("join.edgeType is required"@),
                    Some(e) => match parse_edge_spec(e) {
                        Err(m) => Err(m),
                        Ok(t) => Ok(OpView::Join(OpJoinView { left_reg: l, right_reg: r, edge_type: t })),
                    },
                },
            },
        }
    } else if kind == "project"@ {
        match get_string(o, seq!["inReg"@, "in_reg"@]) {
            None => Err("project.inReg is required"@),
            Some(r) => match field_paths_spec(
                first_present(obj_get(o, "fieldPaths"@), obj_get(o, "field_paths"@)),
                "project.fieldPaths must be an array"@,
            ) {
                Err(m) => Err(m),
                Ok(fp) => Ok(OpView::Project(OpProjectView { in_reg: r, field_paths: fp })),
            },
        }
    } else if kind == "assert"@ {
        assert_parts_spec(
            get_string(o, seq!["assertionType"@, "assertion_type"@]),
            obj_get(o, "bindings"@),
            false,
            obj_get(o, "citations"@),
        )
    } else {
        Err("unsupported step.op.kind: "@ + kind)
    }
}

/// An operation in the `{kind, ...}` shape.
pub open spec fn unified_op_spec(v: Json) -> Result<OpView, Seq<char>> {
    match v {
        Json::Object(o) => match get_string(o@, seq!["kind"@]) {
            None => Err("step.op.kind is required"@),
            Some(kind) => unified_kind_spec(o@, kind),
        },
        _ => Err("step.op must be an object"@),
    }
}

/// An operation in the protocol shape, where the key names the operation.
pub open spec fn proto_op_spec(o: Seq<(String, Json)>) -> Result<OpView, Seq<char>> {
    if obj_get(o, "fetch"@) is Some {
        match obj_get(o, "fetch"@)->Some_0 {
            Json::Object(f) => match get_string(f@, seq!["handle_ref"@, "handleRef"@]) {
                None => Err("fetch.handle_ref missing"@),
                Some(h) => Ok(OpView::Fetch(OpFetchView { handle_ref: h })),
            },
            _ => Err("fetch must be object"@),
        }
    } else if obj_get(o, "apply_selector"@) is Some {
        match obj_get(o, "apply_selector"@)->Some_0 {
            Json::Object(a) => match get_string(a@, seq!["selector_ref"@, "selectorRef"@]) {
                None => Err("apply_selector.selector_ref missing"@),
                Some(s) => Ok(
                    OpView::ApplySelector(
                        OpApplySelectorView {
                            selector_ref: s,
                            params: param_map_spec(obj_get(a@, "params"@)),
                        },
                    ),
                ),
            },
            _ => Err("apply_selector must be object"@),
        }
    } else if obj_get(o, "resolve"@) is Some {
        match obj_get(o, "resolve"@)->Some_0 {
            Json::Object(r) => match get_string(r@, seq!["in_reg"@, "inReg"@]) {
                None => Err("resolve.in_reg missing"@),
                Some(i) => Ok(
                    OpView::Resolve(
                        OpResolveView {
                            in_reg: i,
                            policy_id: match get_string(r@, seq!["policy_id"@, "policyId"@]) {
                                Some(p) => p,
                                None => Seq::empty(),
                            },
                        },
                    ),
                ),
            },
            _ => Err("resolve must be object"@),
        }
    } else if obj_get(o, "filter"@) is Some {
        match obj_get(o, "filter"@)->Some_0 {
            Json::Object(f) => match get_string(f@, seq!["in_reg"@, "inReg"@]) {
                None => Err("filter.in_reg missing"@),
                Some(i) => match get_string(f@, seq!["filter_ref"@, "filterRef"@]) {
                    None => Err("filter.filter_ref missing"@),
                    Some(fr) => Ok(
                        OpView::Filter(
                            OpFilterView {
                                in_reg: i,
                                filter_ref: fr,
                                params: param_map_spec(obj_get(f@, "params"@)),
                            },
                        ),
                    ),
                },
            },
            _ => Err("filter must be object"@),
        }
    } else if obj_get(o, "join"@) is Some {
        match obj_get(o, "join"@)->Some_0 {
            Json::Object(j) => match get_string(j@, seq!["left_reg"@, "leftReg"@]) {
                None => Err("join.left_reg missing"@),
                Some(l) => match get_string(j@, seq!["right_reg"@, "rightReg"@]) {
                    None => Err("join.right_reg missing"@),
                    Some(r) => match get_string(j@, seq!["edge_type"@, "edgeType"@]) {
                        None => Err("join.edge_type missing"@),
                        Some(e) => match parse_edge_spec(e) {
                            Err(m) => Err(m),
                            Ok(t) => Ok(
                                OpView::Join(OpJoinView { left_reg: l, right_reg: r, edge_type: t }),
                            ),
                        },
                    },
                },
            },
            _ => Err("join must be object"@),
        }
    } else if obj_get(o, "project"@) is Some {
        match obj_get(o, "project"@)->Some_0 {
            Json::Object(p) => match get_string(p@, seq!["in_reg"@, "inReg"@]) {
                None => Err("project.in_reg missing"@),
                Some(i) => match field_paths_spec(
                    first_present(obj_get(p@, "field_paths"@), obj_get(p@, "fieldPaths"@)),
                    "project.field_paths missing"@,
                ) {
                    Err(m) => Err(m),
                    Ok(fp) => Ok(OpView::Project(OpProjectView { in_reg: i, field_paths: fp })),
                },
            },
            _ => Err("project must be object"@),
        }
    } else if obj_get(o, "assert_op"@) is Some {
        let vo = match obj_get(o, "assert_op"@)->Some_0 {
            Json::Object(a) => a@,
            _ => Seq::empty(),
        };
        assert_parts_spec(
            str_of(obj_get(vo, "assertion_type"@)),
            obj_get(vo, "bindings"@),
            true,
            obj_get(vo, "citations"@),
        )
    } else {
        Err("step missing supported operation"@)
    }
}

/// The field paths of a PROJECT.
fn field_paths_exec(v: Option<&Json>, missing: &str) -> (r: Result<Vec<String>, String>)
    ensures
        match r {
            Ok(fp) => field_paths_spec(deref_opt(v), missing@) == Ok::<Seq<Seq<char>>, Seq<char>>(
                fp@.map_values(|s: String| s@),
            ),
            Err(e) => field_paths_spec(deref_opt(v), missing@) == Err::<Seq<Seq<char>>, Seq<char>>(
                e@,
            ),
        },
{
    match v {
        Some(Json::Array(a)) => Ok(strings_of_exec(a)),
        _ => Err(owned(missing)),
    }
}

fn first_present_exec<'a>(a: Option<&'a Json>, b: Option<&'a Json>) -> (r: Option<&'a Json>)
    ensures
        deref_opt(r) == first_present(deref_opt(a), deref_opt(b)),
{
    match a {
        Some(x) => Some(x),
        None => b,
    }
}

/// An operation in the `{kind, ...}` shape (see [`unified_op_spec`]).
pub fn parse_unified_op(v: &Json) -> (r: Result<Op, String>)
    ensures
        match r {
            Ok(op) => unified_op_spec(*v) == Ok::<OpView, Seq<char>>(op@),
            Err(e) => unified_op_spec(*v) == Err::<OpView, Seq<char>>(e@),
        },
{
    let o = match v {
        Json::Object(o) => o,
        _ => {
            return Err(owned("step.op must be an object"));
        },
    };
    let kind = match get_string1(o, "kind") {
        Some(k) => k,
        None => {
            return Err(owned("step.op.kind is required"));
        },
    };
    let k = kind.as_str();
    if str_eq(k, "fetch") {
        match get_string2(o, "handleRef", "handle_ref") {
            None => Err(owned("fetch.handleRef is required")),
            Some(h) => Ok(Op::Fetch(OpFetch { handle_ref: h })),
        }
    } else if str_eq(k, "applySelector") {
        match get_string2(o, "selectorRef", "selector_ref") {
            None => Err(owned("applySelector.selectorRef is required")),
            Some(s) => Ok(
                Op::ApplySelector(
                    OpApplySelector { selector_ref: s, params: parse_param_map(obj_get_exec(o, "params")) },
                ),
            ),
        }
    } else if str_eq(k, "resolve") {
        match get_string2(o, "inReg", "in_reg") {
            None => Err(owned("resolve.inReg is required")),
            Some(r) => {
                let policy_id = match get_string2(o, "policyId", "policy_id") {
                    Some(p) => p,
                    None => String::new(),
                };
                Ok(Op::Resolve(OpResolve { in_reg: r, policy_id }))
            },
        }
    } else if str_eq(k, "filter") {
        match get_string2(o, "inReg", "in_reg") {
            None => Err(owned("filter.inReg is required")),
            Some(r) => match get_string2(o, "filterRef", "filter_ref") {
                None => Err(owned("filter.filterRef is required")),
                Some(f) => Ok(
                    Op::Filter(
                        OpFilter {
                            in_reg: r,
                            filter_ref: f,
                            params: parse_param_map(obj_get_exec(o, "params")),
                        },
                    ),
                ),
            },
        }
    } else if str_eq(k, "join") {
        match get_string2(o, "leftReg", "left_reg") {
            None => Err(owned("join.leftReg is required")),
            Some(l) => match get_string2(o, "rightReg", "right_reg") {
                None => Err(owned("join.rightReg is required")),
                Some(r) => match get_string2(o, "edgeType", "edge_type") {
                    None => Err(owned("join.edgeType is required")),
                    Some(e) => match parse_edge_type(e.as_str()) {
                        Err(m) => Err(m),
                        Ok(t) => Ok(Op::Join(OpJoin { left_reg: l, right_reg: r, edge_type: t })),
                    },
                },
            },
        }
    } else if str_eq(k, "project") {
        match get_string2(o, "inReg", "in_reg") {
            None => Err(owned("project.inReg is required")),
            Some(r) => match field_paths_exec(
                first_present_exec(obj_get_exec(o, "fieldPaths"), obj_get_exec(o, "field_paths")),
                "project.fieldPaths must be an array",
            ) {
                Err(m) => Err(m),
                Ok(fp) => Ok(Op::Project(OpProject { in_reg: r, field_paths: fp })),
            },
        }
    } else if str_eq(k, "assert") {
        parse_assert_parts(
            get_string2(o, "assertionType", "assertion_type"),
            obj_get_exec(o, "bindings"),
            false,
            obj_get_exec(o, "citations"),
        )
    } else {
        Err(concat2("unsupported step.op.kind: ", k))
    }
}

/// An operation in the protocol shape (see [`proto_op_spec`]).
pub fn parse_proto_style_op(o: &Vec<(String, Json)>) -> (r: Result<Op, String>)
    ensures
        match r {
            Ok(op) => proto_op_spec(o@) == Ok::<OpView, Seq<char>>(op@),
            Err(e) => proto_op_spec(o@) == Err::<OpView, Seq<char>>(e@),
        },
{
    if let Some(v) = obj_get_exec(o, "fetch") {
        return match v {
            Json::Object(f) => match get_string2(f, "handle_ref", "handleRef") {
                None => Err(owned("fetch.handle_ref missing")),
                Some(h) => Ok(Op::Fetch(OpFetch { handle_ref: h })),
            },
            _ => Err(owned("fetch must be object")),
        };
    }
    if let Some(v) = obj_get_exec(o, "apply_selector") {
        return match v {
            Json::Object(a) => match get_string2(a, "selector_ref", "selectorRef") {
                None => Err(owned("apply_selector.selector_ref missing")),
                Some(s) => Ok(
                    Op::ApplySelector(
                        OpApplySelector { selector_ref: s, params: parse_param_map(obj_get_exec(a, "params")) },
                    ),
                ),
            },
            _ => Err(owned("apply_selector must be object")),
        };
    }
    if let Some(v) = obj_get_exec(o, "resolve") {
        return match v {
            Json::Object(r) => match get_string2(r, "in_reg", "inReg") {
                None => Err(owned("resolve.in_reg missing")),
                Some(i) => {
                    let policy_id = match get_string2(r, "policy_id", "policyId") {
                        Some(p) => p,
                        None => String::new(),
                    };
                    Ok(Op::Resolve(OpResolve { in_reg: i, policy_id }))
                },
            },
            _ => Err(owned("resolve must be object")),
        };
    }
    if let Some(v) = obj_get_exec(o, "filter") {
        return match v {
            Json::Object(f) => match get_string2(f, "in_reg", "inReg") {
                None => Err(owned("filter.in_reg missing")),
                Some(i) => match get_string2(f, "filter_ref", "filterRef") {
                    None => Err(owned("filter.filter_ref missing")),
                    Some(fr) => Ok(
                        Op::Filter(
                            OpFilter {
                                in_reg: i,
                                filter_ref: fr,
                                params: parse_param_map(obj_get_exec(f, "params")),
                            },
                        ),
                    ),
                },
            },
            _ => Err(owned("filter must be object")),
        };
    }
    if let Some(v) = obj_get_exec(o, "join") {
        return match v {
            Json::Object(j) => match get_string2(j, "left_reg", "leftReg") {
                None => Err(owned("join.left_reg missing")),
                Some(l) => match get_string2(j, "right_reg", "rightReg") {
                    None => Err(owned("join.right_reg missing")),
                    Some(r) => match get_string2(j, "edge_type", "edgeType") {
                        None => Err(owned("join.edge_type missing")),
                        Some(e) => match parse_edge_type(e.as_str()) {
                            Err(m) => Err(m),
                            Ok(t) => Ok(Op::Join(OpJoin { left_reg: l, right_reg: r, edge_type: t })),
                        },
                    },
                },
            },
            _ => Err(owned("join must be object")),
        };
    }
    if let Some(v) = obj_get_exec(o, "project") {
        return match v {
            Json::Object(p) => match get_string2(p, "in_reg", "inReg") {
                None => Err(owned("project.in_reg missing")),
                Some(i) => match field_paths_exec(
                    first_present_exec(obj_get_exec(p, "field_paths"), obj_get_exec(p, "fieldPaths")),
                    "project.field_paths missing",
                ) {
                    Err(m) => Err(m),
                    Ok(fp) => Ok(Op::Project(OpProject { in_reg: i, field_paths: fp })),
                },
            },
            _ => Err(owned("project must be object")),
        };
    }
    if let Some(v) = obj_get_exec(o, "assert_op") {
        return match v {
            Json::Object(a) => {
                let at = match obj_get_exec(a, "assertion_type") {
                    Some(Json::Str(s)) => Some(owned(s.as_str())),
                    _ => None,
                };
                parse_assert_parts(at, obj_get_exec(a, "bindings"), true, obj_get_exec(a, "citations"))
            },
            _ => {
                proof {
                    assert(str_of(obj_get(Seq::<(String, Json)>::empty(), "assertion_type"@)) is None);
                    assert(obj_get(Seq::<(String, Json)>::empty(), "bindings"@) is None);
                    assert(obj_get(Seq::<(String, Json)>::empty(), "citations"@) is None);
                }
                parse_assert_parts(None, None, true, None)
            },
        };
    }
    Err(owned("step missing supported operation"))
}

// ----------------------------------------------------------------------
// Plans
// ----------------------------------------------------------------------

/// The outputs of a plan, entry by entry: a register name, or an object with
/// a `reg`.
pub open spec fn outputs_entries(a: Seq<Json>) -> Result<Seq<OutputSpecView>, Seq<char>>
    decreases a.len(),
{
    if a.len() == 0 {
        Ok(Seq::empty())
    } else {
        match outputs_entries(a.drop_last()) {
            Err(e) => Err(e),
            Ok(prev) => match a.last() {
                Json::Str(s) => Ok(prev.push(OutputSpecView { reg: s@ })),
                Json::Object(o) => match get_string(o@, seq!["reg"@]) {
                    None => Err("output missing reg"@),
                    Some(r) => Ok(prev.push(OutputSpecView { reg: r })),
                },
                _ => Err("plan.outputs entries must be strings or objects"@),
            },
        }
    }
}

/// The steps of a plan, entry by entry; a step with an `op` key is in the
/// `{kind, ...}` shape, any other in the protocol shape.
pub open spec fn steps_entries(a: Seq<Json>) -> Result<Seq<StepView>, Seq<char>>
    decreases a.len(),
{
    if a.len() == 0 {
        Ok(Seq::empty())
    } else {
        match steps_entries(a.drop_last()) {
            Err(e) => Err(e),
            Ok(prev) => match a.last() {
                Json::Object(so) => match get_string(so@, seq!["out"@]) {
                    None => Err("plan step missing out"@),
                    Some(out) => {
                        let op = match obj_get(so@, "op"@) {
                            Some(u) => unified_op_spec(u),
                            None => proto_op_spec(so@),
                        };
                        match op {
                            Err(e) => Err(e),
                            Ok(op) => Ok(prev.push(StepView { out, op: Some(op) })),
                        }
                    },
                },
                _ => Err("plan.steps entries must be objects"@),
            },
        }
    }
}

/// The plan a JSON document describes; its request id defaults to `fallback`.
pub open spec fn plan_json_spec(root: Json, fallback: Seq<char>) -> Result<RmvmPlanView, Seq<char>> {
    match root {
        Json::Object(o) => {
            let request_id = match get_string(o@, seq!["requestId"@, "request_id"@]) {
                Some(r) => r,
                None => fallback,
            };
            match obj_get(o@, "steps"@) {
                Some(Json::Array(sv)) => match steps_entries(sv@) {
                    Err(e) => Err(e),
                    Ok(steps) => match obj_get(o@, "outputs"@) {
                        Some(Json::Array(ov)) => match outputs_entries(ov@) {
                            Err(e) => Err(e),
                            Ok(outputs) => Ok(RmvmPlanView { request_id, steps, outputs }),
                        },
                        _ => Err("plan.outputs must be an array"@),
                    },
                },
                _ => Err("plan.steps must be an array"@),
            }
        },
        _ => Err("plan root must be an object"@),
    }
}

proof fn lemma_outputs_prefix(a: Seq<Json>, k: int)
    requires
        0 <= k <= a.len(),
        outputs_entries(a.take(k)) is Err,
    ensures
        outputs_entries(a) == outputs_entries(a.take(k)),
    decreases a.len(),
{
    if k == a.len() {
        assert(a.take(k) =~= a);
    } else {
        assert(a.drop_last().take(k) =~= a.take(k));
        lemma_outputs_prefix(a.drop_last(), k);
    }
}

proof fn lemma_steps_prefix(a: Seq<Json>, k: int)
    requires
        0 <= k <= a.len(),
        steps_entries(a.take(k)) is Err,
    ensures
        steps_entries(a) == steps_entries(a.take(k)),
    decreases a.len(),
{
    if k == a.len() {
        assert(a.take(k) =~= a);
    } else {
        assert(a.drop_last().take(k) =~= a.take(k));
        lemma_steps_prefix(a.drop_last(), k);
    }
}

fn parse_outputs(a: &Vec<Json>) -> (r: Result<Vec<OutputSpec>, String>)
    ensures
        match r {
            Ok(v) => outputs_entries(a@) == Ok::<Seq<OutputSpecView>, Seq<char>>(
                v@.map_values(|x: OutputSpec| x@),
            ),
            Err(e) => outputs_entries(a@) == Err::<Seq<OutputSpecView>, Seq<char>>(e@),
        },
{
    let mut out: Vec<OutputSpec> = Vec::new();
    let mut i: usize = 0;
    assert(a@.take(0) =~= Seq::<Json>::empty());
    assert(out@.map_values(|x: OutputSpec| x@) =~= Seq::<OutputSpecView>::empty());
    while i < a.len()
        invariant
            i <= a.len(),
            outputs_entries(a@.take(i as int)) == Ok::<Seq<OutputSpecView>, Seq<char>>(
                out@.map_values(|x: OutputSpec| x@),
            ),
        decreases a.len() - i,
    {
        proof {
            assert(a@.take(i + 1).drop_last() =~= a@.take(i as int));
            assert(a@.take(i + 1).last() == a@[i as int]);
        }
        let reg = match &a[i] {
            Json::Str(s) => owned(s.as_str()),
            Json::Object(o) => match get_string1(o, "reg") {
                Some(r) => r,
                None => {
                    proof {
                        lemma_outputs_prefix(a@, i + 1);
                    }
                    return Err(owned("output missing reg"));
                },
            },
            _ => {
                proof {
                    lemma_outputs_prefix(a@, i + 1);
                }
                return Err(owned("plan.outputs entries must be strings or objects"));
            },
        };
        let ghost before = out@;
        out.push(OutputSpec { reg });
        assert(out@.map_values(|x: OutputSpec| x@) =~= before.map_values(|x: OutputSpec| x@).push(
            OutputSpecView { reg: reg@ },
        ));
        i += 1;
    }
    assert(a@.take(a.len() as int) =~= a@);
    Ok(out)
}

fn parse_steps(a: &Vec<Json>) -> (r: Result<Vec<Step>, String>)
    ensures
        match r {
            Ok(v) => steps_entries(a@) == Ok::<Seq<StepView>, Seq<char>>(
                v@.map_values(|x: Step| x@),
            ),
            Err(e) => steps_entries(a@) == Err::<Seq<StepView>, Seq<char>>(e@),
        },
{
    let mut out: Vec<Step> = Vec::new();
    let mut i: usize = 0;
    assert(a@.take(0) =~= Seq::<Json>::empty());
    assert(out@.map_values(|x: Step| x@) =~= Seq::<StepView>::empty());
    while i < a.len()
        invariant
            i <= a.len(),
            steps_entries(a@.take(i as int)) == Ok::<Seq<StepView>, Seq<char>>(
                out@.map_values(|x: Step| x@),
            ),
        decreases a.len() - i,
    {
        proof {
            assert(a@.take(i + 1).drop_last() =~= a@.take(i as int));
            assert(a@.take(i + 1).last() == a@[i as int]);
        }
        let so = match &a[i] {
            Json::Object(so) => so,
            _ => {
                proof {
                    lemma_steps_prefix(a@, i + 1);
                }
                return Err(owned("plan.steps entries must be objects"));
            },
        };
        let out_reg = match get_string1(so, "out") {
            Some(r) => r,
            None => {
                proof {
                    lemma_steps_prefix(a@, i + 1);
                }
                return Err(owned("plan step missing out"));
            },
        };
        let op = match obj_get_exec(so, "op") {
            Some(u) => parse_unified_op(u),
            None => parse_proto_style_op(so),
        };
        let op = match op {
            Ok(op) => op,
            Err(e) => {
                proof {
                    lemma_steps_prefix(a@, i + 1);
                }
                return Err(e);
            },
        };
        let ghost before = out@;
        let ghost opv = op@;
        out.push(Step { out: out_reg, op: Some(op) });
        assert(out@.map_values(|x: Step| x@) =~= before.map_values(|x: Step| x@).push(
            StepView { out: out_reg@, op: Some(opv) },
        ));
        i += 1;
    }
    assert(a@.take(a.len() as int) =~= a@);
    Ok(out)
}

/// The plan a JSON document describes (see [`plan_json_spec`]).
pub fn plan_from_json(root: &Json, fallback_request_id: &str) -> (r: Result<RmvmPlan, String>)
    ensures
        match r {
            Ok(p) => plan_json_spec(*root, fallback_request_id@) == Ok::<RmvmPlanView, Seq<char>>(
                p@,
            ),
            Err(e) => plan_json_spec(*root, fallback_request_id@) == Err::<RmvmPlanView, Seq<char>>(
                e@,
            ),
        },
{
    let o = match root {
        Json::Object(o) => o,
        _ => {
            return Err(owned("plan root must be an object"));
        },
    };
    let request_id = match get_string2(o, "requestId", "request_id") {
        Some(r) => r,
        None => owned(fallback_request_id),
    };
    let steps = match obj_get_exec(o, "steps") {
        Some(Json::Array(sv)) => match parse_steps(sv) {
            Ok(s) => s,
            Err(e) => {
                return Err(e);
            },
        },
        _ => {
            return Err(owned("plan.steps must be an array"));
        },
    };
    let outputs = match obj_get_exec(o, "outputs") {
        Some(Json::Array(ov)) => match parse_outputs(ov) {
            Ok(v) => v,
            Err(e) => {
                return Err(e);
            },
        },
        _ => {
            return Err(owned("plan.outputs must be an array"));
        },
    };
    Ok(RmvmPlan { request_id, steps, outputs })
}

} // verus!
