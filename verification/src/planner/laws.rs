//! What the plan reader promises across spellings and shapes: camel- and
//! snake-case keys read alike, and the protocol shape reads as the
//! `{kind, ...}` shape does.
use vstd::prelude::*;

use crate::json::{get_string, obj_get, str_of, Json};
use crate::planner::parse::{
    assert_parts_spec, bindings_spec, citations_entries, first_present, proto_op_spec,
    unified_kind_spec, unified_op_spec,
};
use crate::planner::guard::{first_undeclared, guard_op, guard_steps, validate_plan_spec};
use crate::proto::{OpView, PublicManifestView, RmvmPlanView, StepView, ValueRefView};
use crate::text::trim;

verus! {

/// `o2` spells as `snake` the entry that `o1` spells as `camel`: neither
/// holds the other spelling, and the values agree.
pub open spec fn respelled(o1: Seq<(String, Json)>, o2: Seq<(String, Json)>, camel: Seq<char>, snake: Seq<char>) -> bool {
    &&& obj_get(o1, snake) is None
    &&& obj_get(o2, camel) is None
    &&& obj_get(o2, snake) == obj_get(o1, camel)
}

/// A binding object respelled: its `fieldPath` as `field_path`, the same
/// `reg`. Values other than objects stay as they are.
pub open spec fn binding_respelled(j1: Json, j2: Json) -> bool {
    match j1 {
        Json::Object(e1) => j2 matches Json::Object(e2) && respelled(e1@, e2@, "fieldPath"@, "field_path"@)
            && obj_get(e1@, "reg"@) == obj_get(e2@, "reg"@),
        _ => j2 == j1,
    }
}

/// Binding entries respelled one by one, under the same names.
pub open spec fn bindings_respelled(b1: Seq<(String, Json)>, b2: Seq<(String, Json)>) -> bool {
    &&& b1.len() == b2.len()
    &&& forall|i: int|
        0 <= i < b1.len() ==> (#[trigger] b1[i]).0@ == b2[i].0@ && binding_respelled(b1[i].1, b2[i].1)
}

/// A citation object respelled: `handleRef` and `anchorRef` as
/// `handle_ref` and `anchor_ref`. Values other than objects stay.
pub open spec fn citation_respelled(j1: Json, j2: Json) -> bool {
    match j1 {
        Json::Object(c1) => j2 matches Json::Object(c2) && respelled(c1@, c2@, "handleRef"@, "handle_ref"@)
            && respelled(c1@, c2@, "anchorRef"@, "anchor_ref"@),
        _ => j2 == j1,
    }
}

/// Citation lists respelled entry by entry.
pub open spec fn citations_respelled(a1: Seq<Json>, a2: Seq<Json>) -> bool {
    &&& a1.len() == a2.len()
    &&& forall|i: int| 0 <= i < a1.len() ==> citation_respelled(#[trigger] a1[i], a2[i])
}

/// The `bindings` value respelled (an object of bindings), or unchanged.
pub open spec fn bindings_value_respelled(j1: Option<Json>, j2: Option<Json>) -> bool {
    match j1 {
        Some(Json::Object(b1)) => j2 matches Some(Json::Object(b2)) && bindings_respelled(b1@, b2@),
        _ => j2 == j1,
    }
}

/// The `citations` value respelled (an array of citations), or unchanged.
pub open spec fn citations_value_respelled(j1: Option<Json>, j2: Option<Json>) -> bool {
    match j1 {
        Some(Json::Array(a1)) => j2 matches Some(Json::Array(a2)) && citations_respelled(a1@, a2@),
        _ => j2 == j1,
    }
}

/// An operation object respelled from camel case to snake case: each of
/// its camel-case keys (and those inside bindings and citations) turned
/// into its snake-case form, `kind` and `params` unchanged.
pub open spec fn op_respelled(o1: Seq<(String, Json)>, o2: Seq<(String, Json)>) -> bool {
    &&& respelled(o1, o2, "handleRef"@, "handle_ref"@)
    &&& respelled(o1, o2, "selectorRef"@, "selector_ref"@)
    &&& respelled(o1, o2, "inReg"@, "in_reg"@)
    &&& respelled(o1, o2, "policyId"@, "policy_id"@)
    &&& respelled(o1, o2, "filterRef"@, "filter_ref"@)
    &&& respelled(o1, o2, "leftReg"@, "left_reg"@)
    &&& respelled(o1, o2, "rightReg"@, "right_reg"@)
    &&& respelled(o1, o2, "edgeType"@, "edge_type"@)
    &&& respelled(o1, o2, "fieldPaths"@, "field_paths"@)
    &&& respelled(o1, o2, "assertionType"@, "assertion_type"@)
    &&& obj_get(o1, "kind"@) == obj_get(o2, "kind"@)
    &&& obj_get(o1, "params"@) == obj_get(o2, "params"@)
    &&& bindings_value_respelled(obj_get(o1, "bindings"@), obj_get(o2, "bindings"@))
    &&& citations_value_respelled(obj_get(o1, "citations"@), obj_get(o2, "citations"@))
}

/// Reading one key.
proof fn lemma_get1(o: Seq<(String, Json)>, a: Seq<char>)
    ensures
        get_string(o, seq![a]) == str_of(obj_get(o, a)),
{
    assert(seq![a].drop_first() =~= Seq::<Seq<char>>::empty());
    assert(get_string(o, Seq::<Seq<char>>::empty()) is None);
}

/// Reading the first present of two keys.
proof fn lemma_get2(o: Seq<(String, Json)>, a: Seq<char>, b: Seq<char>)
    ensures
        get_string(o, seq![a, b]) == (match str_of(obj_get(o, a)) {
            Some(s) => Some(s),
            None => str_of(obj_get(o, b)),
        }),
{
    assert(seq![a, b].drop_first() =~= seq![b]);
    lemma_get1(o, b);
}

/// A respelled entry reads alike under either order of the two spellings.
proof fn lemma_respelled_reads(o1: Seq<(String, Json)>, o2: Seq<(String, Json)>, c: Seq<char>, s: Seq<char>)
    requires
        respelled(o1, o2, c, s),
    ensures
        get_string(o1, seq![c, s]) == get_string(o2, seq![c, s]),
        get_string(o1, seq![c, s]) == str_of(obj_get(o1, c)),
        first_present(obj_get(o1, c), obj_get(o1, s)) == first_present(obj_get(o2, c), obj_get(o2, s)),
{
    lemma_get2(o1, c, s);
    lemma_get2(o2, c, s);
}

proof fn lemma_bindings_respelled(b1: Seq<(String, Json)>, b2: Seq<(String, Json)>)
    requires
        bindings_respelled(b1, b2),
    ensures
        bindings_spec(b1) == bindings_spec(b2),
    decreases b1.len(),
{
    if b1.len() > 0 {
        let n = b1.len() - 1;
        assert(bindings_respelled(b1.drop_last(), b2.drop_last())) by {
            assert forall|i: int| 0 <= i < b1.drop_last().len() implies (#[trigger] b1.drop_last()[i]).0@
                == b2.drop_last()[i].0@ && binding_respelled(b1.drop_last()[i].1, b2.drop_last()[i].1) by {
                assert(b1.drop_last()[i] == b1[i]);
                assert(b2.drop_last()[i] == b2[i]);
            };
        };
        lemma_bindings_respelled(b1.drop_last(), b2.drop_last());
        assert(b1[n] == b1.last());
        assert(b1[n].0@ == b2[n].0@ && binding_respelled(b1[n].1, b2[n].1));
        match b1.last().1 {
            Json::Object(e1) => {
                let e2 = match b2.last().1 {
                    Json::Object(e2) => e2,
                    _ => e1,
                };
                lemma_get1(e1@, "reg"@);
                lemma_get1(e2@, "reg"@);
                lemma_respelled_reads(e1@, e2@, "fieldPath"@, "field_path"@);
            },
            _ => {},
        }
    }
}

proof fn lemma_citations_respelled(a1: Seq<Json>, a2: Seq<Json>)
    requires
        citations_respelled(a1, a2),
    ensures
        citations_entries(a1) == citations_entries(a2),
    decreases a1.len(),
{
    if a1.len() > 0 {
        let n = a1.len() - 1;
        assert(citations_respelled(a1.drop_last(), a2.drop_last())) by {
            assert forall|i: int| 0 <= i < a1.drop_last().len() implies citation_respelled(
                #[trigger] a1.drop_last()[i],
                a2.drop_last()[i],
            ) by {
                assert(a1.drop_last()[i] == a1[i]);
                assert(a2.drop_last()[i] == a2[i]);
            };
        };
        lemma_citations_respelled(a1.drop_last(), a2.drop_last());
        assert(citation_respelled(a1[n], a2[n]));
        match a1.last() {
            Json::Object(c1) => {
                let c2 = match a2.last() {
                    Json::Object(c2) => c2,
                    _ => c1,
                };
                lemma_respelled_reads(c1@, c2@, "handleRef"@, "handle_ref"@);
                lemma_respelled_reads(c1@, c2@, "anchorRef"@, "anchor_ref"@);
            },
            _ => {},
        }
    }
}

/// The ASSERT parts read alike when bindings and citations are respelled.
proof fn lemma_assert_parts_respelled(
    at: Option<Seq<char>>,
    j1: Option<Json>,
    j2: Option<Json>,
    absent_empty: bool,
    c1: Option<Json>,
    c2: Option<Json>,
)
    requires
        bindings_value_respelled(j1, j2),
        citations_value_respelled(c1, c2),
    ensures
        assert_parts_spec(at, j1, absent_empty, c1) == assert_parts_spec(at, j2, absent_empty, c2),
{
    match j1 {
        Some(Json::Object(b1)) => {
            match j2 {
                Some(Json::Object(b2)) => lemma_bindings_respelled(b1@, b2@),
                _ => {},
            }
        },
        _ => {},
    }
    match c1 {
        Some(Json::Array(a1)) => {
            match c2 {
                Some(Json::Array(a2)) => lemma_citations_respelled(a1@, a2@),
                _ => {},
            }
        },
        _ => {},
    }
}

/// Key spelling does not matter: an operation object whose camel-case keys
/// (also inside its bindings and citations) are respelled in snake case
/// reads as the same operation, or fails the same way; and an operation
/// that reads is of one of the seven kinds.
pub proof fn lemma_unified_spelling_free(o1: Vec<(String, Json)>, o2: Vec<(String, Json)>)
    requires
        op_respelled(o1@, o2@),
    ensures
        unified_op_spec(Json::Object(o1)) == unified_op_spec(Json::Object(o2)),
        unified_op_spec(Json::Object(o1)) is Ok ==> (get_string(o1@, seq!["kind"@]) matches Some(k) && (k
            == "fetch"@ || k == "applySelector"@ || k == "resolve"@ || k == "filter"@ || k == "join"@
            || k == "project"@ || k == "assert"@)),
{
    let a = o1@;
    let b = o2@;
    lemma_get1(a, "kind"@);
    lemma_get1(b, "kind"@);
    lemma_get1(a, "params"@);
    lemma_respelled_reads(a, b, "handleRef"@, "handle_ref"@);
    lemma_respelled_reads(a, b, "selectorRef"@, "selector_ref"@);
    lemma_respelled_reads(a, b, "inReg"@, "in_reg"@);
    lemma_respelled_reads(a, b, "policyId"@, "policy_id"@);
    lemma_respelled_reads(a, b, "filterRef"@, "filter_ref"@);
    lemma_respelled_reads(a, b, "leftReg"@, "left_reg"@);
    lemma_respelled_reads(a, b, "rightReg"@, "right_reg"@);
    lemma_respelled_reads(a, b, "edgeType"@, "edge_type"@);
    lemma_respelled_reads(a, b, "fieldPaths"@, "field_paths"@);
    lemma_respelled_reads(a, b, "assertionType"@, "assertion_type"@);
    lemma_assert_parts_respelled(
        get_string(a, seq!["assertionType"@, "assertion_type"@]),
        obj_get(a, "bindings"@),
        obj_get(b, "bindings"@),
        false,
        obj_get(a, "citations"@),
        obj_get(b, "citations"@),
    );
    match get_string(a, seq!["kind"@]) {
        Some(k) => {
            assert(unified_kind_spec(a, k) == unified_kind_spec(b, k));
        },
        None => {},
    }
}

/// The `kind` the `{kind, ...}` shape gives the operation that the
/// protocol shape names by `key`.
pub open spec fn kind_for_key(key: Seq<char>) -> Seq<char> {
    if key == "fetch"@ {
        "fetch"@
    } else if key == "apply_selector"@ {
        "applySelector"@
    } else if key == "resolve"@ {
        "resolve"@
    } else if key == "filter"@ {
        "filter"@
    } else if key == "join"@ {
        "join"@
    } else if key == "project"@ {
        "project"@
    } else {
        "assert"@
    }
}

/// Whether `key` names an operation in the protocol shape.
pub open spec fn is_op_key(key: Seq<char>) -> bool {
    key == "fetch"@ || key == "apply_selector"@ || key == "resolve"@ || key == "filter"@ || key
        == "join"@ || key == "project"@ || key == "assert_op"@
}

/// Whether `key` is the only operation key of a protocol-shape step.
pub open spec fn only_op_key(o: Seq<(String, Json)>, key: Seq<char>) -> bool {
    &&& (key == "fetch"@ || obj_get(o, "fetch"@) is None)
    &&& (key == "apply_selector"@ || obj_get(o, "apply_selector"@) is None)
    &&& (key == "resolve"@ || obj_get(o, "resolve"@) is None)
    &&& (key == "filter"@ || obj_get(o, "filter"@) is None)
    &&& (key == "join"@ || obj_get(o, "join"@) is None)
    &&& (key == "project"@ || obj_get(o, "project"@) is None)
    &&& (key == "assert_op"@ || obj_get(o, "assert_op"@) is None)
}

/// Whether an operation body uses no camel-case field name.
pub open spec fn snake_only(o: Seq<(String, Json)>) -> bool {
    &&& obj_get(o, "handleRef"@) is None
    &&& obj_get(o, "selectorRef"@) is None
    &&& obj_get(o, "inReg"@) is None
    &&& obj_get(o, "policyId"@) is None
    &&& obj_get(o, "filterRef"@) is None
    &&& obj_get(o, "leftReg"@) is None
    &&& obj_get(o, "rightReg"@) is None
    &&& obj_get(o, "edgeType"@) is None
    &&& obj_get(o, "fieldPaths"@) is None
    &&& obj_get(o, "assertionType"@) is None
}

/// A snake-case entry reads alike from the body (snake case first) and
/// from the `{kind, ...}` object (camel case first).
proof fn lemma_swapped_reads(inner: Seq<(String, Json)>, u: Seq<(String, Json)>, c: Seq<char>, s: Seq<char>)
    requires
        obj_get(inner, c) is None,
        obj_get(u, c) == obj_get(inner, c),
        obj_get(u, s) == obj_get(inner, s),
    ensures
        get_string(inner, seq![s, c]) == get_string(u, seq![c, s]),
        first_present(obj_get(inner, s), obj_get(inner, c)) == first_present(obj_get(u, c), obj_get(u, s)),
{
    lemma_get2(inner, s, c);
    lemma_get2(u, c, s);
}

/// The two step shapes agree: a protocol-shape step whose only operation
/// key holds a snake-case object reads as that object with the matching
/// `kind` added (for `assert_op`, with its bindings given); both read the
/// same operation, or both fail.
pub proof fn lemma_shapes_agree(
    obj: Vec<(String, Json)>,
    key: Seq<char>,
    inner: Vec<(String, Json)>,
    u: Vec<(String, Json)>,
)
    requires
        is_op_key(key),
        only_op_key(obj@, key),
        obj_get(obj@, key) == Some(Json::Object(inner)),
        snake_only(inner@),
        key == "assert_op"@ ==> obj_get(inner@, "bindings"@) is Some,
        str_of(obj_get(u@, "kind"@)) == Some(kind_for_key(key)),
        forall|k: Seq<char>| k != "kind"@ ==> #[trigger] obj_get(u@, k) == obj_get(inner@, k),
    ensures
        (proto_op_spec(obj@) is Ok) == (unified_op_spec(Json::Object(u)) is Ok),
        proto_op_spec(obj@) is Ok ==> proto_op_spec(obj@) == unified_op_spec(Json::Object(u)),
{
    reveal_strlit("kind");
    reveal_strlit("fetch");
    reveal_strlit("apply_selector");
    reveal_strlit("applySelector");
    reveal_strlit("resolve");
    reveal_strlit("filter");
    reveal_strlit("join");
    reveal_strlit("project");
    reveal_strlit("assert_op");
    reveal_strlit("assert");
    reveal_strlit("handleRef");
    reveal_strlit("handle_ref");
    reveal_strlit("selectorRef");
    reveal_strlit("selector_ref");
    reveal_strlit("inReg");
    reveal_strlit("in_reg");
    reveal_strlit("policyId");
    reveal_strlit("policy_id");
    reveal_strlit("filterRef");
    reveal_strlit("filter_ref");
    reveal_strlit("leftReg");
    reveal_strlit("left_reg");
    reveal_strlit("rightReg");
    reveal_strlit("right_reg");
    reveal_strlit("edgeType");
    reveal_strlit("edge_type");
    reveal_strlit("fieldPaths");
    reveal_strlit("field_paths");
    reveal_strlit("assertionType");
    reveal_strlit("assertion_type");
    reveal_strlit("params");
    reveal_strlit("bindings");
    reveal_strlit("citations");
    let kind_key = "kind"@;
    assert("params"@[0] != kind_key[0]);
    assert("bindings"@[0] != kind_key[0]);
    assert("citations"@[0] != kind_key[0]);
    assert("assertion_type"@[0] != kind_key[0]);
    assert("assertionType"@[0] != kind_key[0]);
    assert("handleRef"@[0] != kind_key[0]);
    assert("handle_ref"@[0] != kind_key[0]);
    assert("selectorRef"@[0] != kind_key[0]);
    assert("selector_ref"@[0] != kind_key[0]);
    assert("inReg"@[0] != kind_key[0]);
    assert("in_reg"@[0] != kind_key[0]);
    assert("policyId"@[0] != kind_key[0]);
    assert("policy_id"@[0] != kind_key[0]);
    assert("filterRef"@[0] != kind_key[0]);
    assert("filter_ref"@[0] != kind_key[0]);
    assert("leftReg"@[0] != kind_key[0]);
    assert("left_reg"@[0] != kind_key[0]);
    assert("rightReg"@[0] != kind_key[0]);
    assert("right_reg"@[0] != kind_key[0]);
    assert("edgeType"@[0] != kind_key[0]);
    assert("edge_type"@[0] != kind_key[0]);
    assert("fieldPaths"@[0] != kind_key[0]);
    assert("field_paths"@[0] != kind_key[0]);
    let a = inner@;
    let b = u@;
    lemma_get1(b, "kind"@);
    assert(obj_get(b, "params"@) == obj_get(a, "params"@));
    assert(obj_get(b, "bindings"@) == obj_get(a, "bindings"@));
    assert(obj_get(b, "citations"@) == obj_get(a, "citations"@));
    assert(obj_get(b, "assertion_type"@) == obj_get(a, "assertion_type"@));
    lemma_get2(b, "assertionType"@, "assertion_type"@);
    assert(obj_get(b, "assertionType"@) == obj_get(a, "assertionType"@));
    lemma_swapped_reads(a, b, "handleRef"@, "handle_ref"@);
    lemma_swapped_reads(a, b, "selectorRef"@, "selector_ref"@);
    lemma_swapped_reads(a, b, "inReg"@, "in_reg"@);
    lemma_swapped_reads(a, b, "policyId"@, "policy_id"@);
    lemma_swapped_reads(a, b, "filterRef"@, "filter_ref"@);
    lemma_swapped_reads(a, b, "leftReg"@, "left_reg"@);
    lemma_swapped_reads(a, b, "rightReg"@, "right_reg"@);
    lemma_swapped_reads(a, b, "edgeType"@, "edge_type"@);
    lemma_swapped_reads(a, b, "fieldPaths"@, "field_paths"@);
    assert(unified_op_spec(Json::Object(u)) == unified_kind_spec(b, kind_for_key(key)));
    assert("fetch"@ != "apply_selector"@) by { assert("fetch"@[0] != "apply_selector"@[0]); }
    assert("fetch"@ != "resolve"@) by { assert("fetch"@[0] != "resolve"@[0]); }
    assert("fetch"@ != "filter"@) by { assert("fetch"@[1] != "filter"@[1]); }
    assert("fetch"@ != "join"@) by { assert("fetch"@[0] != "join"@[0]); }
    assert("fetch"@ != "project"@) by { assert("fetch"@[0] != "project"@[0]); }
    assert("fetch"@ != "assert_op"@) by { assert("fetch"@[0] != "assert_op"@[0]); }
    assert("apply_selector"@ != "resolve"@) by { assert("apply_selector"@[0] != "resolve"@[0]); }
    assert("apply_selector"@ != "filter"@) by { assert("apply_selector"@[0] != "filter"@[0]); }
    assert("apply_selector"@ != "join"@) by { assert("apply_selector"@[0] != "join"@[0]); }
    assert("apply_selector"@ != "project"@) by { assert("apply_selector"@[0] != "project"@[0]); }
    assert("apply_selector"@ != "assert_op"@) by { assert("apply_selector"@[1] != "assert_op"@[1]); }
    assert("resolve"@ != "filter"@) by { assert("resolve"@[0] != "filter"@[0]); }
    assert("resolve"@ != "join"@) by { assert("resolve"@[0] != "join"@[0]); }
    assert("resolve"@ != "project"@) by { assert("resolve"@[0] != "project"@[0]); }
    assert("resolve"@ != "assert_op"@) by { assert("resolve"@[0] != "assert_op"@[0]); }
    assert("filter"@ != "join"@) by { assert("filter"@[0] != "join"@[0]); }
    assert("filter"@ != "project"@) by { assert("filter"@[0] != "project"@[0]); }
    assert("filter"@ != "assert_op"@) by { assert("filter"@[0] != "assert_op"@[0]); }
    assert("join"@ != "project"@) by { assert("join"@[0] != "project"@[0]); }
    assert("join"@ != "assert_op"@) by { assert("join"@[0] != "assert_op"@[0]); }
    assert("project"@ != "assert_op"@) by { assert("project"@[0] != "assert_op"@[0]); }
    assert("fetch"@ != "applySelector"@) by { assert("fetch"@[0] != "applySelector"@[0]); }
    assert("fetch"@ != "resolve"@) by { assert("fetch"@[0] != "resolve"@[0]); }
    assert("fetch"@ != "filter"@) by { assert("fetch"@[1] != "filter"@[1]); }
    assert("fetch"@ != "join"@) by { assert("fetch"@[0] != "join"@[0]); }
    assert("fetch"@ != "project"@) by { assert("fetch"@[0] != "project"@[0]); }
    assert("fetch"@ != "assert"@) by { assert("fetch"@[0] != "assert"@[0]); }
    assert("applySelector"@ != "resolve"@) by { assert("applySelector"@[0] != "resolve"@[0]); }
    assert("applySelector"@ != "filter"@) by { assert("applySelector"@[0] != "filter"@[0]); }
    assert("applySelector"@ != "join"@) by { assert("applySelector"@[0] != "join"@[0]); }
    assert("applySelector"@ != "project"@) by { assert("applySelector"@[0] != "project"@[0]); }
    assert("applySelector"@ != "assert"@) by { assert("applySelector"@[1] != "assert"@[1]); }
    assert("resolve"@ != "filter"@) by { assert("resolve"@[0] != "filter"@[0]); }
    assert("resolve"@ != "join"@) by { assert("resolve"@[0] != "join"@[0]); }
    assert("resolve"@ != "project"@) by { assert("resolve"@[0] != "project"@[0]); }
    assert("resolve"@ != "assert"@) by { assert("resolve"@[0] != "assert"@[0]); }
    assert("filter"@ != "join"@) by { assert("filter"@[0] != "join"@[0]); }
    assert("filter"@ != "project"@) by { assert("filter"@[0] != "project"@[0]); }
    assert("filter"@ != "assert"@) by { assert("filter"@[0] != "assert"@[0]); }
    assert("join"@ != "project"@) by { assert("join"@[0] != "project"@[0]); }
    assert("join"@ != "assert"@) by { assert("join"@[0] != "assert"@[0]); }
    assert("project"@ != "assert"@) by { assert("project"@[0] != "assert"@[0]); }
    if key == "fetch"@ {
        assert(kind_for_key(key) == "fetch"@);
        assert(proto_op_spec(obj@) is Ok ==> proto_op_spec(obj@) == unified_kind_spec(b, "fetch"@));
        assert((proto_op_spec(obj@) is Ok) == (unified_kind_spec(b, "fetch"@) is Ok));
    }
    if key == "apply_selector"@ {
        assert(kind_for_key(key) == "applySelector"@);
        assert(proto_op_spec(obj@) is Ok ==> proto_op_spec(obj@) == unified_kind_spec(b, "applySelector"@));
        assert((proto_op_spec(obj@) is Ok) == (unified_kind_spec(b, "applySelector"@) is Ok));
    }
    if key == "resolve"@ {
        assert(kind_for_key(key) == "resolve"@);
        assert(proto_op_spec(obj@) is Ok ==> proto_op_spec(obj@) == unified_kind_spec(b, "resolve"@));
        assert((proto_op_spec(obj@) is Ok) == (unified_kind_spec(b, "resolve"@) is Ok));
    }
    if key == "filter"@ {
        assert(kind_for_key(key) == "filter"@);
        assert(proto_op_spec(obj@) is Ok ==> proto_op_spec(obj@) == unified_kind_spec(b, "filter"@));
        assert((proto_op_spec(obj@) is Ok) == (unified_kind_spec(b, "filter"@) is Ok));
    }
    if key == "join"@ {
        assert(kind_for_key(key) == "join"@);
        assert(proto_op_spec(obj@) is Ok ==> proto_op_spec(obj@) == unified_kind_spec(b, "join"@));
        assert((proto_op_spec(obj@) is Ok) == (unified_kind_spec(b, "join"@) is Ok));
    }
    if key == "project"@ {
        assert(kind_for_key(key) == "project"@);
        assert(proto_op_spec(obj@) is Ok ==> proto_op_spec(obj@) == unified_kind_spec(b, "project"@));
        assert((proto_op_spec(obj@) is Ok) == (unified_kind_spec(b, "project"@) is Ok));
    }
    if key == "assert_op"@ {
        assert(kind_for_key(key) == "assert"@);
        assert(proto_op_spec(obj@) is Ok ==> proto_op_spec(obj@) == unified_kind_spec(b, "assert"@));
        assert((proto_op_spec(obj@) is Ok) == (unified_kind_spec(b, "assert"@) is Ok));
    }
}

/// Whether some step up to index `i` defines register `r`.
pub open spec fn defined_by(steps: Seq<StepView>, i: int, r: Seq<char>) -> bool {
    exists|k: int| 0 <= k <= i && #[trigger] steps[k].out == r
}

/// Whether step `i` reads only registers defined by it or an earlier step
/// (its JOIN sides, or its RESOLVE, FILTER or PROJECT input), and has an
/// operation.
pub open spec fn reads_defined(steps: Seq<StepView>, i: int) -> bool {
    match steps[i].op {
        Some(OpView::Join(j)) => defined_by(steps, i, j.left_reg) && defined_by(steps, i, j.right_reg),
        Some(OpView::Resolve(x)) => defined_by(steps, i, x.in_reg),
        Some(OpView::Filter(x)) => defined_by(steps, i, x.in_reg),
        Some(OpView::Project(x)) => defined_by(steps, i, x.in_reg),
        Some(_) => true,
        None => false,
    }
}

proof fn lemma_defined_extends(steps: Seq<StepView>, i: int, r: Seq<char>)
    requires
        steps.len() > 0,
        0 <= i < steps.len() - 1,
        defined_by(steps.drop_last(), i, r),
    ensures
        defined_by(steps, i, r),
{
    let k = choose|k: int| 0 <= k <= i && #[trigger] steps.drop_last()[k].out == r;
    assert(steps[k] == steps.drop_last()[k]);
}

proof fn lemma_reads_extends(steps: Seq<StepView>, i: int)
    requires
        steps.len() > 0,
        0 <= i < steps.len() - 1,
        reads_defined(steps.drop_last(), i),
    ensures
        reads_defined(steps, i),
{
    let p = steps.drop_last();
    assert(p[i] == steps[i]);
    match steps[i].op {
        Some(OpView::Join(j)) => {
            lemma_defined_extends(steps, i, j.left_reg);
            lemma_defined_extends(steps, i, j.right_reg);
        },
        Some(OpView::Resolve(x)) => lemma_defined_extends(steps, i, x.in_reg),
        Some(OpView::Filter(x)) => lemma_defined_extends(steps, i, x.in_reg),
        Some(OpView::Project(x)) => lemma_defined_extends(steps, i, x.in_reg),
        _ => {},
    }
}

/// A register the last step may read (defined so far or by that step) is
/// defined by some step up to it.
proof fn lemma_last_reads(steps: Seq<StepView>, regs: Set<Seq<char>>, r: Seq<char>)
    requires
        steps.len() > 0,
        forall|q: Seq<char>| #[trigger] regs.contains(q) ==> defined_by(steps.drop_last(), steps.len() - 2, q),
        regs.insert(steps.last().out).contains(r),
    ensures
        defined_by(steps, steps.len() - 1, r),
{
    let n = steps.len() - 1;
    if r == steps.last().out {
        assert(steps[n].out == r);
    } else {
        assert(regs.contains(r));
        let k = choose|k: int| 0 <= k <= n - 1 && #[trigger] steps.drop_last()[k].out == r;
        assert(steps[k] == steps.drop_last()[k]);
    }
}

/// What the guard's steps check establishes: every register it returns is
/// an output of some step, and each step reads only registers defined by
/// it or an earlier step.
proof fn lemma_guard_steps_reads(steps: Seq<StepView>, m: PublicManifestView)
    requires
        guard_steps(steps, m) is Ok,
    ensures
        forall|r: Seq<char>| #[trigger] guard_steps(steps, m)->Ok_0.contains(r) ==> defined_by(steps, steps.len() - 1, r),
        forall|i: int| 0 <= i < steps.len() ==> reads_defined(steps, i),
    decreases steps.len(),
{
    if steps.len() > 0 {
        let p = steps.drop_last();
        let n = steps.len() - 1;
        lemma_guard_steps_reads(p, m);
        let regs = guard_steps(p, m)->Ok_0;
        let last = steps.last();
        let regs2 = regs.insert(last.out);
        assert forall|r: Seq<char>| #[trigger] regs2.contains(r) implies defined_by(steps, n, r) by {
            lemma_last_reads(steps, regs, r);
        };
        assert(steps[n] == last);
        assert forall|i: int| 0 <= i < steps.len() implies reads_defined(steps, i) by {
            if i < n {
                lemma_reads_extends(steps, i);
            } else {
                match last.op {
                    Some(OpView::Join(j)) => {
                        assert(regs2.contains(j.left_reg));
                        assert(regs2.contains(j.right_reg));
                    },
                    Some(OpView::Resolve(x)) => assert(regs2.contains(x.in_reg)),
                    Some(OpView::Filter(x)) => assert(regs2.contains(x.in_reg)),
                    Some(OpView::Project(x)) => assert(regs2.contains(x.in_reg)),
                    _ => {},
                }
            }
        };
    }
}

/// A plan that passes the guard reads only defined registers: each step has
/// an operation, every JOIN step reads a left and a right register that an
/// earlier step (or the step itself) defines, and every RESOLVE, FILTER
/// and PROJECT step so reads its input register.
pub proof fn lemma_validated_plan_reads_defined(plan: RmvmPlanView, m: PublicManifestView)
    requires
        validate_plan_spec(plan, m) is Ok,
    ensures
        forall|i: int| 0 <= i < plan.steps.len() ==> #[trigger] reads_defined(plan.steps, i),
{
    lemma_guard_steps_reads(plan.steps, m);
}

/// Whether a step refers only to what the manifest issued and to defined
/// registers in its ASSERT bindings: a FETCH names an issued handle, an
/// APPLY_SELECTOR an issued selector, and every binding of an ASSERT reads
/// a register defined by the step or an earlier one.
pub open spec fn refs_issued(steps: Seq<StepView>, i: int, m: PublicManifestView) -> bool {
    match steps[i].op {
        Some(OpView::Fetch(f)) => exists|h: int| 0 <= h < m.handles.len() && #[trigger] m.handles[h].ref_id == f.handle_ref,
        Some(OpView::ApplySelector(a)) => exists|k: int| 0 <= k < m.selectors.len() && #[trigger] m.selectors[k].sel == a.selector_ref,
        Some(OpView::AssertOp(a)) => forall|b: int| 0 <= b < a.bindings.len() ==> defined_by(steps, i, #[trigger] a.bindings[b].1.reg),
        _ => true,
    }
}

/// Bindings with no undeclared register read only declared registers.
proof fn lemma_no_undeclared(bs: Seq<(Seq<char>, ValueRefView)>, regs: Set<Seq<char>>)
    requires
        first_undeclared(bs, regs) is None,
    ensures
        forall|b: int| 0 <= b < bs.len() ==> regs.contains(#[trigger] bs[b].1.reg),
    decreases bs.len(),
{
    if bs.len() > 0 {
        lemma_no_undeclared(bs.drop_first(), regs);
        assert forall|b: int| 0 <= b < bs.len() implies regs.contains(#[trigger] bs[b].1.reg) by {
            if b > 0 {
                assert(bs[b] == bs.drop_first()[b - 1]);
            }
        };
    }
}

proof fn lemma_refs_extends(steps: Seq<StepView>, i: int, m: PublicManifestView)
    requires
        steps.len() > 0,
        0 <= i < steps.len() - 1,
        refs_issued(steps.drop_last(), i, m),
    ensures
        refs_issued(steps, i, m),
{
    let p = steps.drop_last();
    assert(p[i] == steps[i]);
    match steps[i].op {
        Some(OpView::AssertOp(a)) => {
            assert forall|b: int| 0 <= b < a.bindings.len() implies defined_by(steps, i, #[trigger] a.bindings[b].1.reg) by {
                assert(defined_by(p, i, a.bindings[b].1.reg));
                lemma_defined_extends(steps, i, a.bindings[b].1.reg);
            };
        },
        _ => {},
    }
}

/// The guard's check of the steps: every output is a declared register,
/// every output is non-blank and defined once, and every step refers only
/// to issued references and defined registers.
proof fn lemma_guard_steps_refs(steps: Seq<StepView>, m: PublicManifestView)
    requires
        guard_steps(steps, m) is Ok,
    ensures
        forall|k: int| 0 <= k < steps.len() ==> guard_steps(steps, m)->Ok_0.contains(#[trigger] steps[k].out),
        forall|r: Seq<char>| #[trigger] guard_steps(steps, m)->Ok_0.contains(r) ==> defined_by(steps, steps.len() - 1, r),
        forall|k: int| 0 <= k < steps.len() ==> trim(#[trigger] steps[k].out).len() > 0,
        forall|a: int, b: int| 0 <= a < b < steps.len() ==> #[trigger] steps[a].out != #[trigger] steps[b].out,
        forall|i: int| 0 <= i < steps.len() ==> #[trigger] refs_issued(steps, i, m),
    decreases steps.len(),
{
    lemma_guard_steps_reads(steps, m);
    if steps.len() > 0 {
        let p = steps.drop_last();
        let n = steps.len() - 1;
        lemma_guard_steps_refs(p, m);
        let regs = guard_steps(p, m)->Ok_0;
        let last = steps.last();
        let regs2 = regs.insert(last.out);
        assert(steps[n] == last);
        assert forall|k: int| 0 <= k < steps.len() implies regs2.contains(#[trigger] steps[k].out) by {
            if k < n {
                assert(p[k] == steps[k]);
            }
        };
        assert forall|k: int| 0 <= k < steps.len() implies trim(#[trigger] steps[k].out).len() > 0 by {
            if k < n {
                assert(p[k] == steps[k]);
            }
        };
        assert forall|a: int, b: int| 0 <= a < b < steps.len() implies #[trigger] steps[a].out != #[trigger] steps[b].out by {
            assert(p[a] == steps[a]);
            if b < n {
                assert(p[b] == steps[b]);
            } else {
                assert(regs.contains(p[a].out));
            }
        };
        assert forall|i: int| 0 <= i < steps.len() implies #[trigger] refs_issued(steps, i, m) by {
            if i < n {
                lemma_refs_extends(steps, i, m);
            } else {
                match last.op {
                    Some(OpView::AssertOp(a)) => {
                        lemma_no_undeclared(a.bindings, regs2);
                        assert forall|b: int| 0 <= b < a.bindings.len() implies defined_by(
                            steps,
                            i,
                            #[trigger] a.bindings[b].1.reg,
                        ) by {
                            lemma_last_reads(steps, regs, a.bindings[b].1.reg);
                        };
                    },
                    _ => {},
                }
            }
        };
    }
}

/// A plan that passes the guard names only what its manifest issued and
/// defines each register once: every output is non-blank and no two steps
/// share one, every FETCH names an issued handle and every APPLY_SELECTOR
/// an issued selector, and every ASSERT binding reads a register defined by
/// the step or an earlier one.
pub proof fn lemma_validated_plan_refs(plan: RmvmPlanView, m: PublicManifestView)
    requires
        validate_plan_spec(plan, m) is Ok,
    ensures
        forall|k: int| 0 <= k < plan.steps.len() ==> trim(#[trigger] plan.steps[k].out).len() > 0,
        forall|a: int, b: int|
            0 <= a < b < plan.steps.len() ==> #[trigger] plan.steps[a].out != #[trigger] plan.steps[b].out,
        forall|i: int| 0 <= i < plan.steps.len() ==> #[trigger] refs_issued(plan.steps, i, m),
{
    lemma_guard_steps_refs(plan.steps, m);
}

} // verus!
