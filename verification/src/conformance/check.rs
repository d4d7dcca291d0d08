//! Checking a vector's conventions and comparing a run with what the vector
//! expects.
use vstd::prelude::*;

use crate::conformance::vector::{
    ConformanceVector, ExecutionResult, ExpectedOutcome, ExpectedStall, VectorReport,
    CONFORMANCE_PROTO_VERSION, CONFORMANCE_SPEC_VERSION,
};
use crate::kernel::machine::execute_spec;
use crate::kernel::options::OptionsView;
use crate::proto::{
    availability_from, availability_from_i32, availability_name_spec, error_code_from,
    error_code_from_i32, error_code_name_spec, status_from, status_from_i32, status_name_spec,
    ExecuteRequestView, ExecuteResponse, ExecuteResponseView,
};
use crate::text::{chars_of, concat2, is_blank, owned, push_str, str_eq, trim};

verus! {

/// The protocol name of an execution status number.
pub open spec fn status_name_of(status: i32) -> Seq<char> {
    status_name_spec(status_from(status))
}

/// The protocol name of an execution status number (unknown numbers are
/// `EXECUTION_STATUS_UNSPECIFIED`).
pub fn status_name(status: i32) -> (s: String)
    ensures
        s@ == status_name_of(status),
{
    status_from_i32(status).as_str_name()
}

/// The protocol name of an error code number.
pub open spec fn error_code_name_of(code: i32) -> Seq<char> {
    error_code_name_spec(error_code_from(code))
}

/// The protocol name of an error code number (unknown numbers are
/// `ERROR_CODE_UNSPECIFIED`).
pub fn error_code_name(code: i32) -> (s: String)
    ensures
        s@ == error_code_name_of(code),
{
    error_code_from_i32(code).as_str_name()
}

/// The protocol name of an availability number.
pub open spec fn availability_name_of(v: i32) -> Seq<char> {
    availability_name_spec(availability_from(v))
}

/// The protocol name of an availability number (unknown numbers are
/// `HANDLE_AVAILABILITY_UNSPECIFIED`).
pub fn availability_name(v: i32) -> (s: String)
    ensures
        s@ == availability_name_of(v),
{
    availability_from_i32(v).as_str_name()
}

/// The characters a vector id may hold: ASCII letters, digits and `-`.
pub open spec fn id_char(c: char) -> bool {
    ('A' <= c && c <= 'Z') || ('a' <= c && c <= 'z') || ('0' <= c && c <= '9') || c == '-'
}

/// The problems with a vector's conventions: its versions, the characters
/// of its id, and whether its file is named after its id.
pub open spec fn conventions_spec(file_stem: Seq<char>, v: ConformanceVector) -> Seq<Seq<char>> {
    let a = if v.spec_version@ != "conformance/v1.0.0"@ {
        seq!["spec_version mismatch: expected conformance/v1.0.0, got "@ + v.spec_version@]
    } else {
        Seq::empty()
    };
    let b = if v.proto_version@ != "cortex_rmvm_v3_1"@ {
        seq!["proto_version mismatch: expected cortex_rmvm_v3_1, got "@ + v.proto_version@]
    } else {
        Seq::empty()
    };
    let c = if !(forall|i: int| 0 <= i < v.vector_id@.len() ==> id_char(#[trigger] v.vector_id@[i])) {
        seq!["vector_id contains invalid characters"@]
    } else {
        Seq::empty()
    };
    let d = if file_stem != v.vector_id@ {
        seq!["filename ("@ + file_stem + ") does not match vector_id ("@ + v.vector_id@ + ")"@]
    } else {
        Seq::empty()
    };
    a + b + c + d
}

fn push_all(out: &mut Vec<String>, s: String)
    ensures
        final(out)@.map_values(|x: String| x@) == old(out)@.map_values(|x: String| x@).push(s@),
{
    let ghost before = out@;
    let ghost sv = s@;
    out.push(s);
    assert(out@.map_values(|x: String| x@) =~= before.map_values(|x: String| x@).push(sv));
}

/// The problems with a vector's conventions (see [`conventions_spec`]);
/// `file_stem` is the vector file's name without its extension.
pub fn validate_vector_conventions(file_stem: &str, v: &ConformanceVector) -> (errors: Vec<String>)
    ensures
        errors@.map_values(|x: String| x@) == conventions_spec(file_stem@, *v),
{
    let mut errors: Vec<String> = Vec::new();
    let ghost e0 = errors@.map_values(|x: String| x@);
    assert(e0 =~= Seq::<Seq<char>>::empty());
    proof {
        reveal_strlit("conformance/v1.0.0");
        reveal_strlit("cortex_rmvm_v3_1");
    }
    if !str_eq(v.spec_version.as_str(), CONFORMANCE_SPEC_VERSION) {
        push_all(&mut errors, concat2("spec_version mismatch: expected conformance/v1.0.0, got ", v.spec_version.as_str()));
    }
    let ghost e1 = errors@.map_values(|x: String| x@);
    if !str_eq(v.proto_version.as_str(), CONFORMANCE_PROTO_VERSION) {
        push_all(&mut errors, concat2("proto_version mismatch: expected cortex_rmvm_v3_1, got ", v.proto_version.as_str()));
    }
    let ghost e2 = errors@.map_values(|x: String| x@);
    let cs = chars_of(v.vector_id.as_str());
    let mut ok = true;
    let mut i: usize = 0;
    while i < cs.len()
        invariant
            i <= cs.len(),
            ok == (forall|j: int| 0 <= j < i ==> id_char(#[trigger] cs@[j])),
        decreases cs.len() - i,
    {
        let c = cs[i];
        if !(('A' <= c && c <= 'Z') || ('a' <= c && c <= 'z') || ('0' <= c && c <= '9') || c == '-') {
            ok = false;
        }
        i += 1;
    }
    if !ok {
        push_all(&mut errors, owned("vector_id contains invalid characters"));
    }
    let ghost e3 = errors@.map_values(|x: String| x@);
    if !str_eq(file_stem, v.vector_id.as_str()) {
        let mut m = owned("filename (");
        push_str(&mut m, file_stem);
        push_str(&mut m, ") does not match vector_id (");
        push_str(&mut m, v.vector_id.as_str());
        push_str(&mut m, ")");
        push_all(&mut errors, m);
    }
    proof {
        let spec = conventions_spec(file_stem@, *v);
        assert(errors@.map_values(|x: String| x@) =~= spec);
    }
    errors
}

/// The `Debug` rendering of a list of strings, as `{:?}` writes it.
pub uninterp spec fn debug_strings_text(items: Seq<Seq<char>>) -> Seq<char>;

/// Calls `format!("{:?}", items)` (std's `Debug` for `Vec<String>`).
/// Trusted: the text is the named result `debug_strings_text` of the items.
#[verifier::external_body]
fn debug_strings(items: &Vec<String>) -> (s: String)
    ensures
        s@ == debug_strings_text(items@.map_values(|x: String| x@)),
{
    format!("{:?}", items)
}

/// The text of a boolean as `{}` writes it.
pub open spec fn bool_text(b: bool) -> Seq<char> {
    if b {
        "true"@
    } else {
        "false"@
    }
}

fn bool_string(b: bool) -> (s: String)
    ensures
        s@ == bool_text(b),
{
    if b {
        owned("true")
    } else {
        owned("false")
    }
}

/// `label mismatch: expected E, got A`.
pub open spec fn mismatch(label: Seq<char>, expected: Seq<char>, actual: Seq<char>) -> Seq<char> {
    label + " mismatch: expected "@ + expected + ", got "@ + actual
}

fn mismatch_exec(label: &str, expected: &str, actual: &str) -> (s: String)
    ensures
        s@ == mismatch(label@, expected@, actual@),
{
    let mut s = owned(label);
    push_str(&mut s, " mismatch: expected ");
    push_str(&mut s, expected);
    push_str(&mut s, ", got ");
    push_str(&mut s, actual);
    s
}

/// The stall checks: the stalled handle, its availability name and whether a
/// retrieval ticket is present.
pub open spec fn stall_failures(v: ConformanceVector, r: ExecuteResponseView) -> Seq<Seq<char>> {
    match v.expect.stall {
        None => Seq::empty(),
        Some(se) => match r.stall {
            None => seq!["expected STALL info but response has none"@],
            Some(s) => {
                let a = if s.handle_ref != se.handle_ref@ {
                    seq![mismatch("stall.handle_ref"@, se.handle_ref@, s.handle_ref)]
                } else {
                    Seq::empty()
                };
                let b = if availability_name_of(s.availability) != se.availability@ {
                    seq![mismatch("stall.availability"@, se.availability@, availability_name_of(s.availability))]
                } else {
                    Seq::empty()
                };
                let has_ticket = trim(s.retrieval_ticket).len() != 0;
                let c = if has_ticket != se.retrieval_ticket_present {
                    seq![mismatch(
                        "stall.retrieval_ticket_present"@,
                        bool_text(se.retrieval_ticket_present),
                        bool_text(has_ticket),
                    )]
                } else {
                    Seq::empty()
                };
                a + b + c
            },
        },
    }
}

/// The status check.
pub open spec fn status_failures(v: ConformanceVector, r: ExecuteResponseView) -> Seq<Seq<char>> {
    if status_name_of(r.status) != v.expect.status@ {
        seq![mismatch("status"@, v.expect.status@, status_name_of(r.status))]
    } else {
        Seq::empty()
    }
}

/// The error code check, made only when an error code is expected.
pub open spec fn error_failures(v: ConformanceVector, r: ExecuteResponseView) -> Seq<Seq<char>> {
    let expected_error = match v.expect.error_code {
        Some(e) => e@,
        None => Seq::empty(),
    };
    let actual_error = match r.error {
        Some(e) => error_code_name_of(e.code),
        None => Seq::empty(),
    };
    if expected_error.len() != 0 && expected_error != actual_error {
        seq![mismatch("error_code"@, expected_error, actual_error)]
    } else {
        Seq::empty()
    }
}

/// The semantic root check: the expected root, or, when none is given and
/// roots are asserted, that an `OK` run has one.
pub open spec fn root_failures(v: ConformanceVector, r: ExecuteResponseView) -> Seq<Seq<char>> {
    match v.expect.semantic_root {
        Some(er) => {
            let actual = match r.proof {
                Some(p) => p.semantic_root,
                None => Seq::empty(),
            };
            if er@ != actual {
                seq![mismatch("semantic_root"@, er@, actual)]
            } else {
                Seq::empty()
            }
        },
        None => if v.determinism.assert_semantic_root && status_name_of(r.status) == "OK"@
            && match r.proof {
            Some(p) => p.semantic_root.len() == 0,
            None => true,
        } {
            seq!["semantic_root missing for OK response"@]
        } else {
            Seq::empty()
        },
    }
}

/// The verified blocks check.
pub open spec fn blocks_failures(v: ConformanceVector, r: ExecuteResponseView) -> Seq<Seq<char>> {
    match v.expect.verified_blocks {
        Some(eb) => {
            let actual = match r.rendered {
                Some(o) => o.verified_blocks,
                None => Seq::empty(),
            };
            if eb@.map_values(|x: String| x@) != actual {
                seq![mismatch(
                    "verified_blocks"@,
                    debug_strings_text(eb@.map_values(|x: String| x@)),
                    debug_strings_text(actual),
                )]
            } else {
                Seq::empty()
            }
        },
        None => Seq::empty(),
    }
}

/// The response digest check.
pub open spec fn digest_failures(v: ConformanceVector, res: ExecutionResult) -> Seq<Seq<char>> {
    match v.determinism.assert_response_cpe_sha256 {
        Some(h) => if h@ != res.response_sha256@ {
            seq![mismatch("response sha256"@, h@, res.response_sha256@)]
        } else {
            Seq::empty()
        },
        None => Seq::empty(),
    }
}

/// The differences between a run and what its vector expects, in order:
/// status, error code (when one is expected), semantic root (or its absence
/// on an `OK` run when roots are asserted), verified blocks, stall, and the
/// response digest.
pub open spec fn compare_spec(v: ConformanceVector, res: ExecutionResult) -> Seq<Seq<char>> {
    let r = res.response@;
    status_failures(v, r) + error_failures(v, r) + root_failures(v, r) + blocks_failures(v, r)
        + stall_failures(v, r) + digest_failures(v, res)
}

fn strings_eq(a: &Vec<String>, b: &Vec<String>) -> (r: bool)
    ensures
        r == (a@.map_values(|x: String| x@) == b@.map_values(|x: String| x@)),
{
    if a.len() != b.len() {
        proof {
            if a@.map_values(|x: String| x@) == b@.map_values(|x: String| x@) {
                assert(a@.map_values(|x: String| x@).len() == b@.map_values(|x: String| x@).len());
            }
        }
        return false;
    }
    let mut i: usize = 0;
    while i < a.len()
        invariant
            i <= a.len(),
            a.len() == b.len(),
            forall|j: int| 0 <= j < i ==> a@[j]@ == b@[j]@,
        decreases a.len() - i,
    {
        if !str_eq(a[i].as_str(), b[i].as_str()) {
            proof {
                if a@.map_values(|x: String| x@) == b@.map_values(|x: String| x@) {
                    assert(a@.map_values(|x: String| x@)[i as int] == b@.map_values(|x: String| x@)[i as int]);
                }
            }
            return false;
        }
        i += 1;
    }
    assert(a@.map_values(|x: String| x@) =~= b@.map_values(|x: String| x@));
    true
}

fn one(s: String) -> (v: Vec<String>)
    ensures
        v@.map_values(|x: String| x@) == seq![s@],
{
    let mut v: Vec<String> = Vec::new();
    push_all(&mut v, s);
    assert(v@.map_values(|x: String| x@) =~= seq![s@]);
    v
}

fn none() -> (v: Vec<String>)
    ensures
        v@.map_values(|x: String| x@) == Seq::<Seq<char>>::empty(),
{
    let v: Vec<String> = Vec::new();
    assert(v@.map_values(|x: String| x@) =~= Seq::<Seq<char>>::empty());
    v
}

fn append_all(out: &mut Vec<String>, more: Vec<String>)
    ensures
        final(out)@.map_values(|x: String| x@) == old(out)@.map_values(|x: String| x@) + more@.map_values(
            |x: String| x@,
        ),
{
    let ghost start = out@.map_values(|x: String| x@);
    let ghost mv = more@.map_values(|x: String| x@);
    let mut i: usize = 0;
    while i < more.len()
        invariant
            i <= more.len(),
            mv == more@.map_values(|x: String| x@),
            out@.map_values(|x: String| x@) == start + mv.take(i as int),
        decreases more.len() - i,
    {
        push_all(out, owned(more[i].as_str()));
        assert(mv.take(i + 1) =~= mv.take(i as int).push(mv[i as int]));
        i += 1;
    }
    assert(mv.take(more.len() as int) =~= mv);
}

fn status_check(v: &ConformanceVector, res: &ExecutionResult) -> (f: Vec<String>)
    ensures
        f@.map_values(|x: String| x@) == status_failures(*v, res.response@),
{
    let actual = status_name(res.response.status);
    if !str_eq(actual.as_str(), v.expect.status.as_str()) {
        one(mismatch_exec("status", v.expect.status.as_str(), actual.as_str()))
    } else {
        none()
    }
}

fn error_check(v: &ConformanceVector, res: &ExecutionResult) -> (f: Vec<String>)
    ensures
        f@.map_values(|x: String| x@) == error_failures(*v, res.response@),
{
    let expected_error = match &v.expect.error_code {
        Some(e) => owned(e.as_str()),
        None => String::new(),
    };
    let actual_error = match &res.response.error {
        Some(e) => error_code_name(e.code),
        None => String::new(),
    };
    if !crate::text::str_is_empty(expected_error.as_str()) && !str_eq(
        expected_error.as_str(),
        actual_error.as_str(),
    ) {
        one(mismatch_exec("error_code", expected_error.as_str(), actual_error.as_str()))
    } else {
        none()
    }
}

fn root_check(v: &ConformanceVector, res: &ExecutionResult) -> (f: Vec<String>)
    ensures
        f@.map_values(|x: String| x@) == root_failures(*v, res.response@),
{
    let r = &res.response;
    match &v.expect.semantic_root {
        Some(er) => {
            let actual = match &r.proof {
                Some(p) => owned(p.semantic_root.as_str()),
                None => String::new(),
            };
            if !str_eq(er.as_str(), actual.as_str()) {
                one(mismatch_exec("semantic_root", er.as_str(), actual.as_str()))
            } else {
                none()
            }
        },
        None => {
            let missing = match &r.proof {
                Some(p) => crate::text::str_is_empty(p.semantic_root.as_str()),
                None => true,
            };
            let actual_status = status_name(r.status);
            if v.determinism.assert_semantic_root && str_eq(actual_status.as_str(), "OK") && missing {
                one(owned("semantic_root missing for OK response"))
            } else {
                none()
            }
        },
    }
}

fn blocks_check(v: &ConformanceVector, res: &ExecutionResult) -> (f: Vec<String>)
    ensures
        f@.map_values(|x: String| x@) == blocks_failures(*v, res.response@),
{
    match &v.expect.verified_blocks {
        Some(eb) => {
            let empty: Vec<String> = Vec::new();
            let actual = match &res.response.rendered {
                Some(o) => &o.verified_blocks,
                None => &empty,
            };
            proof {
                assert(empty@.map_values(|x: String| x@) =~= Seq::<Seq<char>>::empty());
            }
            if !strings_eq(eb, actual) {
                let es = debug_strings(eb);
                let acts = debug_strings(actual);
                one(mismatch_exec("verified_blocks", es.as_str(), acts.as_str()))
            } else {
                none()
            }
        },
        None => none(),
    }
}

fn stall_check(v: &ConformanceVector, res: &ExecutionResult) -> (f: Vec<String>)
    ensures
        f@.map_values(|x: String| x@) == stall_failures(*v, res.response@),
{
    match &v.expect.stall {
        None => none(),
        Some(se) => match &res.response.stall {
            None => one(owned("expected STALL info but response has none")),
            Some(s) => {
                let mut out = none();
                if !str_eq(s.handle_ref.as_str(), se.handle_ref.as_str()) {
                    push_all(&mut out, mismatch_exec("stall.handle_ref", se.handle_ref.as_str(), s.handle_ref.as_str()));
                }
                let ghost o1 = out@.map_values(|x: String| x@);
                let an = availability_name(s.availability);
                if !str_eq(an.as_str(), se.availability.as_str()) {
                    push_all(&mut out, mismatch_exec("stall.availability", se.availability.as_str(), an.as_str()));
                }
                let ghost o2 = out@.map_values(|x: String| x@);
                let has_ticket = !is_blank(s.retrieval_ticket.as_str());
                if has_ticket != se.retrieval_ticket_present {
                    let e = bool_string(se.retrieval_ticket_present);
                    let a = bool_string(has_ticket);
                    push_all(&mut out, mismatch_exec("stall.retrieval_ticket_present", e.as_str(), a.as_str()));
                }
                assert(out@.map_values(|x: String| x@) =~= stall_failures(*v, res.response@));
                out
            },
        },
    }
}

fn digest_check(v: &ConformanceVector, res: &ExecutionResult) -> (f: Vec<String>)
    ensures
        f@.map_values(|x: String| x@) == digest_failures(*v, *res),
{
    match &v.determinism.assert_response_cpe_sha256 {
        Some(h) => if !str_eq(h.as_str(), res.response_sha256.as_str()) {
            one(mismatch_exec("response sha256", h.as_str(), res.response_sha256.as_str()))
        } else {
            none()
        },
        None => none(),
    }
}

/// The differences between a run and what its vector expects (see
/// [`compare_spec`]).
pub fn compare_expected(v: &ConformanceVector, res: &ExecutionResult) -> (failures: Vec<String>)
    ensures
        failures@.map_values(|x: String| x@) == compare_spec(*v, *res),
{
    let mut failures = status_check(v, res);
    append_all(&mut failures, error_check(v, res));
    append_all(&mut failures, root_check(v, res));
    append_all(&mut failures, blocks_check(v, res));
    append_all(&mut failures, stall_check(v, res));
    append_all(&mut failures, digest_check(v, res));
    failures
}

/// The report on a vector's run.
pub fn vector_report(v: &ConformanceVector, res: &ExecutionResult, failures: Vec<String>) -> (rep: VectorReport)
    ensures
        rep.vector_id@ == v.vector_id@,
        rep.status@ == status_name_of(res.response.status),
        rep.success == (failures@.len() == 0),
        rep.failures@ == failures@,
        rep.response_sha256@ == res.response_sha256@,
        rep.response_len == res.response_bytes@.len(),
        match rep.semantic_root {
            Some(s) => res.response@.proof matches Some(p) && s@ == p.semantic_root,
            None => res.response@.proof is None,
        },
{
    let success = failures.len() == 0;
    VectorReport {
        vector_id: owned(v.vector_id.as_str()),
        status: status_name(res.response.status),
        success,
        failures,
        response_sha256: owned(res.response_sha256.as_str()),
        response_len: res.response_bytes.len(),
        semantic_root: match &res.response.proof {
            Some(p) => Some(owned(p.semantic_root.as_str())),
            None => None,
        },
    }
}

/// Whether an expected outcome records exactly what a run gave (see
/// [`observed_expectations`]).
pub open spec fn records_outcome(e: ExpectedOutcome, r: ExecuteResponse) -> bool {
    &&& e.status@ == status_name_of(r.status)
    &&& match r.error {
        Some(err) => (e.error_code matches Some(c) && c@ == error_code_name_of(err.code)),
        None => e.error_code is None,
    }
    &&& match r.proof {
        Some(p) => (e.semantic_root matches Some(s) && s@ == p.semantic_root@),
        None => e.semantic_root is None,
    }
    &&& match r.rendered {
        Some(x) => (e.verified_blocks matches Some(b) && b@.map_values(|s: String| s@)
            == x.verified_blocks@.map_values(|s: String| s@)),
        None => e.verified_blocks is None,
    }
    &&& match r.stall {
        Some(st) => (e.stall matches Some(es) && es.handle_ref@ == st.handle_ref@
            && es.availability@ == availability_name_of(st.availability)
            && es.retrieval_ticket_present == (trim(st.retrieval_ticket@).len() != 0)),
        None => e.stall is None,
    }
}

/// The expectations a run satisfies exactly, as a vector's sync records
/// them: its status and error code names, semantic root, verified blocks,
/// and stall (handle, availability name, and whether a retrieval ticket is
/// present, that is not blank).
pub fn observed_expectations(r: &ExecuteResponse) -> (e: ExpectedOutcome)
    ensures
        records_outcome(e, *r),
{
    ExpectedOutcome {
        status: status_name(r.status),
        error_code: match &r.error {
            Some(err) => Some(error_code_name(err.code)),
            None => None,
        },
        semantic_root: match &r.proof {
            Some(p) => Some(owned(p.semantic_root.as_str())),
            None => None,
        },
        verified_blocks: match &r.rendered {
            Some(x) => Some(crate::proto::clone_strings(&x.verified_blocks)),
            None => None,
        },
        stall: match &r.stall {
            Some(st) => Some(
                ExpectedStall {
                    handle_ref: owned(st.handle_ref.as_str()),
                    availability: availability_name(st.availability),
                    retrieval_ticket_present: !is_blank(st.retrieval_ticket.as_str()),
                },
            ),
            None => None,
        },
    }
}


/// The baseline check of a run: `baseline missing` when no baseline hash
/// is recorded, a mismatch when it differs from the run's digest, else
/// nothing.
pub open spec fn baseline_failure_spec(baseline: Option<Seq<char>>, response_sha256: Seq<char>) -> Option<
    Seq<char>,
> {
    match baseline {
        None => Some("baseline missing"@),
        Some(h) => if h != response_sha256 {
            Some("baseline hash mismatch: expected "@ + h + ", got "@ + response_sha256)
        } else {
            None
        },
    }
}

/// The baseline check of a run (see [`baseline_failure_spec`]).
pub fn baseline_failure(baseline: &Option<String>, response_sha256: &str) -> (r: Option<String>)
    ensures
        match r {
            Some(f) => baseline_failure_spec(
                match baseline {
                    Some(h) => Some(h@),
                    None => None,
                },
                response_sha256@,
            ) == Some(f@),
            None => baseline_failure_spec(
                match baseline {
                    Some(h) => Some(h@),
                    None => None,
                },
                response_sha256@,
            ) is None,
        },
{
    match baseline {
        None => Some(owned("baseline missing")),
        Some(h) => if !str_eq(h.as_str(), response_sha256) {
            let mut f = owned("baseline hash mismatch: expected ");
            push_str(&mut f, h.as_str());
            push_str(&mut f, ", got ");
            push_str(&mut f, response_sha256);
            Some(f)
        } else {
            None
        },
    }
}

/// Syncing a vector from a run makes it pass against that run: a vector
/// whose expectations record what a kernel run gave, and whose response
/// digest is that run's, reports no difference.
pub proof fn lemma_synced_vector_passes(
    v: ConformanceVector,
    res: ExecutionResult,
    req: ExecuteRequestView,
    opts: OptionsView,
    within_cost: bool,
)
    requires
        res.response@ == execute_spec(req, opts, within_cost),
        records_outcome(v.expect, res.response),
        v.determinism.assert_response_cpe_sha256 matches Some(h) && h@ == res.response_sha256@,
    ensures
        compare_spec(v, res) == Seq::<Seq<char>>::empty(),
{
    let r = res.response@;
    reveal_strlit("OK");
    reveal_strlit("STALL");
    reveal_strlit("REJECTED");
    assert(status_failures(v, r) =~= Seq::<Seq<char>>::empty());
    assert(error_failures(v, r) =~= Seq::<Seq<char>>::empty());
    if status_name_of(r.status) == "OK"@ {
        if r.status == 2 {
            assert(status_name_of(r.status) == "STALL"@);
            assert("STALL"@[0] != "OK"@[0]);
        } else if r.status == 3 {
            assert(status_name_of(r.status) == "REJECTED"@);
            assert("REJECTED"@.len() != "OK"@.len());
        }
        assert(r.status == 1);
    }
    assert(root_failures(v, r) =~= Seq::<Seq<char>>::empty());
    assert(blocks_failures(v, r) =~= Seq::<Seq<char>>::empty());
    assert(stall_failures(v, r) =~= Seq::<Seq<char>>::empty());
    assert(digest_failures(v, res) =~= Seq::<Seq<char>>::empty());
    assert(compare_spec(v, res) =~= Seq::<Seq<char>>::empty());
}

} // verus!
