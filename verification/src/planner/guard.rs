//! The planner prompt, picking the JSON object out of a planner's answer,
//! checking a plan against a manifest, and the deterministic fallback plan.
use vstd::prelude::*;

use crate::proto::{
    assertion_type_number, AssertionType, HandleRefView, Op, OpApplySelector, OpApplySelectorView,
    OpAssert, OpAssertView, OpFetch, OpFetchView, OpProject, OpProjectView, OpView, OutputSpec,
    OutputSpecView, PublicManifest, PublicManifestView, RmvmPlan, RmvmPlanView, SelectorRefView,
    Step, StepView, Value, ValueKind, ValueKindView, ValueRef, ValueRefView, ValueView,
};
use crate::smap::StrMap;
use crate::text::{
    chars_of, concat2, concat3, is_blank, is_ws, join, join_strings, owned, str_eq, string_from,
    trim, trim_chars, trim_start,
};
use crate::kernel::validate::contains_name;

verus! {

// ----------------------------------------------------------------------
// The prompt
// ----------------------------------------------------------------------

/// The plan-only prompt: fixed instructions, the user's message, and the
/// handle and selector references the plan may use.
pub open spec fn prompt_spec(user_message: Seq<char>, m: PublicManifestView) -> Seq<char> {
    join(
        seq![
            "Return plan JSON only. Do not include prose or markdown."@,
            "Use schema: {requestId, steps:[{out, op:{kind,...}}], outputs:[string]}."@,
            "Allowed op.kind values: fetch, applySelector, resolve, filter, join, project, assert."@,
            "assert bindings shape: bindings.{field} = {reg, fieldPath}."@,
            "User message: "@ + user_message,
            "Allowed handle refs: ["@ + join(
                m.handles.map_values(|h: HandleRefView| h.ref_id),
                ", "@,
            ) + "]"@,
            "Allowed selector refs: ["@ + join(
                m.selectors.map_values(|s: SelectorRefView| s.sel),
                ", "@,
            ) + "]"@,
            "Every fetch.handleRef must be from allowed handle refs."@,
            "Every applySelector.selectorRef must be from allowed selector refs."@,
        ],
        "\n"@,
    )
}

/// The plan-only prompt (see [`prompt_spec`]).
pub fn build_plan_only_prompt(user_message: &str, manifest: &PublicManifest) -> (s: String)
    ensures
        s@ == prompt_spec(user_message@, manifest@),
{
    let mut handles: Vec<String> = Vec::new();
    let mut i: usize = 0;
    while i < manifest.handles.len()
        invariant
            i <= manifest.handles.len(),
            handles@.map_values(|x: String| x@) =~= manifest@.handles.map_values(
                |h: HandleRefView| h.ref_id,
            ).take(i as int),
        decreases manifest.handles.len() - i,
    {
        let ghost before = handles@;
        handles.push(owned(manifest.handles[i].ref_id.as_str()));
        proof {
            assert(handles@.map_values(|x: String| x@) =~= before.map_values(|x: String| x@).push(
                manifest@.handles[i as int].ref_id,
            ));
        }
        i += 1;
    }
    let mut selectors: Vec<String> = Vec::new();
    let mut j: usize = 0;
    while j < manifest.selectors.len()
        invariant
            j <= manifest.selectors.len(),
            selectors@.map_values(|x: String| x@) =~= manifest@.selectors.map_values(
                |s: SelectorRefView| s.sel,
            ).take(j as int),
        decreases manifest.selectors.len() - j,
    {
        let ghost before = selectors@;
        selectors.push(owned(manifest.selectors[j].sel.as_str()));
        proof {
            assert(selectors@.map_values(|x: String| x@) =~= before.map_values(|x: String| x@).push(
                manifest@.selectors[j as int].sel,
            ));
        }
        j += 1;
    }
    let mut lines: Vec<String> = Vec::new();
    lines.push(owned("Return plan JSON only. Do not include prose or markdown."));
    lines.push(owned("Use schema: {requestId, steps:[{out, op:{kind,...}}], outputs:[string]}."));
    lines.push(
        owned("Allowed op.kind values: fetch, applySelector, resolve, filter, join, project, assert."),
    );
    lines.push(owned("assert bindings shape: bindings.{field} = {reg, fieldPath}."));
    lines.push(concat2("User message: ", user_message));
    let hs = join_strings(&handles, ", ");
    lines.push(concat3("Allowed handle refs: [", hs.as_str(), "]"));
    let ss = join_strings(&selectors, ", ");
    lines.push(concat3("Allowed selector refs: [", ss.as_str(), "]"));
    lines.push(owned("Every fetch.handleRef must be from allowed handle refs."));
    lines.push(owned("Every applySelector.selectorRef must be from allowed selector refs."));
    proof {
        assert(handles@.map_values(|x: String| x@) =~= manifest@.handles.map_values(
            |h: HandleRefView| h.ref_id,
        ));
        assert(selectors@.map_values(|x: String| x@) =~= manifest@.selectors.map_values(
            |s: SelectorRefView| s.sel,
        ));
    }
    let out = join_strings(&lines, "\n");
    proof {
        let expected = seq![
            "Return plan JSON only. Do not include prose or markdown."@,
            "Use schema: {requestId, steps:[{out, op:{kind,...}}], outputs:[string]}."@,
            "Allowed op.kind values: fetch, applySelector, resolve, filter, join, project, assert."@,
            "assert bindings shape: bindings.{field} = {reg, fieldPath}."@,
            "User message: "@ + user_message@,
            "Allowed handle refs: ["@ + hs@ + "]"@,
            "Allowed selector refs: ["@ + ss@ + "]"@,
            "Every fetch.handleRef must be from allowed handle refs."@,
            "Every applySelector.selectorRef must be from allowed selector refs."@,
        ];
        assert(lines@.map_values(|x: String| x@) =~= expected);
    }
    out
}

// ----------------------------------------------------------------------
// The JSON object in an answer
// ----------------------------------------------------------------------

/// The first position at or after `i` where `p` occurs in `s`.
pub open spec fn find_from(s: Seq<char>, p: Seq<char>, i: int) -> Option<int>
    decreases s.len() + 1 - i,
{
    if i < 0 || i + p.len() > s.len() {
        None
    } else if s.subrange(i, i + p.len()) == p {
        Some(i)
    } else {
        find_from(s, p, i + 1)
    }
}

/// The last position of `c` in `s`.
pub open spec fn rfind_char(s: Seq<char>, c: char) -> Option<int>
    decreases s.len(),
{
    if s.len() == 0 {
        None
    } else if s.last() == c {
        Some(s.len() - 1)
    } else {
        rfind_char(s.drop_last(), c)
    }
}

/// Whether `s` is delimited by braces.
pub open spec fn braced(s: Seq<char>) -> bool {
    s.len() > 0 && s[0] == '{' && s.last() == '}'
}

/// The object inside a fenced block: after the first fence, an optional
/// `json` tag and leading white space, up to the next fence, trimmed.
pub open spec fn fenced_body(t: Seq<char>) -> Option<Seq<char>> {
    match find_from(t, "```"@, 0) {
        None => None,
        Some(start) => {
            let after0 = t.subrange(start + 3, t.len() as int);
            let after1 = if after0.len() >= 4 && after0.subrange(0, 4) == "json"@ {
                after0.subrange(4, after0.len() as int)
            } else {
                after0
            };
            let after = trim_start(after1);
            match find_from(after, "```"@, 0) {
                None => None,
                Some(end) => {
                    let body = trim(after.subrange(0, end));
                    if braced(body) {
                        Some(body)
                    } else {
                        None
                    }
                },
            }
        },
    }
}

/// The JSON object in a planner's answer: the whole trimmed answer when it
/// is braced, else a braced fenced block, else the span from the first `{`
/// to the last `}`.
pub open spec fn extract_spec(input: Seq<char>) -> Result<Seq<char>, Seq<char>> {
    let t = trim(input);
    if braced(t) {
        Ok(t)
    } else {
        match fenced_body(t) {
            Some(b) => Ok(b),
            None => match find_from(t, "{"@, 0) {
                None => Err("planner output did not include a JSON object"@),
                Some(first) => match rfind_char(t, '}') {
                    None => Err("planner output did not include a JSON object end"@),
                    Some(last) => if first >= last {
                        Err("planner output JSON boundaries are invalid"@)
                    } else {
                        Ok(t.subrange(first, last + 1))
                    },
                },
            },
        }
    }
}

fn find_from_exec(s: &Vec<char>, p: &Vec<char>, start: usize) -> (r: Option<usize>)
    requires
        start <= s.len(),
    ensures
        match r {
            Some(i) => find_from(s@, p@, start as int) == Some(i as int) && i + p.len() <= s.len(),
            None => find_from(s@, p@, start as int) is None,
        },
{
    let mut i = start;
    while i <= s.len() && s.len() - i >= p.len()
        invariant
            start <= i,
            find_from(s@, p@, start as int) == find_from(s@, p@, i as int),
        decreases s.len() + 1 - i,
    {
        let mut k: usize = 0;
        let mut same = true;
        while k < p.len()
            invariant
                k <= p.len(),
                i + p.len() <= s.len(),
                same == (forall|j: int| 0 <= j < k ==> s@[i + j] == p@[j]),
            decreases p.len() - k,
        {
            if s[i + k] != p[k] {
                same = false;
            }
            k += 1;
        }
        proof {
            if same {
                assert(s@.subrange(i as int, i + p.len()) =~= p@);
            } else {
                let j = choose|j: int| 0 <= j < p.len() && s@[i + j] != p@[j];
                assert(s@.subrange(i as int, i + p.len())[j] != p@[j]);
            }
        }
        if same {
            return Some(i);
        }
        i += 1;
    }
    None
}

fn rfind_char_exec(s: &Vec<char>, c: char) -> (r: Option<usize>)
    ensures
        match r {
            Some(i) => rfind_char(s@, c) == Some(i as int) && i < s.len(),
            None => rfind_char(s@, c) is None,
        },
{
    let mut i: usize = s.len();
    assert(s@.take(i as int) =~= s@);
    while i > 0
        invariant
            i <= s.len(),
            rfind_char(s@, c) == rfind_char(s@.take(i as int), c),
        decreases i,
    {
        proof {
            assert(s@.take(i as int).drop_last() =~= s@.take(i - 1));
        }
        if s[i - 1] == c {
            return Some(i - 1);
        }
        i -= 1;
    }
    None
}

fn sub_chars(s: &Vec<char>, a: usize, b: usize) -> (out: Vec<char>)
    requires
        a <= b <= s.len(),
    ensures
        out@ == s@.subrange(a as int, b as int),
{
    let mut out: Vec<char> = Vec::new();
    let mut j = a;
    while j < b
        invariant
            a <= j <= b <= s.len(),
            out@ == s@.subrange(a as int, j as int),
        decreases b - j,
    {
        out.push(s[j]);
        j += 1;
        assert(out@ =~= s@.subrange(a as int, j as int));
    }
    out
}

fn braced_exec(s: &Vec<char>) -> (r: bool)
    ensures
        r == braced(s@),
{
    s.len() > 0 && s[0] == '{' && s[s.len() - 1] == '}'
}

fn trim_start_chars(s: &Vec<char>) -> (out: Vec<char>)
    ensures
        out@ == trim_start(s@),
{
    let mut lo: usize = 0;
    assert(s@.skip(0) =~= s@);
    while lo < s.len() && crate::text::is_ws_exec(s[lo])
        invariant
            lo <= s.len(),
            trim_start(s@) == trim_start(s@.skip(lo as int)),
        decreases s.len() - lo,
    {
        proof {
            assert(s@.skip(lo as int).drop_first() =~= s@.skip(lo + 1));
        }
        lo += 1;
    }
    proof {
        if lo < s.len() {
            assert(!is_ws(s@.skip(lo as int)[0]));
        } else {
            assert(s@.skip(lo as int) =~= Seq::<char>::empty());
        }
    }
    let out = sub_chars(s, lo, s.len());
    assert(out@ =~= s@.skip(lo as int));
    out
}

/// The JSON object in a planner's answer (see [`extract_spec`]).
pub fn extract_json_object(input: &str) -> (r: Result<String, String>)
    ensures
        match r {
            Ok(s) => extract_spec(input@) == Ok::<Seq<char>, Seq<char>>(s@),
            Err(e) => extract_spec(input@) == Err::<Seq<char>, Seq<char>>(e@),
        },
{
    let cs = chars_of(input);
    let t = trim_chars(&cs);
    if braced_exec(&t) {
        return Ok(string_from(&t));
    }
    let fence = chars_of("```");
    let json_tag = chars_of("json");
    let open = chars_of("{");
    proof {
        reveal_strlit("```");
        reveal_strlit("json");
        reveal_strlit("{");
    }
    if let Some(start) = find_from_exec(&t, &fence, 0) {
        let after0 = sub_chars(&t, start + 3, t.len());
        let tagged = after0.len() >= 4 && after0[0] == 'j' && after0[1] == 's' && after0[2] == 'o'
            && after0[3] == 'n';
        proof {
            if after0.len() >= 4 {
                if tagged {
                    assert(after0@.subrange(0, 4) =~= "json"@);
                } else {
                    assert(after0@.subrange(0, 4) != "json"@) by {
                        if after0@.subrange(0, 4) == "json"@ {
                            assert(after0@.subrange(0, 4)[0] == 'j');
                            assert(after0@.subrange(0, 4)[1] == 's');
                            assert(after0@.subrange(0, 4)[2] == 'o');
                            assert(after0@.subrange(0, 4)[3] == 'n');
                        }
                    };
                }
            }
        }
        let after1 = if tagged {
            sub_chars(&after0, 4, after0.len())
        } else {
            after0
        };
        let after = trim_start_chars(&after1);
        if let Some(end) = find_from_exec(&after, &fence, 0) {
            let body0 = sub_chars(&after, 0, end);
            let body = trim_chars(&body0);
            if braced_exec(&body) {
                return Ok(string_from(&body));
            }
        }
    }
    let first = match find_from_exec(&t, &open, 0) {
        Some(f) => f,
        None => {
            return Err(owned("planner output did not include a JSON object"));
        },
    };
    let last = match rfind_char_exec(&t, '}') {
        Some(l) => l,
        None => {
            return Err(owned("planner output did not include a JSON object end"));
        },
    };
    if first >= last {
        return Err(owned("planner output JSON boundaries are invalid"));
    }
    let span = sub_chars(&t, first, last + 1);
    Ok(string_from(&span))
}

// ----------------------------------------------------------------------
// Checking a plan against a manifest
// ----------------------------------------------------------------------

/// Whether the manifest issued a handle with this reference.
pub open spec fn has_handle(hs: Seq<HandleRefView>, r: Seq<char>) -> bool {
    exists|i: int| 0 <= i < hs.len() && hs[i].ref_id == r
}

/// Whether the manifest issued a selector with this reference.
pub open spec fn has_selector(ss: Seq<SelectorRefView>, r: Seq<char>) -> bool {
    exists|i: int| 0 <= i < ss.len() && ss[i].sel == r
}

/// The register of the first binding that reads an undeclared register.
pub open spec fn first_undeclared(bs: Seq<(Seq<char>, ValueRefView)>, regs: Set<Seq<char>>) -> Option<
    Seq<char>,
>
    decreases bs.len(),
{
    if bs.len() == 0 {
        None
    } else if !regs.contains(bs[0].1.reg) {
        Some(bs[0].1.reg)
    } else {
        first_undeclared(bs.drop_first(), regs)
    }
}

/// The check of one operation against the manifest and the declared registers.
pub open spec fn guard_op(op: OpView, m: PublicManifestView, regs: Set<Seq<char>>) -> Result<(), Seq<char>> {
    match op {
        OpView::Fetch(f) => if has_handle(m.handles, f.handle_ref) {
            Ok(())
        } else {
            Err("invalid plan: unknown handle ref "@ + f.handle_ref)
        },
        OpView::ApplySelector(a) => if has_selector(m.selectors, a.selector_ref) {
            Ok(())
        } else {
            Err("invalid plan: unknown selector ref "@ + a.selector_ref)
        },
        OpView::Resolve(r) => if regs.contains(r.in_reg) {
            Ok(())
        } else {
            Err("invalid plan: input register not defined ("@ + r.in_reg + ")"@)
        },
        OpView::Filter(f) => if regs.contains(f.in_reg) {
            Ok(())
        } else {
            Err("invalid plan: input register not defined ("@ + f.in_reg + ")"@)
        },
        OpView::Join(j) => if regs.contains(j.left_reg) && regs.contains(j.right_reg) {
            Ok(())
        } else {
            Err("invalid plan: join registers not defined"@)
        },
        OpView::Project(p) => if regs.contains(p.in_reg) {
            Ok(())
        } else {
            Err("invalid plan: input register not defined ("@ + p.in_reg + ")"@)
        },
        OpView::AssertOp(a) => match first_undeclared(a.bindings, regs) {
            Some(r) => Err("invalid plan: assert binding register not defined ("@ + r + ")"@),
            None => Ok(()),
        },
    }
}

/// The check of the steps in order: each defines a new, non-blank register
/// and uses only issued references and registers defined so far (or itself).
pub open spec fn guard_steps(steps: Seq<StepView>, m: PublicManifestView) -> Result<Set<Seq<char>>, Seq<char>>
    decreases steps.len(),
{
    if steps.len() == 0 {
        Ok(Set::empty())
    } else {
        match guard_steps(steps.drop_last(), m) {
            Err(e) => Err(e),
            Ok(regs) => {
                let step = steps.last();
                if trim(step.out).len() == 0 {
                    Err("invalid plan: step.out is required"@)
                } else if regs.contains(step.out) {
                    Err("invalid plan: register redefined ("@ + step.out + ")"@)
                } else {
                    let regs2 = regs.insert(step.out);
                    match step.op {
                        None => Err("invalid plan: step.op is required"@),
                        Some(op) => match guard_op(op, m, regs2) {
                            Err(e) => Err(e),
                            Ok(_) => Ok(regs2),
                        },
                    }
                }
            },
        }
    }
}

/// A plan checked against its manifest.
pub open spec fn validate_plan_spec(plan: RmvmPlanView, m: PublicManifestView) -> Result<(), Seq<char>> {
    match guard_steps(plan.steps, m) {
        Ok(_) => Ok(()),
        Err(e) => Err(e),
    }
}

fn has_handle_exec(m: &PublicManifest, r: &str) -> (b: bool)
    ensures
        b == has_handle(m@.handles, r@),
{
    let mut i: usize = 0;
    while i < m.handles.len()
        invariant
            i <= m.handles.len(),
            forall|j: int| 0 <= j < i ==> m@.handles[j].ref_id != r@,
        decreases m.handles.len() - i,
    {
        if str_eq(m.handles[i].ref_id.as_str(), r) {
            assert(m@.handles[i as int].ref_id == r@);
            return true;
        }
        i += 1;
    }
    false
}

fn has_selector_exec(m: &PublicManifest, r: &str) -> (b: bool)
    ensures
        b == has_selector(m@.selectors, r@),
{
    let mut i: usize = 0;
    while i < m.selectors.len()
        invariant
            i <= m.selectors.len(),
            forall|j: int| 0 <= j < i ==> m@.selectors[j].sel != r@,
        decreases m.selectors.len() - i,
    {
        if str_eq(m.selectors[i].sel.as_str(), r) {
            assert(m@.selectors[i as int].sel == r@);
            return true;
        }
        i += 1;
    }
    false
}

fn guard_op_exec(op: &Op, m: &PublicManifest, regs: &Vec<String>) -> (r: Result<(), String>)
    ensures
        match r {
            Ok(_) => guard_op(op@, m@, regs@.map_values(|x: String| x@).to_set()) == Ok::<
                (),
                Seq<char>,
            >(()),
            Err(e) => guard_op(op@, m@, regs@.map_values(|x: String| x@).to_set()) == Err::<
                (),
                Seq<char>,
            >(e@),
        },
{
    match op {
        Op::Fetch(f) => if has_handle_exec(m, f.handle_ref.as_str()) {
            Ok(())
        } else {
            Err(concat2("invalid plan: unknown handle ref ", f.handle_ref.as_str()))
        },
        Op::ApplySelector(a) => if has_selector_exec(m, a.selector_ref.as_str()) {
            Ok(())
        } else {
            Err(concat2("invalid plan: unknown selector ref ", a.selector_ref.as_str()))
        },
        Op::Resolve(x) => if contains_name(regs, x.in_reg.as_str()) {
            Ok(())
        } else {
            Err(concat3("invalid plan: input register not defined (", x.in_reg.as_str(), ")"))
        },
        Op::Filter(x) => if contains_name(regs, x.in_reg.as_str()) {
            Ok(())
        } else {
            Err(concat3("invalid plan: input register not defined (", x.in_reg.as_str(), ")"))
        },
        Op::Join(j) => if contains_name(regs, j.left_reg.as_str()) && contains_name(
            regs,
            j.right_reg.as_str(),
        ) {
            Ok(())
        } else {
            Err(owned("invalid plan: join registers not defined"))
        },
        Op::Project(x) => if contains_name(regs, x.in_reg.as_str()) {
            Ok(())
        } else {
            Err(concat3("invalid plan: input register not defined (", x.in_reg.as_str(), ")"))
        },
        Op::AssertOp(a) => {
            let ghost bs = a.bindings@;
            let ghost rs = regs@.map_values(|x: String| x@).to_set();
            let mut i: usize = 0;
            assert(bs.skip(0) =~= bs);
            while i < a.bindings.len()
                invariant
                    i <= bs.len(),
                    bs == a.bindings@,
                    op@ == OpView::AssertOp(a@),
                    rs == regs@.map_values(|x: String| x@).to_set(),
                    first_undeclared(bs, rs) == first_undeclared(bs.skip(i as int), rs),
                decreases bs.len() - i,
            {
                proof {
                    assert(bs.skip(i as int).drop_first() =~= bs.skip(i + 1));
                    assert(bs.skip(i as int)[0] == bs[i as int]);
                }
                let reg = &a.bindings.value_at(i).reg;
                if !contains_name(regs, reg.as_str()) {
                    return Err(
                        concat3(
                            "invalid plan: assert binding register not defined (",
                            reg.as_str(),
                            ")",
                        ),
                    );
                }
                i += 1;
            }
            assert(bs.skip(i as int) =~= Seq::<(Seq<char>, ValueRefView)>::empty());
            Ok(())
        },
    }
}

proof fn lemma_guard_prefix(steps: Seq<StepView>, k: int, m: PublicManifestView)
    requires
        0 <= k <= steps.len(),
        guard_steps(steps.take(k), m) is Err,
    ensures
        guard_steps(steps, m) == guard_steps(steps.take(k), m),
    decreases steps.len(),
{
    if k == steps.len() {
        assert(steps.take(k) =~= steps);
    } else {
        assert(steps.drop_last().take(k) =~= steps.take(k));
        lemma_guard_prefix(steps.drop_last(), k, m);
    }
}

/// Checks a plan against its manifest (see [`validate_plan_spec`]).
pub fn validate_plan_against_manifest(plan: &RmvmPlan, manifest: &PublicManifest) -> (r: Result<
    (),
    String,
>)
    ensures
        match r {
            Ok(_) => validate_plan_spec(plan@, manifest@) == Ok::<(), Seq<char>>(()),
            Err(e) => validate_plan_spec(plan@, manifest@) == Err::<(), Seq<char>>(e@),
        },
{
    let ghost sv = plan@.steps;
    let mut regs: Vec<String> = Vec::new();
    let mut i: usize = 0;
    assert(sv.take(0) =~= Seq::<StepView>::empty());
    assert(regs@.map_values(|x: String| x@).to_set() =~= Set::<Seq<char>>::empty());
    while i < plan.steps.len()
        invariant
            i <= plan.steps.len(),
            sv == plan@.steps,
            sv.len() == plan.steps.len(),
            guard_steps(sv.take(i as int), manifest@) == Ok::<Set<Seq<char>>, Seq<char>>(
                regs@.map_values(|x: String| x@).to_set(),
            ),
        decreases plan.steps.len() - i,
    {
        let step = &plan.steps[i];
        proof {
            assert(sv.take(i + 1).drop_last() =~= sv.take(i as int));
            assert(sv.take(i + 1).last() == step@);
        }
        if is_blank(step.out.as_str()) {
            proof {
                lemma_guard_prefix(sv, i + 1, manifest@);
            }
            return Err(owned("invalid plan: step.out is required"));
        }
        if contains_name(&regs, step.out.as_str()) {
            proof {
                lemma_guard_prefix(sv, i + 1, manifest@);
            }
            return Err(concat3("invalid plan: register redefined (", step.out.as_str(), ")"));
        }
        let ghost before = regs@;
        regs.push(owned(step.out.as_str()));
        proof {
            assert(regs@.map_values(|x: String| x@) =~= before.map_values(|x: String| x@).push(
                step.out@,
            ));
            before.map_values(|x: String| x@).lemma_push_to_set_commute(step.out@);
        }
        match &step.op {
            None => {
                proof {
                    lemma_guard_prefix(sv, i + 1, manifest@);
                }
                return Err(owned("invalid plan: step.op is required"));
            },
            Some(op) => match guard_op_exec(op, manifest, &regs) {
                Err(e) => {
                    proof {
                        lemma_guard_prefix(sv, i + 1, manifest@);
                    }
                    return Err(e);
                },
                Ok(_) => {},
            },
        }
        i += 1;
    }
    proof {
        assert(sv.take(sv.len() as int) =~= sv);
    }
    Ok(())
}

// ----------------------------------------------------------------------
// The deterministic fallback plan
// ----------------------------------------------------------------------

/// A step of a plan.
pub open spec fn step_of(out: Seq<char>, op: OpView) -> StepView {
    StepView { out, op: Some(op) }
}

/// The fallback plan over a handle: fetch it, project its subject, assert it.
pub open spec fn handle_plan(request_id: Seq<char>, handle_ref: Seq<char>) -> RmvmPlanView {
    RmvmPlanView {
        request_id,
        steps: seq![
            step_of("r0"@, OpView::Fetch(OpFetchView { handle_ref })),
            step_of("r1"@, OpView::Project(OpProjectView { in_reg: "r0"@, field_paths: seq!["meta.subject"@] })),
            step_of("r2"@, OpView::AssertOp(OpAssertView {
                assertion_type: assertion_type_number(AssertionType::AssertWorldFact),
                bindings: seq![("subject"@, ValueRefView { reg: "r1"@, field_path: "meta.subject"@ })],
                citations: Seq::empty(),
            })),
        ],
        outputs: seq![OutputSpecView { reg: "r2"@ }],
    }
}

/// The fallback plan over a selector: apply it to the subject, project the
/// set count, assert it.
pub open spec fn selector_plan(request_id: Seq<char>, sel: Seq<char>, subject: Seq<char>) -> RmvmPlanView {
    RmvmPlanView {
        request_id,
        steps: seq![
            step_of("r0"@, OpView::ApplySelector(OpApplySelectorView {
                selector_ref: sel,
                params: seq![("subject"@, ValueView { v: Some(ValueKindView::S(subject)) })],
            })),
            step_of("r1"@, OpView::Project(OpProjectView { in_reg: "r0"@, field_paths: seq!["set_count"@] })),
            step_of("r2"@, OpView::AssertOp(OpAssertView {
                assertion_type: assertion_type_number(AssertionType::AssertWorldFact),
                bindings: seq![("subject"@, ValueRefView { reg: "r1"@, field_path: "set_count"@ })],
                citations: Seq::empty(),
            })),
        ],
        outputs: seq![OutputSpecView { reg: "r2"@ }],
    }
}

/// The deterministic plan: over the first handle when there is one, else
/// over the first selector.
pub open spec fn deterministic_spec(request_id: Seq<char>, subject: Seq<char>, m: PublicManifestView) -> Result<
    RmvmPlanView,
    Seq<char>,
> {
    if m.handles.len() > 0 {
        Ok(handle_plan(request_id, m.handles[0].ref_id))
    } else if m.selectors.len() > 0 {
        Ok(selector_plan(request_id, m.selectors[0].sel, subject))
    } else {
        Err("manifest has no handles/selectors for deterministic fallback"@)
    }
}

fn single_binding(reg: &str, field_path: &str) -> (m: StrMap<ValueRef>)
    ensures
        m@ == seq![("subject"@, ValueRefView { reg: reg@, field_path: field_path@ })],
{
    let mut m: StrMap<ValueRef> = StrMap::new();
    m.insert(owned("subject"), ValueRef { reg: owned(reg), field_path: owned(field_path) });
    m
}

pub(crate) fn assert_step(reg: &str, field_path: &str) -> (s: Step)
    ensures
        s@ == step_of("r2"@, OpView::AssertOp(OpAssertView {
            assertion_type: assertion_type_number(AssertionType::AssertWorldFact),
            bindings: seq![("subject"@, ValueRefView { reg: reg@, field_path: field_path@ })],
            citations: Seq::empty(),
        })),
{
    let citations: Vec<crate::proto::CitationRef> = Vec::new();
    let s = Step {
        out: owned("r2"),
        op: Some(Op::AssertOp(OpAssert {
            assertion_type: AssertionType::AssertWorldFact.number(),
            bindings: single_binding(reg, field_path),
            citations,
        })),
    };
    assert(s@.op->Some_0->AssertOp_0.citations =~= Seq::<crate::proto::CitationRefView>::empty());
    s
}

pub(crate) fn project_step(field_path: &str) -> (s: Step)
    ensures
        s@ == step_of("r1"@, OpView::Project(OpProjectView { in_reg: "r0"@, field_paths: seq![field_path@] })),
{
    let mut paths: Vec<String> = Vec::new();
    paths.push(owned(field_path));
    let s = Step { out: owned("r1"), op: Some(Op::Project(OpProject { in_reg: owned("r0"), field_paths: paths })) };
    assert(s@.op->Some_0->Project_0.field_paths =~= seq![field_path@]);
    s
}

/// The deterministic plan (see [`deterministic_spec`]).
pub fn deterministic_plan_from_manifest(
    request_id: &str,
    subject: &str,
    manifest: &PublicManifest,
) -> (r: Result<RmvmPlan, String>)
    ensures
        match r {
            Ok(p) => deterministic_spec(request_id@, subject@, manifest@) == Ok::<RmvmPlanView, Seq<char>>(
                p@,
            ),
            Err(e) => deterministic_spec(request_id@, subject@, manifest@) == Err::<
                RmvmPlanView,
                Seq<char>,
            >(e@),
        },
{
    let mut outputs: Vec<OutputSpec> = Vec::new();
    outputs.push(OutputSpec { reg: owned("r2") });
    if manifest.handles.len() > 0 {
        let first = Step {
            out: owned("r0"),
            op: Some(Op::Fetch(OpFetch { handle_ref: owned(manifest.handles[0].ref_id.as_str()) })),
        };
        let mut steps: Vec<Step> = Vec::new();
        steps.push(first);
        steps.push(project_step("meta.subject"));
        steps.push(assert_step("r1", "meta.subject"));
        let p = RmvmPlan { request_id: owned(request_id), steps, outputs };
        assert(p@ =~= handle_plan(request_id@, manifest@.handles[0].ref_id));
        return Ok(p);
    }
    if manifest.selectors.len() > 0 {
        let mut params: StrMap<Value> = StrMap::new();
        params.insert(owned("subject"), Value { v: Some(ValueKind::S(owned(subject))) });
        let first = Step {
            out: owned("r0"),
            op: Some(Op::ApplySelector(OpApplySelector {
                selector_ref: owned(manifest.selectors[0].sel.as_str()),
                params,
            })),
        };
        let mut steps: Vec<Step> = Vec::new();
        steps.push(first);
        steps.push(project_step("set_count"));
        steps.push(assert_step("r1", "set_count"));
        let p = RmvmPlan { request_id: owned(request_id), steps, outputs };
        assert(p@ =~= selector_plan(request_id@, manifest@.selectors[0].sel, subject@));
        return Ok(p);
    }
    Err(owned("manifest has no handles/selectors for deterministic fallback"))
}

proof fn lemma_reg_names()
    ensures
        trim("r0"@).len() != 0,
        trim("r1"@).len() != 0,
        trim("r2"@).len() != 0,
        "r0"@ != "r1"@,
        "r0"@ != "r2"@,
        "r1"@ != "r2"@,
{
    reveal_strlit("r0");
    reveal_strlit("r1");
    reveal_strlit("r2");
    assert(!is_ws('r'));
    assert(trim_start("r0"@) == "r0"@);
    assert(trim_start("r1"@) == "r1"@);
    assert(trim_start("r2"@) == "r2"@);
    assert(!is_ws('0'));
    assert(!is_ws('1'));
    assert(!is_ws('2'));
    assert("r0"@[1] != "r1"@[1]);
    assert("r0"@[1] != "r2"@[1]);
    assert("r1"@[1] != "r2"@[1]);
}

/// The deterministic plan passes the plan check for every manifest that has
/// a handle or a selector.
pub proof fn lemma_deterministic_plan_validates(
    request_id: Seq<char>,
    subject: Seq<char>,
    m: PublicManifestView,
)
    requires
        m.handles.len() > 0 || m.selectors.len() > 0,
    ensures
        deterministic_spec(request_id, subject, m) is Ok,
        validate_plan_spec(deterministic_spec(request_id, subject, m)->Ok_0, m) == Ok::<(), Seq<char>>(
            (),
        ),
{
    lemma_reg_names();
    let p = deterministic_spec(request_id, subject, m)->Ok_0;
    let st = p.steps;
    let s1 = st.take(1);
    let s2 = st.take(2);
    assert(s1.drop_last() =~= Seq::<StepView>::empty());
    assert(s2.drop_last() =~= s1);
    assert(st.drop_last() =~= s2);
    assert(s1.last() == st[0]);
    assert(s2.last() == st[1]);
    let r0 = Set::<Seq<char>>::empty().insert("r0"@);
    let r1 = r0.insert("r1"@);
    if m.handles.len() > 0 {
        assert(has_handle(m.handles, m.handles[0].ref_id));
    } else {
        assert(has_selector(m.selectors, m.selectors[0].sel));
    }
    assert(guard_steps(s1.drop_last(), m) == Ok::<Set<Seq<char>>, Seq<char>>(Set::empty()));
    assert(st[0].out == "r0"@);
    assert(!Set::<Seq<char>>::empty().contains("r0"@));
    assert(guard_op(st[0].op->Some_0, m, r0) == Ok::<(), Seq<char>>(()));
    assert(guard_steps(s1, m) == Ok::<Set<Seq<char>>, Seq<char>>(r0));
    assert(r1.contains("r1"@));
    assert(!r0.contains("r1"@));
    assert(r1.contains("r0"@));
    assert(guard_steps(s2, m) == Ok::<Set<Seq<char>>, Seq<char>>(r1));
    let bs = st[2].op->Some_0->AssertOp_0.bindings;
    assert(bs.drop_first() =~= Seq::<(Seq<char>, ValueRefView)>::empty());
    assert(bs[0].1.reg == "r1"@);
    assert(r1.insert("r2"@).contains("r1"@));
    assert(first_undeclared(bs.drop_first(), r1.insert("r2"@)) is None);
    assert(first_undeclared(bs, r1.insert("r2"@)) is None);
    assert(!r1.contains("r2"@));
}

} // verus!
