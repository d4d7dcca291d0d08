//! The narrative channel: templates whose only factual content is bindings
//! `{A[i].field}` to assertion fields and `{{macro.name}}` macros. Outside
//! those, a template may hold lower-case letters, white space and `.,!?`.
use vstd::prelude::*;

use crate::digits::{is_decimal_digit, is_decimal_digit_exec};
use crate::kernel::fields::{push_value_text, value_text};
use crate::kernel::regs::{fail, rejected, ExecStop, StopView};
use crate::proto::{ErrorCode, VerifiedAssertion, VerifiedAssertionView};
use crate::smap::smap_get;
use crate::text::{chars_of, is_ws, is_ws_exec, push_char};

verus! {

/// The character classes the template grammar uses.
#[derive(Clone, Copy, PartialEq, Eq, Structural)]
pub enum CharClass {
    /// A Unicode decimal digit.
    Digit,
    /// `[a-zA-Z0-9_]`.
    Ident,
    /// `[a-zA-Z0-9_.-]`.
    MacroTail,
}

/// `[a-zA-Z_]`.
pub open spec fn ident_start(c: char) -> bool {
    ('a' <= c && c <= 'z') || ('A' <= c && c <= 'Z') || c == '_'
}

pub open spec fn in_class(c: char, cls: CharClass) -> bool {
    match cls {
        CharClass::Digit => is_decimal_digit(c),
        CharClass::Ident => ident_start(c) || ('0' <= c && c <= '9'),
        CharClass::MacroTail => ident_start(c) || ('0' <= c && c <= '9') || c == '.' || c == '-',
    }
}

fn ident_start_exec(c: char) -> (r: bool)
    ensures
        r == ident_start(c),
{
    ('a' <= c && c <= 'z') || ('A' <= c && c <= 'Z') || c == '_'
}

fn in_class_exec(c: char, cls: CharClass) -> (r: bool)
    ensures
        r == in_class(c, cls),
{
    match cls {
        CharClass::Digit => is_decimal_digit_exec(c),
        CharClass::Ident => ident_start_exec(c) || ('0' <= c && c <= '9'),
        CharClass::MacroTail => ident_start_exec(c) || ('0' <= c && c <= '9') || c == '.' || c
            == '-',
    }
}

/// The length of the longest run of `cls` characters starting at `i`.
pub open spec fn run(s: Seq<char>, i: int, cls: CharClass) -> nat
    decreases s.len() - i,
{
    if 0 <= i < s.len() && in_class(s[i], cls) {
        1 + run(s, i + 1, cls)
    } else {
        0
    }
}

fn run_exec(s: &Vec<char>, i: usize, cls: CharClass) -> (n: usize)
    requires
        i <= s.len(),
    ensures
        n == run(s@, i as int, cls),
        i + n <= s.len(),
{
    let mut j: usize = i;
    while j < s.len() && in_class_exec(s[j], cls)
        invariant
            i <= j <= s.len(),
            run(s@, i as int, cls) == (j - i) + run(s@, j as int, cls),
        decreases s.len() - j,
    {
        j += 1;
    }
    j - i
}

/// A binding `{A[digits].ident}` at `p`: the number of digits and the
/// length of the identifier after its first character.
pub open spec fn binding_at(s: Seq<char>, p: int) -> Option<(nat, nat)> {
    if 0 <= p && p + 3 <= s.len() && s[p] == '{' && s[p + 1] == 'A' && s[p + 2] == '[' {
        let d = run(s, p + 3, CharClass::Digit);
        let q = p + 3 + d;
        if d >= 1 && q + 3 <= s.len() && s[q] == ']' && s[q + 1] == '.' && ident_start(s[q + 2]) {
            let k = run(s, q + 3, CharClass::Ident);
            let e = q + 3 + k;
            if e < s.len() && s[e] == '}' {
                Some((d, k))
            } else {
                None
            }
        } else {
            None
        }
    } else {
        None
    }
}

/// The length of a binding whose digit run is `d` and identifier tail `k`.
pub open spec fn binding_len(dk: (nat, nat)) -> nat {
    7 + dk.0 + dk.1
}

fn binding_at_exec(s: &Vec<char>, p: usize) -> (r: Option<(usize, usize)>)
    requires
        p <= s.len(),
    ensures
        match r {
            Some((d, k)) => binding_at(s@, p as int) == Some((d as nat, k as nat)),
            None => binding_at(s@, p as int) is None,
        },
{
    if s.len() - p >= 3 && s[p] == '{' && s[p + 1] == 'A' && s[p + 2] == '[' {
        let d = run_exec(s, p + 3, CharClass::Digit);
        let q = p + 3 + d;
        if d >= 1 && s.len() - q >= 3 && s[q] == ']' && s[q + 1] == '.' && ident_start_exec(
            s[q + 2],
        ) {
            let k = run_exec(s, q + 3, CharClass::Ident);
            let e = q + 3 + k;
            if e < s.len() && s[e] == '}' {
                Some((d, k))
            } else {
                None
            }
        } else {
            None
        }
    } else {
        None
    }
}

/// A macro `{{macro.name}}` at `p`: the length of the name after its first character.
pub open spec fn macro_at(s: Seq<char>, p: int) -> Option<nat> {
    if 0 <= p && p + 9 <= s.len() && s[p] == '{' && s[p + 1] == '{' && s[p + 2] == 'm' && s[p + 3]
        == 'a' && s[p + 4] == 'c' && s[p + 5] == 'r' && s[p + 6] == 'o' && s[p + 7] == '.'
        && ident_start(s[p + 8]) {
        let k = run(s, p + 9, CharClass::MacroTail);
        let e = p + 9 + k;
        if e + 2 <= s.len() && s[e] == '}' && s[e + 1] == '}' {
            Some(k)
        } else {
            None
        }
    } else {
        None
    }
}

fn macro_at_exec(s: &Vec<char>, p: usize) -> (r: Option<usize>)
    requires
        p <= s.len(),
    ensures
        match r {
            Some(k) => macro_at(s@, p as int) == Some(k as nat),
            None => macro_at(s@, p as int) is None,
        },
{
    if s.len() - p >= 9 && s[p] == '{' && s[p + 1] == '{' && s[p + 2] == 'm' && s[p + 3] == 'a'
        && s[p + 4] == 'c' && s[p + 5] == 'r' && s[p + 6] == 'o' && s[p + 7] == '.'
        && ident_start_exec(s[p + 8]) {
        let k = run_exec(s, p + 9, CharClass::MacroTail);
        let e = p + 9 + k;
        if s.len() - e >= 2 && s[e] == '}' && s[e + 1] == '}' {
            Some(k)
        } else {
            None
        }
    } else {
        None
    }
}

/// `s` from `p` on with every binding removed, matches taken left to right.
pub open spec fn strip_bindings(s: Seq<char>, p: int) -> Seq<char>
    decreases s.len() - p,
{
    if p < 0 || p >= s.len() {
        Seq::empty()
    } else {
        match binding_at(s, p) {
            Some(dk) => strip_bindings(s, p + binding_len(dk)),
            None => seq![s[p]] + strip_bindings(s, p + 1),
        }
    }
}

/// `s` from `p` on with every macro removed, matches taken left to right.
pub open spec fn strip_macros(s: Seq<char>, p: int) -> Seq<char>
    decreases s.len() - p,
{
    if p < 0 || p >= s.len() {
        Seq::empty()
    } else {
        match macro_at(s, p) {
            Some(k) => strip_macros(s, p + 11 + k),
            None => seq![s[p]] + strip_macros(s, p + 1),
        }
    }
}

/// The characters allowed outside bindings and macros.
pub open spec fn narrative_char(c: char) -> bool {
    ('a' <= c && c <= 'z') || is_ws(c) || c == '.' || c == ',' || c == '!' || c == '?'
}

/// A template passes the grammar guard when, once its bindings and then its
/// macros are removed, only allowed characters remain.
pub open spec fn valid_template(t: Seq<char>) -> bool {
    let rest = strip_macros(strip_bindings(t, 0), 0);
    forall|i: int| 0 <= i < rest.len() ==> narrative_char(#[trigger] rest[i])
}

fn strip_bindings_exec(s: &Vec<char>) -> (out: Vec<char>)
    ensures
        out@ == strip_bindings(s@, 0),
{
    let mut out: Vec<char> = Vec::new();
    let mut p: usize = 0;
    while p < s.len()
        invariant
            p <= s.len(),
            strip_bindings(s@, 0) == out@ + strip_bindings(s@, p as int),
        decreases s.len() - p,
    {
        match binding_at_exec(s, p) {
            Some((d, k)) => {
                p = p + 7 + d + k;
            },
            None => {
                out.push(s[p]);
                assert(strip_bindings(s@, 0) == out@ + strip_bindings(s@, p + 1));
                p = p + 1;
            },
        }
    }
    assert(strip_bindings(s@, p as int) =~= Seq::<char>::empty());
    assert(out@ + Seq::<char>::empty() =~= out@);
    out
}

fn strip_macros_exec(s: &Vec<char>) -> (out: Vec<char>)
    ensures
        out@ == strip_macros(s@, 0),
{
    let mut out: Vec<char> = Vec::new();
    let mut p: usize = 0;
    while p < s.len()
        invariant
            p <= s.len(),
            strip_macros(s@, 0) == out@ + strip_macros(s@, p as int),
        decreases s.len() - p,
    {
        match macro_at_exec(s, p) {
            Some(k) => {
                p = p + 11 + k;
            },
            None => {
                out.push(s[p]);
                assert(strip_macros(s@, 0) == out@ + strip_macros(s@, p + 1));
                p = p + 1;
            },
        }
    }
    assert(strip_macros(s@, p as int) =~= Seq::<char>::empty());
    assert(out@ + Seq::<char>::empty() =~= out@);
    out
}

fn narrative_char_exec(c: char) -> (r: bool)
    ensures
        r == narrative_char(c),
{
    ('a' <= c && c <= 'z') || is_ws_exec(c) || c == '.' || c == ',' || c == '!' || c == '?'
}

/// The grammar guard of the narrative channel (see [`valid_template`]).
pub fn valid_narrative_template(template: &str) -> (r: bool)
    ensures
        r == valid_template(template@),
{
    let cs = chars_of(template);
    let stripped = strip_bindings_exec(&cs);
    let rest = strip_macros_exec(&stripped);
    let mut i: usize = 0;
    while i < rest.len()
        invariant
            i <= rest.len(),
            rest@ == strip_macros(strip_bindings(template@, 0), 0),
            forall|j: int| 0 <= j < i ==> narrative_char(#[trigger] rest@[j]),
        decreases rest.len() - i,
    {
        if !narrative_char_exec(rest[i]) {
            assert(!narrative_char(rest@[i as int]));
            return false;
        }
        i += 1;
    }
    true
}

/// The number that ASCII decimal digits denote.
pub open spec fn ascii_value(ds: Seq<char>) -> nat
    decreases ds.len(),
{
    if ds.len() == 0 {
        0
    } else {
        ascii_value(ds.drop_last()) * 10 + ((ds.last() as int) - 48) as nat
    }
}

/// Whether every character is an ASCII digit.
pub open spec fn all_ascii_digits(ds: Seq<char>) -> bool {
    forall|i: int| 0 <= i < ds.len() ==> '0' <= #[trigger] ds[i] && ds[i] <= '9'
}

/// The index a binding's digits give: they must be ASCII digits whose value
/// fits in a `usize` (other decimal digits match the grammar but do not parse).
pub open spec fn binding_index(ds: Seq<char>) -> Option<nat> {
    if all_ascii_digits(ds) && ascii_value(ds) <= usize::MAX {
        Some(ascii_value(ds))
    } else {
        None
    }
}

/// The text a binding at `p` renders to: the named field of the indexed assertion.
pub open spec fn binding_text(
    s: Seq<char>,
    p: int,
    dk: (nat, nat),
    asserts: Seq<VerifiedAssertionView>,
) -> Result<Seq<char>, StopView> {
    let ds = s.subrange(p + 3, p + 3 + dk.0);
    let field = s.subrange(p + 5 + dk.0, p + 6 + dk.0 + dk.1);
    match binding_index(ds) {
        None => Err(rejected(ErrorCode::SchemaViolation, "invalid narrative assertion index")),
        Some(idx) => if idx < asserts.len() {
            match smap_get(asserts[idx as int].fields, field) {
                Some(v) => Ok(value_text(v)),
                None => Err(rejected(ErrorCode::FieldRedacted, "narrative binding field missing")),
            }
        } else {
            Err(rejected(ErrorCode::FieldRedacted, "narrative binding field missing"))
        },
    }
}

/// A template rendered from `p` on: each binding replaced by its field's
/// text, everything else kept; the leftmost failing binding decides.
pub open spec fn render_from(s: Seq<char>, p: int, asserts: Seq<VerifiedAssertionView>) -> Result<
    Seq<char>,
    StopView,
>
    decreases s.len() - p,
{
    if p < 0 || p >= s.len() {
        Ok(Seq::empty())
    } else {
        match binding_at(s, p) {
            Some(dk) => match binding_text(s, p, dk, asserts) {
                Err(e) => Err(e),
                Ok(t) => match render_from(s, p + binding_len(dk), asserts) {
                    Err(e) => Err(e),
                    Ok(r) => Ok(t + r),
                },
            },
            None => match render_from(s, p + 1, asserts) {
                Err(e) => Err(e),
                Ok(r) => Ok(seq![s[p]] + r),
            },
        }
    }
}

proof fn lemma_ascii_value_prefix(ds: Seq<char>, j: int)
    requires
        all_ascii_digits(ds),
        0 <= j <= ds.len(),
    ensures
        ascii_value(ds.take(j)) <= ascii_value(ds),
    decreases ds.len(),
{
    if j < ds.len() {
        assert(all_ascii_digits(ds.drop_last()));
        assert(ds.drop_last().take(j) =~= ds.take(j));
        lemma_ascii_value_prefix(ds.drop_last(), j);
        assert('0' <= ds[ds.len() - 1]);
    } else {
        assert(ds.take(j) =~= ds);
    }
}

/// The index written by `s[a..b]` (see [`binding_index`]).
fn parse_index(s: &Vec<char>, a: usize, b: usize) -> (r: Option<usize>)
    requires
        a <= b <= s.len(),
    ensures
        match r {
            Some(i) => binding_index(s@.subrange(a as int, b as int)) == Some(i as nat),
            None => binding_index(s@.subrange(a as int, b as int)) is None,
        },
{
    let ghost ds = s@.subrange(a as int, b as int);
    let mut acc: usize = 0;
    let mut j: usize = a;
    while j < b
        invariant
            a <= j <= b <= s.len(),
            ds == s@.subrange(a as int, b as int),
            all_ascii_digits(s@.subrange(a as int, j as int)),
            acc == ascii_value(s@.subrange(a as int, j as int)),
        decreases b - j,
    {
        let c = s[j];
        proof {
            assert(s@.subrange(a as int, j + 1).drop_last() =~= s@.subrange(a as int, j as int));
            assert(ds.take(j + 1 - a) =~= s@.subrange(a as int, j + 1));
        }
        if !('0' <= c && c <= '9') {
            assert(ds[j - a] == c);
            return None;
        }
        let digit = (c as u32 - 48) as usize;
        let next = match acc.checked_mul(10) {
            Some(m) => m.checked_add(digit),
            None => None,
        };
        match next {
            Some(n) => {
                acc = n;
            },
            None => {
                proof {
                    if all_ascii_digits(ds) {
                        lemma_ascii_value_prefix(ds, j + 1 - a);
                    }
                }
                return None;
            },
        }
        j += 1;
    }
    assert(ds =~= s@.subrange(a as int, j as int));
    Some(acc)
}

/// The characters `s[a..b]` as a string.
fn chars_range(s: &Vec<char>, a: usize, b: usize) -> (out: String)
    requires
        a <= b <= s.len(),
    ensures
        out@ == s@.subrange(a as int, b as int),
{
    let mut out = String::new();
    let mut j: usize = a;
    while j < b
        invariant
            a <= j <= b <= s.len(),
            out@ == s@.subrange(a as int, j as int),
        decreases b - j,
    {
        push_char(&mut out, s[j]);
        j += 1;
        assert(out@ =~= s@.subrange(a as int, j as int));
    }
    out
}

/// Renders a narrative template against the assertions (see [`render_from`]).
pub fn render_narrative_template(template: &str, assertions: &Vec<VerifiedAssertion>) -> (r: Result<
    String,
    ExecStop,
>)
    ensures
        match r {
            Ok(s) => render_from(
                template@,
                0,
                assertions@.map_values(|a: VerifiedAssertion| a@),
            ) == Ok::<Seq<char>, StopView>(s@),
            Err(e) => render_from(
                template@,
                0,
                assertions@.map_values(|a: VerifiedAssertion| a@),
            ) == Err::<Seq<char>, StopView>(e@),
        },
{
    let ghost av = assertions@.map_values(|a: VerifiedAssertion| a@);
    let cs = chars_of(template);
    let mut out = String::new();
    let mut p: usize = 0;
    while p < cs.len()
        invariant
            p <= cs.len(),
            cs@ == template@,
            av == assertions@.map_values(|a: VerifiedAssertion| a@),
            render_from(cs@, 0, av) == match render_from(cs@, p as int, av) {
                Ok(r) => Ok(out@ + r),
                Err(e) => Err(e),
            },
        decreases cs.len() - p,
    {
        match binding_at_exec(&cs, p) {
            Some((d, k)) => {
                let ghost dk = (d as nat, k as nat);
                let ghost t = binding_text(cs@, p as int, dk, av);
                let idx = match parse_index(&cs, p + 3, p + 3 + d) {
                    Some(i) => i,
                    None => {
                        return Err(
                            fail(ErrorCode::SchemaViolation, "invalid narrative assertion index"),
                        );
                    },
                };
                let field = chars_range(&cs, p + 5 + d, p + 6 + d + k);
                if idx >= assertions.len() {
                    return Err(fail(ErrorCode::FieldRedacted, "narrative binding field missing"));
                }
                let ghost before = out@;
                match assertions[idx].fields.get(field.as_str()) {
                    Some(v) => {
                        push_value_text(&mut out, v);
                    },
                    None => {
                        return Err(
                            fail(ErrorCode::FieldRedacted, "narrative binding field missing"),
                        );
                    },
                }
                proof {
                    assert(t == Ok::<Seq<char>, StopView>(out@.subrange(before.len() as int, out@.len() as int))) by {
                        assert(out@.subrange(before.len() as int, out@.len() as int) =~= value_text(
                            smap_get(av[idx as int].fields, field@)->Some_0,
                        ));
                    };
                    let tt = out@.subrange(before.len() as int, out@.len() as int);
                    assert(out@ =~= before + tt);
                    match render_from(cs@, p + 7 + d + k, av) {
                        Ok(r) => {
                            assert(before + (tt + r) =~= out@ + r);
                        },
                        Err(e) => {},
                    }
                }
                p = p + 7 + d + k;
            },
            None => {
                let ghost before = out@;
                push_char(&mut out, cs[p]);
                proof {
                    match render_from(cs@, p + 1, av) {
                        Ok(r) => {
                            assert(before + (seq![cs@[p as int]] + r) =~= out@ + r);
                        },
                        Err(e) => {},
                    }
                }
                p = p + 1;
            },
        }
    }
    assert(out@ + Seq::<char>::empty() =~= out@);
    Ok(out)
}

} // verus!
