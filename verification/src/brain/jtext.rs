//! Compact JSON text of strings and flat objects, written as `serde_json`
//! writes it: quotes and backslashes escaped, the short escapes for
//! backspace, form feed, newline, carriage return and tab, `\u00xx` (lower
//! case hex) for the other control characters, everything else as is.
use vstd::prelude::*;

use crate::hash::{hex_digit, hex_digit_exec};
use crate::text::{chars_of, push_char, push_str};

verus! {

/// The JSON text of one character inside a string literal.
pub open spec fn json_escape_char(c: char) -> Seq<char> {
    if c == '"' {
        seq!['\\', '"']
    } else if c == '\\' {
        seq!['\\', '\\']
    } else if c == '\n' {
        seq!['\\', 'n']
    } else if c == '\r' {
        seq!['\\', 'r']
    } else if c == '\t' {
        seq!['\\', 't']
    } else if c == '\u{8}' {
        seq!['\\', 'b']
    } else if c == '\u{c}' {
        seq!['\\', 'f']
    } else if (c as u32) < 0x20 {
        seq!['\\', 'u', '0', '0', hex_digit((c as u32 / 16) as nat), hex_digit((c as u32 % 16) as nat)]
    } else {
        seq![c]
    }
}

/// The escaped characters of a string.
pub open spec fn json_escape(s: Seq<char>) -> Seq<char>
    decreases s.len(),
{
    if s.len() == 0 {
        Seq::empty()
    } else {
        json_escape(s.drop_last()) + json_escape_char(s.last())
    }
}

/// A JSON string literal.
pub open spec fn json_quote(s: Seq<char>) -> Seq<char> {
    seq!['"'] + json_escape(s) + seq!['"']
}

/// One member of an object: the quoted key, a colon and the value's text.
pub open spec fn json_member(k: Seq<char>, v: Seq<char>) -> Seq<char> {
    json_quote(k) + seq![':'] + v
}

/// The members of an object, comma separated, in the order given.
pub open spec fn json_members(entries: Seq<(Seq<char>, Seq<char>)>) -> Seq<char>
    decreases entries.len(),
{
    if entries.len() == 0 {
        Seq::empty()
    } else if entries.len() == 1 {
        json_member(entries[0].0, entries[0].1)
    } else {
        json_members(entries.drop_last()) + seq![','] + json_member(
            entries.last().0,
            entries.last().1,
        )
    }
}

/// A JSON object with the given members (keys in the order given, which
/// for `serde_json`'s map is key order).
pub open spec fn json_object(entries: Seq<(Seq<char>, Seq<char>)>) -> Seq<char> {
    seq!['{'] + json_members(entries) + seq!['}']
}

/// The JSON text of an optional string: the literal, or `null`.
pub open spec fn json_opt_str(s: Option<Seq<char>>) -> Seq<char> {
    match s {
        Some(v) => json_quote(v),
        None => seq!['n', 'u', 'l', 'l'],
    }
}

fn push_escaped_char(out: &mut String, c: char)
    ensures
        final(out)@ == old(out)@ + json_escape_char(c),
{
    let ghost before = out@;
    if c == '"' {
        push_char(out, '\\');
        push_char(out, '"');
    } else if c == '\\' {
        push_char(out, '\\');
        push_char(out, '\\');
    } else if c == '\n' {
        push_char(out, '\\');
        push_char(out, 'n');
    } else if c == '\r' {
        push_char(out, '\\');
        push_char(out, 'r');
    } else if c == '\t' {
        push_char(out, '\\');
        push_char(out, 't');
    } else if c == '\u{8}' {
        push_char(out, '\\');
        push_char(out, 'b');
    } else if c == '\u{c}' {
        push_char(out, '\\');
        push_char(out, 'f');
    } else if (c as u32) < 0x20 {
        let code = c as u32;
        push_char(out, '\\');
        push_char(out, 'u');
        push_char(out, '0');
        push_char(out, '0');
        push_char(out, hex_digit_exec((code / 16) as u8));
        push_char(out, hex_digit_exec((code % 16) as u8));
    } else {
        push_char(out, c);
    }
    assert(out@ =~= before + json_escape_char(c));
}

/// Appends the JSON string literal of `s`.
pub fn push_json_quoted(out: &mut String, s: &str)
    ensures
        final(out)@ == old(out)@ + json_quote(s@),
{
    let ghost before = out@;
    let cs = chars_of(s);
    push_char(out, '"');
    let mut i: usize = 0;
    while i < cs.len()
        invariant
            i <= cs.len(),
            out@ == before + seq!['"'] + json_escape(cs@.take(i as int)),
        decreases cs.len() - i,
    {
        push_escaped_char(out, cs[i]);
        proof {
            let t = cs@.take(i + 1);
            assert(t.drop_last() =~= cs@.take(i as int));
            assert(t.last() == cs@[i as int]);
        }
        i += 1;
    }
    push_char(out, '"');
    assert(cs@.take(cs.len() as int) =~= cs@);
    assert(out@ =~= before + json_quote(s@));
}

/// The JSON object text with the given members.
pub fn json_object_text(entries: &Vec<(String, String)>) -> (out: String)
    ensures
        out@ == json_object(entries@.map_values(|e: (String, String)| (e.0@, e.1@))),
{
    let ghost m = entries@.map_values(|e: (String, String)| (e.0@, e.1@));
    let mut out = String::new();
    push_char(&mut out, '{');
    let mut i: usize = 0;
    while i < entries.len()
        invariant
            i <= entries.len(),
            m == entries@.map_values(|e: (String, String)| (e.0@, e.1@)),
            out@ == seq!['{'] + json_members(m.take(i as int)),
        decreases entries.len() - i,
    {
        let ghost before = out@;
        if i > 0 {
            push_char(&mut out, ',');
        }
        push_json_quoted(&mut out, entries[i].0.as_str());
        push_char(&mut out, ':');
        push_str(&mut out, entries[i].1.as_str());
        proof {
            let t = m.take(i + 1);
            assert(t.drop_last() =~= m.take(i as int));
            assert(t.last() == m[i as int]);
            if i == 0 {
                assert(t.len() == 1);
                assert(t[0] == m[0]);
            }
            assert(out@ =~= seq!['{'] + json_members(t));
        }
        i += 1;
    }
    push_char(&mut out, '}');
    assert(m.take(entries.len() as int) =~= m);
    assert(out@ =~= json_object(m));
    out
}

} // verus!
