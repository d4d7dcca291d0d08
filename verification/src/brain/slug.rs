//! Brain names turned into identifier slugs.
use vstd::prelude::*;

use crate::text::{ascii_lower, ascii_lower_exec, chars_of, push_char};

verus! {

/// ASCII letters and digits (`char::is_ascii_alphanumeric`).
pub open spec fn is_ascii_alnum(c: char) -> bool {
    ('a' <= c && c <= 'z') || ('A' <= c && c <= 'Z') || ('0' <= c && c <= '9')
}

/// What a character becomes in a slug: letters and digits in lower case,
/// anything else a dash.
pub open spec fn slug_char(c: char) -> char {
    if is_ascii_alnum(c) {
        ascii_lower(c)
    } else {
        '-'
    }
}

/// The characters mapped left to right with runs of dashes collapsed to
/// one, and whether the last one written is a dash.
pub open spec fn slug_run(s: Seq<char>) -> (Seq<char>, bool)
    decreases s.len(),
{
    if s.len() == 0 {
        (Seq::empty(), false)
    } else {
        let (out, prev_dash) = slug_run(s.drop_last());
        let m = slug_char(s.last());
        if m == '-' {
            if prev_dash {
                (out, true)
            } else {
                (out.push('-'), true)
            }
        } else {
            (out.push(m), false)
        }
    }
}

/// `s` without its leading dashes.
pub open spec fn trim_start_dashes(s: Seq<char>) -> Seq<char>
    decreases s.len(),
{
    if s.len() > 0 && s[0] == '-' {
        trim_start_dashes(s.drop_first())
    } else {
        s
    }
}

/// `s` without its trailing dashes.
pub open spec fn trim_end_dashes(s: Seq<char>) -> Seq<char>
    decreases s.len(),
{
    if s.len() > 0 && s.last() == '-' {
        trim_end_dashes(s.drop_last())
    } else {
        s
    }
}

/// The slug of a name: its collapsed mapping with dashes trimmed from both
/// ends.
pub open spec fn slugify_spec(s: Seq<char>) -> Seq<char> {
    trim_end_dashes(trim_start_dashes(slug_run(s).0))
}

/// The characters a slug is made of: lower-case ASCII letters, digits and
/// dashes.
pub open spec fn slug_alphabet(c: char) -> bool {
    ('a' <= c && c <= 'z') || ('0' <= c && c <= '9') || c == '-'
}

/// A slug: made of its alphabet, with no dash at either end and never two
/// dashes in a row.
pub open spec fn is_slug(s: Seq<char>) -> bool {
    &&& forall|i: int| 0 <= i < s.len() ==> slug_alphabet(#[trigger] s[i])
    &&& (s.len() > 0 ==> s[0] != '-' && s.last() != '-')
    &&& forall|i: int| 0 <= i < s.len() - 1 ==> !(#[trigger] s[i] == '-' && s[i + 1] == '-')
}

/// Dash-free runs: what `slug_run` writes.
proof fn lemma_slug_run_shape(s: Seq<char>)
    ensures
        forall|i: int| 0 <= i < slug_run(s).0.len() ==> slug_alphabet(#[trigger] slug_run(s).0[i]),
        forall|i: int|
            0 <= i < slug_run(s).0.len() - 1 ==> !(#[trigger] slug_run(s).0[i] == '-' && slug_run(
                s,
            ).0[i + 1] == '-'),
        slug_run(s).1 <==> (slug_run(s).0.len() > 0 && slug_run(s).0.last() == '-'),
    decreases s.len(),
{
    if s.len() > 0 {
        lemma_slug_run_shape(s.drop_last());
        let (o, p) = slug_run(s.drop_last());
        let m = slug_char(s.last());
        assert(slug_alphabet(m));
        let r = slug_run(s).0;
        assert forall|i: int| 0 <= i < r.len() implies slug_alphabet(#[trigger] r[i]) by {
            if i < o.len() {
                assert(r[i] == o[i]);
            }
        };
        assert forall|i: int| 0 <= i < r.len() - 1 implies !(#[trigger] r[i] == '-' && r[i + 1] == '-') by {
            if i + 1 < o.len() {
                assert(r[i] == o[i] && r[i + 1] == o[i + 1]);
            }
        };
    }
}

/// Trimming leading dashes keeps a suffix and leaves no leading dash.
proof fn lemma_trim_start(s: Seq<char>)
    ensures
        exists|k: int| 0 <= k <= s.len() && trim_start_dashes(s) == #[trigger] s.skip(k),
        trim_start_dashes(s).len() > 0 ==> trim_start_dashes(s)[0] != '-',
    decreases s.len(),
{
    if s.len() > 0 && s[0] == '-' {
        lemma_trim_start(s.drop_first());
        let k = choose|k: int| 0 <= k <= s.drop_first().len() && trim_start_dashes(s.drop_first()) == #[trigger] s.drop_first().skip(k);
        assert(s.drop_first().skip(k) =~= s.skip(k + 1));
    } else {
        assert(s.skip(0) =~= s);
    }
}

/// Trimming trailing dashes keeps a prefix and leaves no trailing dash.
proof fn lemma_trim_end(s: Seq<char>)
    ensures
        exists|k: int| 0 <= k <= s.len() && trim_end_dashes(s) == #[trigger] s.take(k),
        trim_end_dashes(s).len() > 0 ==> trim_end_dashes(s).last() != '-',
    decreases s.len(),
{
    if s.len() > 0 && s.last() == '-' {
        lemma_trim_end(s.drop_last());
        let k = choose|k: int| 0 <= k <= s.drop_last().len() && trim_end_dashes(s.drop_last()) == #[trigger] s.drop_last().take(k);
        assert(s.drop_last().take(k) =~= s.take(k));
    } else {
        assert(s.take(s.len() as int) =~= s);
    }
}

/// Every slug is one: made of lower-case letters, digits and single dashes
/// between them.
pub proof fn lemma_slugify_is_slug(s: Seq<char>)
    ensures
        is_slug(slugify_spec(s)),
{
    let r = slug_run(s).0;
    lemma_slug_run_shape(s);
    lemma_trim_start(r);
    let a = trim_start_dashes(r);
    let k = choose|k: int| 0 <= k <= r.len() && a == #[trigger] r.skip(k);
    lemma_trim_end(a);
    let b = trim_end_dashes(a);
    let j = choose|j: int| 0 <= j <= a.len() && b == #[trigger] a.take(j);
    assert forall|i: int| 0 <= i < b.len() implies slug_alphabet(#[trigger] b[i]) by {
        assert(b[i] == r[i + k]);
    };
    assert forall|i: int| 0 <= i < b.len() - 1 implies !(#[trigger] b[i] == '-' && b[i + 1] == '-') by {
        assert(b[i] == r[i + k] && b[i + 1] == r[i + 1 + k]);
    };
    if b.len() > 0 {
        assert(b[0] == a[0]);
    }
}

/// On a slug the collapsed mapping changes nothing.
proof fn lemma_slug_run_of_slug_chars(t: Seq<char>)
    requires
        forall|i: int| 0 <= i < t.len() ==> slug_alphabet(#[trigger] t[i]),
        forall|i: int| 0 <= i < t.len() - 1 ==> !(#[trigger] t[i] == '-' && t[i + 1] == '-'),
    ensures
        slug_run(t).0 == t,
        slug_run(t).1 <==> (t.len() > 0 && t.last() == '-'),
    decreases t.len(),
{
    if t.len() > 0 {
        let d = t.drop_last();
        assert forall|i: int| 0 <= i < d.len() - 1 implies !(#[trigger] d[i] == '-' && d[i + 1] == '-') by {
            assert(d[i] == t[i] && d[i + 1] == t[i + 1]);
        };
        lemma_slug_run_of_slug_chars(d);
        let c = t.last();
        assert(slug_alphabet(c));
        assert(slug_char(c) == c);
        if c == '-' && d.len() > 0 {
            assert(t[t.len() - 2] == d.last());
        }
        assert(d.push(c) =~= t);
    }
}

/// Slugifying a slug gives it back, so slugifying twice is slugifying once.
pub proof fn lemma_slugify_idempotent(s: Seq<char>)
    ensures
        slugify_spec(slugify_spec(s)) == slugify_spec(s),
{
    let t = slugify_spec(s);
    lemma_slugify_is_slug(s);
    lemma_slug_run_of_slug_chars(t);
    if t.len() > 0 {
        assert(trim_start_dashes(t) == t);
        assert(trim_end_dashes(t) == t);
    }
}

/// The slug of a brain name (see [`slugify_spec`]).
pub fn slugify(input: &str) -> (out: String)
    ensures
        out@ == slugify_spec(input@),
{
    let cs = chars_of(input);
    let mut mapped: Vec<char> = Vec::new();
    let mut prev_dash = false;
    let mut i: usize = 0;
    while i < cs.len()
        invariant
            i <= cs.len(),
            (mapped@, prev_dash) == slug_run(cs@.take(i as int)),
        decreases cs.len() - i,
    {
        let c = cs[i];
        let m = if ('a' <= c && c <= 'z') || ('A' <= c && c <= 'Z') || ('0' <= c && c <= '9') {
            ascii_lower_exec(c)
        } else {
            '-'
        };
        proof {
            assert(cs@.take(i + 1).drop_last() =~= cs@.take(i as int));
        }
        if m == '-' {
            if !prev_dash {
                mapped.push('-');
                prev_dash = true;
            }
        } else {
            mapped.push(m);
            prev_dash = false;
        }
        i += 1;
    }
    assert(cs@.take(cs.len() as int) =~= cs@);
    let ghost r = mapped@;
    let mut start: usize = 0;
    assert(r.skip(0) =~= r);
    while start < mapped.len() && mapped[start] == '-'
        invariant
            start <= mapped.len(),
            mapped@ == r,
            trim_start_dashes(r) == trim_start_dashes(r.skip(start as int)),
        decreases mapped.len() - start,
    {
        assert(r.skip(start as int).drop_first() =~= r.skip(start + 1));
        start += 1;
    }
    assert(trim_start_dashes(r.skip(start as int)) == r.skip(start as int));
    let mut end: usize = mapped.len();
    assert(r.skip(start as int).take((end - start) as int) =~= r.skip(start as int));
    while end > start && mapped[end - 1] == '-'
        invariant
            start <= end <= mapped.len(),
            mapped@ == r,
            trim_end_dashes(r.skip(start as int)) == trim_end_dashes(r.skip(start as int).take((end - start) as int)),
        decreases end,
    {
        let ghost t = r.skip(start as int).take((end - start) as int);
        assert(t.last() == mapped[end - 1]);
        assert(t.drop_last() =~= r.skip(start as int).take((end - 1 - start) as int));
        end -= 1;
    }
    let mut out = String::new();
    let mut j: usize = start;
    while j < end
        invariant
            start <= j <= end <= mapped.len(),
            mapped@ == r,
            out@ == r.subrange(start as int, j as int),
        decreases end - j,
    {
        push_char(&mut out, mapped[j]);
        assert(out@ =~= r.subrange(start as int, j + 1));
        j += 1;
    }
    proof {
        let t = r.skip(start as int).take((end - start) as int);
        assert(t =~= r.subrange(start as int, end as int));
        if t.len() > 0 {
            assert(t.last() == mapped[end - 1]);
        }
    }
    out
}

} // verus!
