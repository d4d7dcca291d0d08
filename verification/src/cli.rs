//! Command-line argument helpers.
use vstd::prelude::*;

use crate::text::{chars_of, string_from, trim, trim_chars};

verus! {

/// The pieces of `s` between commas (one piece when there is no comma).
pub open spec fn comma_pieces(s: Seq<char>) -> Seq<Seq<char>>
    decreases s.len(),
{
    if s.len() == 0 {
        seq![Seq::empty()]
    } else {
        let p = comma_pieces(s.drop_last());
        if s.last() == ',' {
            p.push(Seq::empty())
        } else {
            p.update(p.len() - 1, p.last().push(s.last()))
        }
    }
}

/// The trimmed pieces that are not empty, in order.
pub open spec fn nonblank_trimmed(pieces: Seq<Seq<char>>) -> Seq<Seq<char>>
    decreases pieces.len(),
{
    if pieces.len() == 0 {
        Seq::empty()
    } else if trim(pieces.last()).len() == 0 {
        nonblank_trimmed(pieces.drop_last())
    } else {
        nonblank_trimmed(pieces.drop_last()).push(trim(pieces.last()))
    }
}

/// A comma-separated list: its pieces trimmed, empty ones dropped.
pub open spec fn split_csv_spec(s: Seq<char>) -> Seq<Seq<char>> {
    nonblank_trimmed(comma_pieces(s))
}

proof fn lemma_pieces_nonempty(s: Seq<char>)
    ensures
        comma_pieces(s).len() >= 1,
    decreases s.len(),
{
    if s.len() > 0 {
        lemma_pieces_nonempty(s.drop_last());
    }
}

/// A comma-separated list (see [`split_csv_spec`]).
pub fn split_csv(s: &str) -> (out: Vec<String>)
    ensures
        out@.map_values(|x: String| x@) == split_csv_spec(s@),
{
    let cs = chars_of(s);
    let mut out: Vec<String> = Vec::new();
    let mut cur: Vec<char> = Vec::new();
    let mut i: usize = 0;
    while i < cs.len()
        invariant
            i <= cs.len(),
            cs@ == s@,
            comma_pieces(cs@.take(i as int)).len() >= 1,
            cur@ == comma_pieces(cs@.take(i as int)).last(),
            out@.map_values(|x: String| x@) == nonblank_trimmed(comma_pieces(cs@.take(i as int)).drop_last()),
        decreases cs.len() - i,
    {
        let ghost t = cs@.take(i + 1);
        let ghost p = comma_pieces(cs@.take(i as int));
        proof {
            assert(t.drop_last() =~= cs@.take(i as int));
            assert(t.last() == cs@[i as int]);
            lemma_pieces_nonempty(cs@.take(i as int));
        }
        if cs[i] == ',' {
            let piece = trim_chars(&cur);
            if piece.len() > 0 {
                let ghost before = out@;
                out.push(string_from(&piece));
                proof {
                    assert(out@.map_values(|x: String| x@) =~= before.map_values(|x: String| x@).push(trim(cur@)));
                }
            }
            cur = Vec::new();
            proof {
                assert(comma_pieces(t).drop_last() =~= p);
                assert(p =~= p.drop_last().push(p.last()));
            }
        } else {
            cur.push(cs[i]);
            proof {
                assert(comma_pieces(t).drop_last() =~= p.drop_last());
            }
        }
        i += 1;
    }
    let piece = trim_chars(&cur);
    let ghost p = comma_pieces(cs@);
    proof {
        assert(cs@.take(i as int) =~= cs@);
        assert(p =~= p.drop_last().push(p.last()));
    }
    if piece.len() > 0 {
        let ghost before = out@;
        out.push(string_from(&piece));
        proof {
            assert(out@.map_values(|x: String| x@) =~= before.map_values(|x: String| x@).push(trim(cur@)));
        }
    }
    out
}

} // verus!
