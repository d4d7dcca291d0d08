//! The assertion Merkle tree: SHA-256 over canonical assertion bytes, an odd
//! node paired with itself, and one inclusion path per assertion.
use vstd::prelude::*;

use crate::hash::{hex_encode, hex_lower, sha256, sha256_digest, sha256_hex};
use crate::proto::{
    AssertionMerkleProof, AssertionMerkleProofView, InclusionProof, InclusionProofView,
    VerifiedAssertion, VerifiedAssertionView,
};
use crate::text::{join, join_strings};
use crate::wire::{canonical_assertion_bytes, canonical_bytes_spec, push_bytes};
use vstd::utf8::encode_utf8;

verus! {

/// The parent of two nodes.
pub open spec fn hash_pair(l: Seq<u8>, r: Seq<u8>) -> Seq<u8> {
    sha256_digest(l + r)
}

/// The right partner of node `2 * i` in a level of `n` nodes: the next node,
/// or the node itself when it is the last of an odd level.
pub open spec fn right_of(n: int, i: int) -> int {
    if 2 * i + 1 < n {
        2 * i + 1
    } else {
        2 * i
    }
}

/// The level above `level`.
pub open spec fn next_level(level: Seq<Seq<u8>>) -> Seq<Seq<u8>> {
    Seq::new(
        ((level.len() + 1) / 2) as nat,
        |i: int| hash_pair(level[2 * i], level[right_of(level.len() as int, i)]),
    )
}

/// All levels from `level` up to the root level (which has one node, or
/// none for an empty tree).
pub open spec fn tree_levels(level: Seq<Seq<u8>>) -> Seq<Seq<Seq<u8>>>
    decreases level.len(),
{
    if level.len() <= 1 {
        seq![level]
    } else {
        seq![level] + tree_levels(next_level(level))
    }
}

/// The sibling of node `cur` in a level of `n` nodes.
pub open spec fn sibling(n: int, cur: int) -> int {
    if cur % 2 == 0 {
        if cur + 1 < n {
            cur + 1
        } else {
            cur
        }
    } else {
        cur - 1
    }
}

/// The siblings met on the way from node `cur` of level `k` to the root.
pub open spec fn path_from(levels: Seq<Seq<Seq<u8>>>, k: int, cur: int) -> Seq<Seq<u8>>
    decreases levels.len() - k,
{
    if k < 0 || k + 1 >= levels.len() {
        Seq::empty()
    } else {
        seq![levels[k][sibling(levels[k].len() as int, cur)]] + path_from(levels, k + 1, cur / 2)
    }
}

/// The leaf of an assertion: the SHA-256 of its canonical bytes.
pub open spec fn leaf_of(a: VerifiedAssertionView) -> Seq<u8> {
    sha256_digest(canonical_bytes_spec(a))
}

/// The semantic root: hex of the root node, or of the SHA-256 of nothing
/// when there is no assertion.
pub open spec fn semantic_root_spec(leaves: Seq<Seq<u8>>) -> Seq<char> {
    if leaves.len() == 0 {
        hex_lower(sha256_digest(Seq::empty()))
    } else {
        hex_lower(tree_levels(leaves).last()[0])
    }
}

/// The inclusion path of each leaf, its siblings in hex.
pub open spec fn inclusion_spec(leaves: Seq<Seq<u8>>) -> Seq<InclusionProofView> {
    Seq::new(
        leaves.len(),
        |i: int|
            InclusionProofView {
                assertion_index: i as u32,
                sibling_hashes: path_from(tree_levels(leaves), 0, i).map_values(
                    |h: Seq<u8>| hex_lower(h),
                ),
            },
    )
}

/// The proof of a run: the Merkle tree of its assertions and the SHA-256 of
/// its trace tokens joined by newlines.
pub open spec fn proof_spec(
    assertions: Seq<VerifiedAssertionView>,
    trace: Seq<Seq<char>>,
) -> AssertionMerkleProofView {
    let leaves = assertions.map_values(|a: VerifiedAssertionView| leaf_of(a));
    AssertionMerkleProofView {
        semantic_root: semantic_root_spec(leaves),
        trace_root: hex_lower(sha256_digest(encode_utf8(join(trace, "\n"@)))),
        inclusion: inclusion_spec(leaves),
    }
}

/// Folding a leaf with its siblings, left or right by the index's bits.
pub open spec fn climb(h: Seq<u8>, idx: int, sibs: Seq<Seq<u8>>) -> Seq<u8>
    decreases sibs.len(),
{
    if sibs.len() == 0 {
        h
    } else {
        let up = if idx % 2 == 0 {
            hash_pair(h, sibs[0])
        } else {
            hash_pair(sibs[0], h)
        };
        climb(up, idx / 2, sibs.drop_first())
    }
}

/// The shape of the levels: each is the level above the one before, none is
/// empty, and the last has exactly one node.
pub proof fn lemma_levels_shape(level: Seq<Seq<u8>>)
    requires
        level.len() >= 1,
    ensures
        tree_levels(level).len() >= 1,
        tree_levels(level)[0] == level,
        tree_levels(level).last().len() == 1,
        forall|k: int| 0 <= k < tree_levels(level).len() ==> #[trigger] tree_levels(level)[k].len() >= 1,
        forall|k: int|
            0 <= k < tree_levels(level).len() - 1 ==> #[trigger] tree_levels(level)[k + 1]
                == next_level(tree_levels(level)[k]),
    decreases level.len(),
{
    if level.len() > 1 {
        let nx = next_level(level);
        lemma_levels_shape(nx);
        let t = tree_levels(level);
        let tn = tree_levels(nx);
        assert(t == seq![level] + tn);
        assert forall|k: int| 0 <= k < t.len() implies #[trigger] t[k].len() >= 1 by {
            if k > 0 {
                assert(t[k] == tn[k - 1]);
            }
        };
        assert forall|k: int| 0 <= k < t.len() - 1 implies #[trigger] t[k + 1] == next_level(t[k]) by {
            assert(t[k + 1] == tn[k]);
            if k > 0 {
                assert(t[k] == tn[k - 1]);
                assert(tn[(k - 1) + 1] == next_level(tn[k - 1]));
            } else {
                assert(t[0] == level);
                assert(tn[0] == nx);
            }
        };
    }
}

/// Merkle inclusion: folding a leaf with its inclusion path, from any level
/// on, gives back the root.
proof fn lemma_climb_from(levels: Seq<Seq<Seq<u8>>>, k: int, cur: int)
    requires
        0 <= k < levels.len(),
        0 <= cur < levels[k].len(),
        levels.last().len() == 1,
        forall|j: int| 0 <= j < levels.len() - 1 ==> #[trigger] levels[j + 1] == next_level(levels[j]),
    ensures
        climb(levels[k][cur], cur, path_from(levels, k, cur)) == levels.last()[0],
    decreases levels.len() - k,
{
    if k + 1 < levels.len() {
        let lv = levels[k];
        let n = lv.len() as int;
        let sib = sibling(n, cur);
        let rest = path_from(levels, k + 1, cur / 2);
        let p = path_from(levels, k, cur);
        assert(p == seq![lv[sib]] + rest);
        assert(p.drop_first() =~= rest);
        assert(levels[k + 1] == next_level(lv));
        let up = if cur % 2 == 0 {
            hash_pair(lv[cur], lv[sib])
        } else {
            hash_pair(lv[sib], lv[cur])
        };
        assert(up == levels[k + 1][cur / 2]);
        lemma_climb_from(levels, k + 1, cur / 2);
    } else {
        assert(path_from(levels, k, cur) =~= Seq::<Seq<u8>>::empty());
    }
}

/// Every leaf's inclusion path leads back to the root: folding leaf `i`
/// with its siblings (left or right as the index's bits say) recomputes the
/// root node, whose hex is the semantic root.
pub proof fn lemma_inclusion_verifies(leaves: Seq<Seq<u8>>, i: int)
    requires
        0 <= i < leaves.len(),
    ensures
        climb(leaves[i], i, path_from(tree_levels(leaves), 0, i)) == tree_levels(leaves).last()[0],
        semantic_root_spec(leaves) == hex_lower(tree_levels(leaves).last()[0]),
{
    lemma_levels_shape(leaves);
    lemma_climb_from(tree_levels(leaves), 0, i);
}

/// Byte strings as a sequence of their views.
pub open spec fn byte_rows(v: Seq<Vec<u8>>) -> Seq<Seq<u8>> {
    v.map_values(|b: Vec<u8>| b@)
}

fn hash_pair_exec(l: &Vec<u8>, r: &Vec<u8>) -> (out: Vec<u8>)
    ensures
        out@ == hash_pair(l@, r@),
{
    let mut buf: Vec<u8> = Vec::new();
    push_bytes(&mut buf, l.as_slice());
    push_bytes(&mut buf, r.as_slice());
    assert(buf@ =~= l@ + r@);
    sha256(buf.as_slice())
}

fn next_level_exec(level: &Vec<Vec<u8>>) -> (out: Vec<Vec<u8>>)
    ensures
        byte_rows(out@) == next_level(byte_rows(level@)),
{
    let n = level.len();
    let half = n - n / 2;
    let ghost lv = byte_rows(level@);
    let mut out: Vec<Vec<u8>> = Vec::new();
    let mut i: usize = 0;
    while i < half
        invariant
            n == level.len(),
            half == n - n / 2,
            lv == byte_rows(level@),
            i <= half,
            byte_rows(out@) =~= next_level(lv).take(i as int),
        decreases half - i,
    {
        let j = 2 * i;
        let r = if j + 1 < n {
            j + 1
        } else {
            j
        };
        let h = hash_pair_exec(&level[j], &level[r]);
        let ghost before = out@;
        out.push(h);
        proof {
            assert(byte_rows(out@) =~= byte_rows(before).push(h@));
            assert(next_level(lv)[i as int] == hash_pair(lv[j as int], lv[r as int]));
            assert(next_level(lv).take(i + 1) =~= next_level(lv).take(i as int).push(
                next_level(lv)[i as int],
            ));
        }
        i += 1;
    }
    assert(next_level(lv).take(half as int) =~= next_level(lv));
    out
}

/// The levels of the tree over non-empty `leaves`.
fn levels_exec(leaves: Vec<Vec<u8>>) -> (out: Vec<Vec<Vec<u8>>>)
    requires
        leaves.len() >= 1,
    ensures
        out@.map_values(|l: Vec<Vec<u8>>| byte_rows(l@)) == tree_levels(byte_rows(leaves@)),
{
    let ghost full = tree_levels(byte_rows(leaves@));
    let mut done: Vec<Vec<Vec<u8>>> = Vec::new();
    let mut cur = leaves;
    while cur.len() > 1
        invariant
            done@.map_values(|l: Vec<Vec<u8>>| byte_rows(l@)) + tree_levels(byte_rows(cur@))
                == full,
        decreases cur.len(),
    {
        let nx = next_level_exec(&cur);
        let ghost cv = byte_rows(cur@);
        let ghost before = done@;
        done.push(cur);
        proof {
            assert(tree_levels(cv) == seq![cv] + tree_levels(byte_rows(nx@)));
            assert(done@.map_values(|l: Vec<Vec<u8>>| byte_rows(l@)) =~= before.map_values(
                |l: Vec<Vec<u8>>| byte_rows(l@),
            ).push(cv));
            assert(done@.map_values(|l: Vec<Vec<u8>>| byte_rows(l@)) + tree_levels(
                byte_rows(nx@),
            ) =~= before.map_values(|l: Vec<Vec<u8>>| byte_rows(l@)) + tree_levels(cv));
        }
        cur = nx;
    }
    let ghost cv = byte_rows(cur@);
    let ghost before = done@;
    done.push(cur);
    proof {
        assert(tree_levels(cv) == seq![cv]);
        assert(done@.map_values(|l: Vec<Vec<u8>>| byte_rows(l@)) =~= before.map_values(
            |l: Vec<Vec<u8>>| byte_rows(l@),
        ).push(cv));
        assert(done@.map_values(|l: Vec<Vec<u8>>| byte_rows(l@)) =~= full);
    }
    done
}

/// The semantic root and the inclusion paths of some leaves.
fn merkle_root_and_inclusion(leaves: Vec<Vec<u8>>) -> (r: (String, Vec<InclusionProof>))
    ensures
        r.0@ == semantic_root_spec(byte_rows(leaves@)),
        r.1@.map_values(|p: InclusionProof| p@) == inclusion_spec(byte_rows(leaves@)),
{
    let ghost lv = byte_rows(leaves@);
    if leaves.len() == 0 {
        let empty: Vec<u8> = Vec::new();
        let root = sha256_hex(empty.as_slice());
        let incl: Vec<InclusionProof> = Vec::new();
        assert(incl@.map_values(|p: InclusionProof| p@) =~= inclusion_spec(lv));
        return (root, incl);
    }
    let n = leaves.len();
    let levels = levels_exec(leaves);
    let ghost tl = tree_levels(lv);
    proof {
        lemma_levels_shape(lv);
        assert(levels@.map_values(|l: Vec<Vec<u8>>| byte_rows(l@)) == tl);
        assert forall|k: int| 0 <= k < levels.len() implies byte_rows(#[trigger] levels@[k]@) == tl[k] by {
            assert(levels@.map_values(|l: Vec<Vec<u8>>| byte_rows(l@))[k] == byte_rows(levels@[k]@));
        };
    }
    let nl = levels.len();
    let top = &levels[nl - 1];
    proof {
        assert(byte_rows(top@) == tl.last());
        assert(byte_rows(top@)[0] == top@[0]@);
    }
    let root = hex_encode(top[0].as_slice());
    let mut inclusion: Vec<InclusionProof> = Vec::new();
    let mut idx: usize = 0;
    while idx < n
        invariant
            n == lv.len(),
            nl == levels.len(),
            nl == tl.len(),
            tl == tree_levels(lv),
            idx <= n,
            forall|k: int| 0 <= k < nl ==> byte_rows(#[trigger] levels@[k]@) == tl[k],
            tl[0] == lv,
            forall|k: int| 0 <= k < nl - 1 ==> #[trigger] tl[k + 1] == next_level(tl[k]),
            inclusion@.map_values(|p: InclusionProof| p@) =~= inclusion_spec(lv).take(idx as int),
        decreases n - idx,
    {
        let mut sibs: Vec<String> = Vec::new();
        let mut cur: usize = idx;
        let mut k: usize = 0;
        while k + 1 < nl
            invariant
                nl == levels.len(),
                nl == tl.len(),
                k < nl,
                forall|j: int| 0 <= j < nl ==> byte_rows(#[trigger] levels@[j]@) == tl[j],
                forall|j: int| 0 <= j < nl - 1 ==> #[trigger] tl[j + 1] == next_level(tl[j]),
                cur < tl[k as int].len(),
                path_from(tl, 0, idx as int).map_values(|h: Seq<u8>| hex_lower(h)) == sibs@.map_values(
                    |s: String| s@,
                ) + path_from(tl, k as int, cur as int).map_values(|h: Seq<u8>| hex_lower(h)),
            decreases nl - k,
        {
            let level = &levels[k];
            let ln = level.len();
            proof {
                assert(byte_rows(level@) == tl[k as int]);
            }
            let sib = if cur % 2 == 0 {
                if cur + 1 < ln {
                    cur + 1
                } else {
                    cur
                }
            } else {
                cur - 1
            };
            let hx = hex_encode(level[sib].as_slice());
            let ghost before = sibs@;
            sibs.push(hx);
            proof {
                let f = |h: Seq<u8>| hex_lower(h);
                let here = tl[k as int][sibling(tl[k as int].len() as int, cur as int)];
                assert(byte_rows(level@)[sib as int] == level@[sib as int]@);
                assert(path_from(tl, k as int, cur as int) == seq![here] + path_from(
                    tl,
                    k + 1,
                    (cur / 2) as int,
                ));
                assert(path_from(tl, k as int, cur as int).map_values(f) =~= seq![hex_lower(here)]
                    + path_from(tl, k + 1, (cur / 2) as int).map_values(f));
                assert(sibs@.map_values(|s: String| s@) =~= before.map_values(|s: String| s@).push(
                    hex_lower(here),
                ));
                assert(before.map_values(|s: String| s@) + (seq![hex_lower(here)] + path_from(
                    tl,
                    k + 1,
                    (cur / 2) as int,
                ).map_values(f)) =~= sibs@.map_values(|s: String| s@) + path_from(
                    tl,
                    k + 1,
                    (cur / 2) as int,
                ).map_values(f));
                assert(tl[k + 1] == next_level(tl[k as int]));
            }
            cur = cur / 2;
            k = k + 1;
        }
        proof {
            assert(path_from(tl, k as int, cur as int) =~= Seq::<Seq<u8>>::empty());
            assert(sibs@.map_values(|s: String| s@) =~= path_from(tl, 0, idx as int).map_values(
                |h: Seq<u8>| hex_lower(h),
            ));
        }
        let ghost before = inclusion@;
        inclusion.push(InclusionProof { assertion_index: idx as u32, sibling_hashes: sibs });
        proof {
            assert(inclusion@.map_values(|p: InclusionProof| p@) =~= before.map_values(
                |p: InclusionProof| p@,
            ).push(inclusion_spec(lv)[idx as int]));
            assert(inclusion_spec(lv).take(idx + 1) =~= inclusion_spec(lv).take(idx as int).push(
                inclusion_spec(lv)[idx as int],
            ));
        }
        idx += 1;
    }
    proof {
        assert(inclusion_spec(lv).take(n as int) =~= inclusion_spec(lv));
        assert(tl.last() == tl[nl - 1]);
    }
    (root, inclusion)
}

/// The leaves of some assertions.
fn leaves_of(assertions: &Vec<VerifiedAssertion>) -> (out: Vec<Vec<u8>>)
    ensures
        byte_rows(out@) == assertions@.map_values(|a: VerifiedAssertion| a@).map_values(
            |a: VerifiedAssertionView| leaf_of(a),
        ),
{
    let ghost target = assertions@.map_values(|a: VerifiedAssertion| a@).map_values(
        |a: VerifiedAssertionView| leaf_of(a),
    );
    let mut out: Vec<Vec<u8>> = Vec::new();
    let mut i: usize = 0;
    while i < assertions.len()
        invariant
            i <= assertions.len(),
            target == assertions@.map_values(|a: VerifiedAssertion| a@).map_values(
                |a: VerifiedAssertionView| leaf_of(a),
            ),
            byte_rows(out@) =~= target.take(i as int),
        decreases assertions.len() - i,
    {
        let bytes = canonical_assertion_bytes(&assertions[i]);
        let leaf = sha256(bytes.as_slice());
        let ghost before = out@;
        out.push(leaf);
        proof {
            assert(byte_rows(out@) =~= byte_rows(before).push(leaf@));
            assert(target.take(i + 1) =~= target.take(i as int).push(target[i as int]));
        }
        i += 1;
    }
    assert(target.take(assertions.len() as int) =~= target);
    out
}

/// The Merkle proof of a run (see [`proof_spec`]).
pub fn build_proof(assertions: &Vec<VerifiedAssertion>, trace_tokens: &Vec<String>) -> (p:
    AssertionMerkleProof)
    ensures
        p@ == proof_spec(
            assertions@.map_values(|a: VerifiedAssertion| a@),
            trace_tokens@.map_values(|s: String| s@),
        ),
{
    let leaves = leaves_of(assertions);
    let (semantic_root, inclusion) = merkle_root_and_inclusion(leaves);
    let joined = join_strings(trace_tokens, "\n");
    let trace_root = sha256_hex(joined.as_str().as_bytes());
    let p = AssertionMerkleProof { semantic_root, trace_root, inclusion };
    proof {
        assert(p@ =~= proof_spec(
            assertions@.map_values(|a: VerifiedAssertion| a@),
            trace_tokens@.map_values(|s: String| s@),
        ));
    }
    p
}

} // verus!
