//! Canonical citations of a verified assertion.
use vstd::prelude::*;

use crate::kernel::options::{ExecuteOptions, OptionsView};
use crate::kernel::regs::{fail, rejected, ExecStop, StopView};
use crate::proto::{
    CanonicalCitation, CanonicalCitationView, CitationRef, CitationRefView, Cite, CiteView,
    ErrorCode,
};
use crate::smap::{
    lemma_keys_are_sorted_set, lemma_smap_insert_keys, lemma_sorted_set_exists, smap_keys, sorted_set,
    StrMap,
};
use crate::text::{concat2, owned, strictly_sorted};

verus! {

/// Whether the broken lineage of handle `h` forbids citing it.
pub open spec fn lineage_blocked(h: Seq<char>, opts: OptionsView) -> bool {
    !opts.degraded_mode && opts.broken_lineage_handles.contains(h)
}

/// The digest under which a handle is cited.
pub open spec fn handle_digest(h: Seq<char>) -> Seq<char> {
    "handle:"@ + h
}

/// The anchor digest a citation names: `handle:` and the handle, or the anchor.
pub open spec fn cite_key(c: CiteView) -> Seq<char> {
    match c {
        CiteView::HandleRef(h) => handle_digest(h),
        CiteView::AnchorRef(a) => a,
    }
}

/// The digest of a citation whose variant is set.
pub open spec fn citation_key(c: CitationRefView) -> Seq<char> {
    match c.cite {
        Some(x) => cite_key(x),
        None => Seq::empty(),
    }
}

/// The failure a single citation causes, if any.
pub open spec fn cite_error(c: CitationRefView, opts: OptionsView) -> Option<StopView> {
    match c.cite {
        None => Some(rejected(ErrorCode::SchemaViolation, "citation is missing variant")),
        Some(CiteView::HandleRef(h)) => if lineage_blocked(h, opts) {
            Some(
                rejected(ErrorCode::ErrorBrokenLineage, "citation includes broken-lineage handle"),
            )
        } else {
            None
        },
        Some(CiteView::AnchorRef(_)) => None,
    }
}

/// The failure of the first failing citation, in plan order.
pub open spec fn first_cite_error(cs: Seq<CitationRefView>, opts: OptionsView) -> Option<StopView>
    decreases cs.len(),
{
    if cs.len() == 0 {
        None
    } else {
        match first_cite_error(cs.drop_last(), opts) {
            Some(e) => Some(e),
            None => cite_error(cs.last(), opts),
        }
    }
}

/// Once a prefix of the citations fails, the whole list fails the same way.
proof fn lemma_first_cite_error_prefix(cs: Seq<CitationRefView>, k: int, opts: OptionsView)
    requires
        0 <= k <= cs.len(),
        first_cite_error(cs.take(k), opts) is Some,
    ensures
        first_cite_error(cs, opts) == first_cite_error(cs.take(k), opts),
    decreases cs.len(),
{
    if k == cs.len() {
        assert(cs.take(k) =~= cs);
    } else {
        assert(cs.drop_last().take(k) =~= cs.take(k));
        lemma_first_cite_error_prefix(cs.drop_last(), k, opts);
    }
}

/// Canonical citations with the given digests.
pub open spec fn digests(ks: Seq<Seq<char>>) -> Seq<CanonicalCitationView> {
    ks.map_values(|k: Seq<char>| CanonicalCitationView { anchor_digest: k })
}

/// The canonical citations of an assertion: with no explicit citation, one
/// `handle:` citation per provenance handle; otherwise the digests the
/// citations name. Either way deduplicated and in digest order.
pub open spec fn citations_spec(
    cs: Seq<CitationRefView>,
    provenance: Set<Seq<char>>,
    opts: OptionsView,
) -> Result<Seq<CanonicalCitationView>, StopView> {
    if cs.len() == 0 {
        if exists|h: Seq<char>| provenance.contains(h) && lineage_blocked(h, opts) {
            Err(rejected(ErrorCode::ErrorBrokenLineage, "citation includes broken-lineage handle"))
        } else {
            Ok(digests(sorted_set(provenance.map(|h: Seq<char>| handle_digest(h)))))
        }
    } else {
        match first_cite_error(cs, opts) {
            Some(e) => Err(e),
            None => Ok(
                digests(sorted_set(cs.map_values(|c: CitationRefView| citation_key(c)).to_set())),
            ),
        }
    }
}

fn cite_digest(c: &Cite) -> (s: String)
    ensures
        s@ == cite_key(c@),
{
    match c {
        Cite::HandleRef(h) => concat2("handle:", h.as_str()),
        Cite::AnchorRef(a) => owned(a.as_str()),
    }
}

/// The citations named by the keys of `m`, in key order.
fn citations_of_keys(m: &StrMap<bool>) -> (out: Vec<CanonicalCitation>)
    ensures
        out@.map_values(|c: CanonicalCitation| c@) == digests(smap_keys(m@)),
{
    let mut out: Vec<CanonicalCitation> = Vec::new();
    let mut i: usize = 0;
    while i < m.len()
        invariant
            i <= m@.len(),
            out@.map_values(|c: CanonicalCitation| c@) == digests(smap_keys(m@).take(i as int)),
        decreases m@.len() - i,
    {
        let ghost before = out@;
        out.push(CanonicalCitation { anchor_digest: m.key_at(i).clone() });
        proof {
            assert(out@.map_values(|c: CanonicalCitation| c@) =~= before.map_values(
                |c: CanonicalCitation| c@,
            ).push(CanonicalCitationView { anchor_digest: m@[i as int].0 }));
            assert(smap_keys(m@).take(i + 1) =~= smap_keys(m@).take(i as int).push(m@[i as int].0));
            assert(out@.map_values(|c: CanonicalCitation| c@) =~= digests(
                smap_keys(m@).take(i + 1),
            ));
        }
        i += 1;
    }
    assert(smap_keys(m@).take(m@.len() as int) =~= smap_keys(m@));
    out
}

/// Canonical citations of an assertion (see [`citations_spec`]).
pub fn canonicalize_citations(
    cs: &Vec<CitationRef>,
    provenance: &Vec<String>,
    opts: &ExecuteOptions,
) -> (r: Result<Vec<CanonicalCitation>, ExecStop>)
    ensures
        match r {
            Ok(v) => citations_spec(
                cs@.map_values(|c: CitationRef| c@),
                provenance@.map_values(|s: String| s@).to_set(),
                opts@,
            ) == Ok::<Seq<CanonicalCitationView>, StopView>(
                v@.map_values(|c: CanonicalCitation| c@),
            ),
            Err(e) => citations_spec(
                cs@.map_values(|c: CitationRef| c@),
                provenance@.map_values(|s: String| s@).to_set(),
                opts@,
            ) == Err::<Seq<CanonicalCitationView>, StopView>(e@),
        },
{
    let ghost csv = cs@.map_values(|c: CitationRef| c@);
    let ghost pv = provenance@.map_values(|s: String| s@);
    let ghost f = |h: Seq<char>| handle_digest(h);
    let ghost g = |c: CitationRefView| citation_key(c);
    let mut unique: StrMap<bool> = StrMap::new();
    if cs.len() == 0 {
        let mut i: usize = 0;
        while i < provenance.len()
            invariant
                i <= provenance.len(),
                cs.len() == 0,
                pv == provenance@.map_values(|s: String| s@),
                f == (|h: Seq<char>| handle_digest(h)),
                forall|j: int| 0 <= j < i ==> !lineage_blocked(#[trigger] pv[j], opts@),
                smap_keys(unique@).to_set() == pv.take(i as int).map_values(f).to_set(),
            decreases provenance.len() - i,
        {
            proof {
                use_type_invariant(&unique);
            }
            if !opts.degraded_mode && opts.is_broken(provenance[i].as_str()) {
                proof {
                    assert(pv[i as int] == provenance@[i as int]@);
                    assert(pv.to_set().contains(pv[i as int]));
                    assert(lineage_blocked(pv[i as int], opts@));
                    let pset = provenance@.map_values(|s: String| s@).to_set();
                    assert(pset.contains(pv[i as int]));
                    assert(exists|h: Seq<char>| pset.contains(h) && lineage_blocked(h, opts@));
                }
                return Err(
                    fail(ErrorCode::ErrorBrokenLineage, "citation includes broken-lineage handle"),
                );
            }
            let ghost before = unique@;
            unique.insert(concat2("handle:", provenance[i].as_str()), true);
            proof {
                lemma_smap_insert_keys(before, handle_digest(pv[i as int]), true);
                assert(pv.take(i + 1).map_values(f) =~= pv.take(i as int).map_values(f).push(
                    f(pv[i as int]),
                ));
                pv.take(i as int).map_values(f).lemma_push_to_set_commute(f(pv[i as int]));
            }
            i += 1;
        }
        proof {
            assert(pv.take(pv.len() as int) =~= pv);
            pv.lemma_to_set_map_commutes(f);
            assert forall|h: Seq<char>| pv.to_set().contains(h) implies !lineage_blocked(
                h,
                opts@,
            ) by {
                let j = choose|j: int| 0 <= j < pv.len() && pv[j] == h;
                assert(!lineage_blocked(pv[j], opts@));
            };
        }
    } else {
        let mut i: usize = 0;
        while i < cs.len()
            invariant
                i <= cs.len(),
                csv == cs@.map_values(|c: CitationRef| c@),
                g == (|c: CitationRefView| citation_key(c)),
                first_cite_error(csv.take(i as int), opts@) is None,
                smap_keys(unique@).to_set() == csv.take(i as int).map_values(g).to_set(),
            decreases cs.len() - i,
        {
            proof {
                use_type_invariant(&unique);
                assert(csv.take(i + 1).drop_last() =~= csv.take(i as int));
                assert(csv.take(i + 1).last() == cs@[i as int]@);
                if first_cite_error(csv.take(i + 1), opts@) is Some {
                    lemma_first_cite_error_prefix(csv, i + 1, opts@);
                }
            }
            let ghost before = unique@;
            match &cs[i].cite {
                None => {
                    return Err(fail(ErrorCode::SchemaViolation, "citation is missing variant"));
                },
                Some(c) => {
                    match c {
                        Cite::HandleRef(h) => {
                            if !opts.degraded_mode && opts.is_broken(h.as_str()) {
                                return Err(
                                    fail(
                                        ErrorCode::ErrorBrokenLineage,
                                        "citation includes broken-lineage handle",
                                    ),
                                );
                            }
                        },
                        Cite::AnchorRef(_) => {},
                    }
                    unique.insert(cite_digest(c), true);
                },
            }
            proof {
                lemma_smap_insert_keys(before, g(csv[i as int]), true);
                assert(csv.take(i + 1).map_values(g) =~= csv.take(i as int).map_values(g).push(
                    g(csv[i as int]),
                ));
                csv.take(i as int).map_values(g).lemma_push_to_set_commute(g(csv[i as int]));
            }
            i += 1;
        }
        proof {
            assert(csv.take(csv.len() as int) =~= csv);
        }
    }
    proof {
        use_type_invariant(&unique);
        lemma_keys_are_sorted_set(unique@);
    }
    Ok(citations_of_keys(&unique))
}

/// Canonical citations are in strictly increasing digest order, so none occurs twice.
pub proof fn lemma_citations_sorted(
    cs: Seq<CitationRefView>,
    provenance: Set<Seq<char>>,
    opts: OptionsView,
)
    requires
        provenance.finite(),
        citations_spec(cs, provenance, opts) is Ok,
    ensures
        strictly_sorted(
            citations_spec(cs, provenance, opts)->Ok_0.map_values(
                |c: CanonicalCitationView| c.anchor_digest,
            ),
        ),
{
    let out = citations_spec(cs, provenance, opts)->Ok_0;
    let keys = if cs.len() == 0 {
        provenance.map(|h: Seq<char>| handle_digest(h))
    } else {
        cs.map_values(|c: CitationRefView| citation_key(c)).to_set()
    };
    if cs.len() == 0 {
        provenance.lemma_map_finite(|h: Seq<char>| handle_digest(h));
    }
    lemma_sorted_set_exists(keys);
    assert(out.map_values(|c: CanonicalCitationView| c.anchor_digest) =~= sorted_set(keys));
}

/// No citation fails exactly when each citation passes on its own.
proof fn lemma_first_cite_error_none(cs: Seq<CitationRefView>, opts: OptionsView)
    ensures
        (first_cite_error(cs, opts) is None) <==> (forall|i: int|
            0 <= i < cs.len() ==> cite_error(#[trigger] cs[i], opts) is None),
    decreases cs.len(),
{
    if cs.len() > 0 {
        lemma_first_cite_error_none(cs.drop_last(), opts);
        if first_cite_error(cs, opts) is None {
            assert forall|i: int| 0 <= i < cs.len() implies cite_error(#[trigger] cs[i], opts) is None by {
                if i < cs.len() - 1 {
                    assert(cs[i] == cs.drop_last()[i]);
                }
            };
        } else if forall|i: int| 0 <= i < cs.len() ==> cite_error(#[trigger] cs[i], opts) is None {
            assert forall|i: int| 0 <= i < cs.drop_last().len() implies cite_error(
                #[trigger] cs.drop_last()[i],
                opts,
            ) is None by {
                assert(cs.drop_last()[i] == cs[i]);
            };
            assert(cite_error(cs[cs.len() - 1], opts) is None);
        }
    }
}

/// The canonical citations depend only on which citations are given, not on
/// their order or repetition: two non-empty citation lists with the same
/// elements either both fail or give the same canonical citations.
pub proof fn lemma_citations_order_free(
    cs1: Seq<CitationRefView>,
    cs2: Seq<CitationRefView>,
    provenance: Set<Seq<char>>,
    opts: OptionsView,
)
    requires
        cs1.len() > 0,
        cs1.to_set() == cs2.to_set(),
    ensures
        (citations_spec(cs1, provenance, opts) is Ok) == (citations_spec(cs2, provenance, opts) is Ok),
        citations_spec(cs1, provenance, opts) is Ok ==> citations_spec(cs1, provenance, opts)
            == citations_spec(cs2, provenance, opts),
{
    assert(cs1.to_set().contains(cs1[0]));
    assert(cs2.len() > 0);
    lemma_first_cite_error_none(cs1, opts);
    lemma_first_cite_error_none(cs2, opts);
    let ok1 = forall|i: int| 0 <= i < cs1.len() ==> cite_error(#[trigger] cs1[i], opts) is None;
    let ok2 = forall|i: int| 0 <= i < cs2.len() ==> cite_error(#[trigger] cs2[i], opts) is None;
    if ok1 {
        assert forall|i: int| 0 <= i < cs2.len() implies cite_error(#[trigger] cs2[i], opts) is None by {
            assert(cs2.to_set().contains(cs2[i]));
            let j = choose|j: int| 0 <= j < cs1.len() && cs1[j] == cs2[i];
        };
    }
    if ok2 {
        assert forall|i: int| 0 <= i < cs1.len() implies cite_error(#[trigger] cs1[i], opts) is None by {
            assert(cs1.to_set().contains(cs1[i]));
            let j = choose|j: int| 0 <= j < cs2.len() && cs2[j] == cs1[i];
        };
    }
    let g = |c: CitationRefView| citation_key(c);
    cs1.lemma_to_set_map_commutes(g);
    cs2.lemma_to_set_map_commutes(g);
}

} // verus!
