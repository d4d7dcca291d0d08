//! ASSERT: turning bound register fields into a verified assertion, behind
//! the trust, taint and lineage gates.
use vstd::prelude::*;

use crate::kernel::cite::{canonicalize_citations, citations_spec, lineage_blocked};
use crate::kernel::ops::{binding_value_spec, extract_binding_value};
use crate::kernel::options::{ExecuteOptions, OptionsView};
use crate::kernel::regs::{
    fail, find_reg, min_tier, min_tier_exec, reg_lookup, regs_view, rejected, ExecStop, RegData,
    RegDataView, RegValue, RegView, SourceKind, StopView,
};
use crate::proto::{
    assertion_type_from, assertion_type_from_i32, assertion_type_number, tier_number, AssertionType,
    ErrorCode, OpAssert, OpAssertView, TrustTier, Value, ValueView, VerifiedAssertion,
    VerifiedAssertionView, TAINT_MIXED, TAINT_WEB_UNTRUSTED,
};
use crate::smap::{smap_insert, StrMap};
use crate::text::lemma_to_set_add;

verus! {

/// Assertion types that shape policy: they need trusted, untainted inputs.
pub open spec fn requires_tier2(t: AssertionType) -> bool {
    t == AssertionType::AssertUserPreference || t == AssertionType::AssertDecision || t
        == AssertionType::AssertProcedure
}

pub fn requires_tier2_exec(t: AssertionType) -> (r: bool)
    ensures
        r == requires_tier2(t),
{
    match t {
        AssertionType::AssertUserPreference => true,
        AssertionType::AssertDecision => true,
        AssertionType::AssertProcedure => true,
        _ => false,
    }
}

/// Whether a taint set holds web-untrusted or mixed data.
pub open spec fn untrusted_taint(taint: Set<i32>) -> bool {
    taint.contains(TAINT_WEB_UNTRUSTED) || taint.contains(TAINT_MIXED)
}

/// What the bindings of an ASSERT gather.
pub struct Gathered {
    pub fields: Seq<(Seq<char>, ValueView)>,
    pub provenance: Set<Seq<char>>,
    pub taint: Set<i32>,
    pub tier: TrustTier,
}

/// Reads the bindings in field order; the first failing binding decides.
pub open spec fn bind_all(
    bs: Seq<(Seq<char>, crate::proto::ValueRefView)>,
    regs: Seq<(Seq<char>, RegView)>,
) -> Result<Gathered, StopView>
    decreases bs.len(),
{
    if bs.len() == 0 {
        Ok(
            Gathered {
                fields: Seq::empty(),
                provenance: Set::empty(),
                taint: Set::empty(),
                tier: TrustTier::Tier4PolicySigned,
            },
        )
    } else {
        match bind_all(bs.drop_last(), regs) {
            Err(e) => Err(e),
            Ok(g) => {
                let name = bs.last().0;
                let b = bs.last().1;
                match reg_lookup(regs, b.reg) {
                    None => Err(
                        rejected(ErrorCode::SchemaViolation, "ASSERT binding register missing"),
                    ),
                    Some(r) => if !(r.source == SourceKind::Fetch || r.source
                        == SourceKind::Project) {
                        Err(
                            rejected(
                                ErrorCode::SchemaViolation,
                                "ASSERT bindings must trace to FETCH or PROJECT",
                            ),
                        )
                    } else {
                        match binding_value_spec(r.data, b.field_path) {
                            Err(e) => Err(e),
                            Ok(v) => Ok(
                                Gathered {
                                    fields: smap_insert(g.fields, name, v),
                                    provenance: g.provenance.union(r.provenance),
                                    taint: g.taint.union(r.taint),
                                    tier: min_tier(g.tier, r.min_trust),
                                },
                            ),
                        }
                    },
                }
            },
        }
    }
}

/// ASSERT: the register it defines and the verified assertion it emits.
pub open spec fn assert_spec(
    op: OpAssertView,
    regs: Seq<(Seq<char>, RegView)>,
    opts: OptionsView,
) -> Result<(RegView, VerifiedAssertionView), StopView> {
    let t = assertion_type_from(op.assertion_type);
    if t == AssertionType::Unspecified {
        Err(rejected(ErrorCode::SchemaViolation, "ASSERT assertion_type unspecified"))
    } else {
        match bind_all(op.bindings, regs) {
            Err(e) => Err(e),
            Ok(g) => {
                let min_trust = if g.fields.len() == 0 {
                    TrustTier::Unspecified
                } else {
                    g.tier
                };
                if requires_tier2(t) && tier_number(min_trust) < tier_number(
                    TrustTier::Tier2Verified,
                ) {
                    Err(
                        rejected(
                            ErrorCode::UntrustedProvenance,
                            "assertion requires trust tier >= TIER_2",
                        ),
                    )
                } else if requires_tier2(t) && untrusted_taint(g.taint) {
                    Err(
                        rejected(
                            ErrorCode::DataLeakPrevention,
                            "policy-impacting assertion cannot sink web-untrusted tainted data",
                        ),
                    )
                } else if exists|h: Seq<char>|
                    g.provenance.contains(h) && lineage_blocked(h, opts) {
                    Err(
                        rejected(
                            ErrorCode::ErrorBrokenLineage,
                            "ASSERT references broken-lineage provenance",
                        ),
                    )
                } else {
                    match citations_spec(op.citations, g.provenance, opts) {
                        Err(e) => Err(e),
                        Ok(cs) => Ok(
                            (
                                RegView {
                                    data: RegDataView::Struct(g.fields),
                                    provenance: g.provenance,
                                    taint: g.taint,
                                    min_trust,
                                    join_depth: 0,
                                    source: SourceKind::Assert,
                                },
                                VerifiedAssertionView {
                                    assertion_type: assertion_type_number(t),
                                    fields: g.fields,
                                    citations: cs,
                                },
                            ),
                        ),
                    }
                }
            },
        }
    }
}

/// Appends `src` to `dst`; as sets, `dst` becomes the union.
fn extend_names(dst: &mut Vec<String>, src: &Vec<String>)
    ensures
        final(dst)@.map_values(|s: String| s@).to_set() == old(dst)@.map_values(
            |s: String| s@,
        ).to_set().union(src@.map_values(|s: String| s@).to_set()),
{
    let ghost a = dst@.map_values(|s: String| s@);
    let ghost b = src@.map_values(|s: String| s@);
    let mut j: usize = 0;
    while j < src.len()
        invariant
            j <= src.len(),
            b == src@.map_values(|s: String| s@),
            dst@.map_values(|s: String| s@) == a + b.take(j as int),
        decreases src.len() - j,
    {
        let ghost before = dst@;
        dst.push(src[j].clone());
        proof {
            assert(dst@.map_values(|s: String| s@) =~= before.map_values(|s: String| s@).push(
                src@[j as int]@,
            ));
            assert(b.take(j + 1) =~= b.take(j as int).push(b[j as int]));
        }
        j += 1;
    }
    proof {
        assert(b.take(src.len() as int) =~= b);
        lemma_to_set_add(a, b);
    }
}

/// Appends `src` to `dst`; as sets, `dst` becomes the union.
fn extend_taint(dst: &mut Vec<i32>, src: &Vec<i32>)
    ensures
        final(dst)@.to_set() == old(dst)@.to_set().union(src@.to_set()),
{
    let ghost a = dst@;
    let mut j: usize = 0;
    while j < src.len()
        invariant
            j <= src.len(),
            dst@ == a + src@.take(j as int),
        decreases src.len() - j,
    {
        dst.push(src[j]);
        proof {
            assert(src@.take(j + 1) =~= src@.take(j as int).push(src@[j as int]));
        }
        j += 1;
    }
    proof {
        assert(src@.take(src.len() as int) =~= src@);
        lemma_to_set_add(a, src@);
    }
}

fn has_untrusted_taint(taint: &Vec<i32>) -> (r: bool)
    ensures
        r == untrusted_taint(taint@.to_set()),
{
    let mut j: usize = 0;
    while j < taint.len()
        invariant
            j <= taint.len(),
            forall|k: int|
                0 <= k < j ==> taint@[k] != TAINT_WEB_UNTRUSTED && taint@[k] != TAINT_MIXED,
        decreases taint.len() - j,
    {
        if taint[j] == TAINT_WEB_UNTRUSTED || taint[j] == TAINT_MIXED {
            assert(taint@.to_set().contains(taint@[j as int]));
            return true;
        }
        j += 1;
    }
    false
}

/// Whether some handle in the list is blocked by broken lineage.
fn any_blocked(hs: &Vec<String>, opts: &ExecuteOptions) -> (r: bool)
    ensures
        r == exists|h: Seq<char>|
            hs@.map_values(|s: String| s@).to_set().contains(h) && lineage_blocked(h, opts@),
{
    let ghost hv = hs@.map_values(|s: String| s@);
    if opts.degraded_mode {
        return false;
    }
    let mut j: usize = 0;
    while j < hs.len()
        invariant
            j <= hs.len(),
            !opts.degraded_mode,
            hv == hs@.map_values(|s: String| s@),
            forall|k: int| 0 <= k < j ==> !lineage_blocked(#[trigger] hv[k], opts@),
        decreases hs.len() - j,
    {
        if opts.is_broken(hs[j].as_str()) {
            proof {
                assert(hv[j as int] == hs@[j as int]@);
                assert(hv.to_set().contains(hv[j as int]));
                assert(lineage_blocked(hv[j as int], opts@));
                assert(exists|h: Seq<char>| hv.to_set().contains(h) && lineage_blocked(h, opts@));
            }
            return true;
        }
        j += 1;
    }
    proof {
        assert forall|h: Seq<char>| hv.to_set().contains(h) implies !lineage_blocked(h, opts@) by {
            let k = choose|k: int| 0 <= k < hv.len() && hv[k] == h;
            assert(!lineage_blocked(hv[k], opts@));
        };
    }
    false
}

/// ASSERT (see [`assert_spec`]).
pub fn exec_assert(op: &OpAssert, regs: &Vec<(String, RegValue)>, opts: &ExecuteOptions) -> (r:
    Result<(RegValue, VerifiedAssertion), ExecStop>)
    ensures
        match r {
            Ok((v, a)) => assert_spec(op@, regs_view(regs@), opts@) == Ok::<
                (RegView, VerifiedAssertionView),
                StopView,
            >((v@, a@)),
            Err(e) => assert_spec(op@, regs_view(regs@), opts@) == Err::<
                (RegView, VerifiedAssertionView),
                StopView,
            >(e@),
        },
{
    let t = assertion_type_from_i32(op.assertion_type);
    if t == AssertionType::Unspecified {
        return Err(fail(ErrorCode::SchemaViolation, "ASSERT assertion_type unspecified"));
    }
    let ghost rv = regs_view(regs@);
    let ghost bs = op.bindings@;
    let mut fields: StrMap<Value> = StrMap::new();
    let mut provenance: Vec<String> = Vec::new();
    let mut taint: Vec<i32> = Vec::new();
    let mut tier = TrustTier::Tier4PolicySigned;
    let mut i: usize = 0;
    assert(provenance@.map_values(|s: String| s@).to_set() =~= Set::<Seq<char>>::empty());
    assert(taint@.to_set() =~= Set::<i32>::empty());
    while i < op.bindings.len()
        invariant
            i <= bs.len(),
            bs == op.bindings@,
            rv == regs_view(regs@),
            t == assertion_type_from(op.assertion_type),
            t != AssertionType::Unspecified,
            bind_all(bs.take(i as int), rv) == Ok::<Gathered, StopView>(
                Gathered {
                    fields: fields@,
                    provenance: provenance@.map_values(|s: String| s@).to_set(),
                    taint: taint@.to_set(),
                    tier,
                },
            ),
        decreases bs.len() - i,
    {
        proof {
            assert(bs.take(i + 1).drop_last() =~= bs.take(i as int));
            assert(bs.take(i + 1).last() == bs[i as int]);
        }
        let name = op.bindings.key_at(i);
        let binding = op.bindings.value_at(i);
        let reg = match find_reg(regs, binding.reg.as_str()) {
            Some(r) => r,
            None => {
                proof {
                    lemma_bind_all_prefix(bs, i + 1, rv);
                }
                return Err(fail(ErrorCode::SchemaViolation, "ASSERT binding register missing"));
            },
        };
        if !(reg.source == SourceKind::Fetch || reg.source == SourceKind::Project) {
            proof {
                lemma_bind_all_prefix(bs, i + 1, rv);
            }
            return Err(
                fail(ErrorCode::SchemaViolation, "ASSERT bindings must trace to FETCH or PROJECT"),
            );
        }
        let value = match extract_binding_value(&reg.data, binding.field_path.as_str()) {
            Ok(v) => v,
            Err(e) => {
                proof {
                    lemma_bind_all_prefix(bs, i + 1, rv);
                }
                return Err(e);
            },
        };
        fields.insert(name.clone(), value);
        extend_names(&mut provenance, &reg.provenance);
        extend_taint(&mut taint, &reg.taint);
        tier = min_tier_exec(tier, reg.min_trust);
        i += 1;
    }
    proof {
        assert(bs.take(bs.len() as int) =~= bs);
    }
    let min_trust = if fields.len() == 0 {
        TrustTier::Unspecified
    } else {
        tier
    };
    let policy = requires_tier2_exec(t);
    if policy && min_trust.number() < TrustTier::Tier2Verified.number() {
        return Err(fail(ErrorCode::UntrustedProvenance, "assertion requires trust tier >= TIER_2"));
    }
    if policy && has_untrusted_taint(&taint) {
        return Err(
            fail(
                ErrorCode::DataLeakPrevention,
                "policy-impacting assertion cannot sink web-untrusted tainted data",
            ),
        );
    }
    if any_blocked(&provenance, opts) {
        return Err(
            fail(ErrorCode::ErrorBrokenLineage, "ASSERT references broken-lineage provenance"),
        );
    }
    let citations = match canonicalize_citations(&op.citations, &provenance, opts) {
        Ok(c) => c,
        Err(e) => {
            return Err(e);
        },
    };
    let assertion = VerifiedAssertion {
        assertion_type: t.number(),
        fields: fields.clone(),
        citations,
    };
    let reg = RegValue {
        data: RegData::Struct(fields),
        provenance,
        taint,
        min_trust,
        join_depth: 0,
        source: SourceKind::Assert,
    };
    Ok((reg, assertion))
}

/// The trust, taint and lineage gates: an ASSERT that succeeds with a
/// policy-impacting type rests on inputs of tier `TIER_2` or above that carry
/// no web-untrusted or mixed taint; outside degraded mode none of its
/// provenance handles has broken lineage; and it keeps its assertion type
/// and binds the same fields it records in its register.
pub proof fn lemma_assert_gates(op: OpAssertView, regs: Seq<(Seq<char>, RegView)>, opts: OptionsView)
    requires
        assert_spec(op, regs, opts) is Ok,
    ensures
        ({
            let (r, a) = assert_spec(op, regs, opts)->Ok_0;
            &&& requires_tier2(assertion_type_from(op.assertion_type)) ==> tier_number(r.min_trust)
                >= tier_number(TrustTier::Tier2Verified) && !untrusted_taint(r.taint)
            &&& forall|h: Seq<char>| r.provenance.contains(h) ==> !lineage_blocked(h, opts)
            &&& a.assertion_type == op.assertion_type
            &&& r.data == RegDataView::Struct(a.fields)
        }),
{
}

/// Once a prefix of the bindings fails, all of them fail the same way.
proof fn lemma_bind_all_prefix(
    bs: Seq<(Seq<char>, crate::proto::ValueRefView)>,
    k: int,
    regs: Seq<(Seq<char>, RegView)>,
)
    requires
        0 <= k <= bs.len(),
        bind_all(bs.take(k), regs) is Err,
    ensures
        bind_all(bs, regs) == bind_all(bs.take(k), regs),
    decreases bs.len(),
{
    if k == bs.len() {
        assert(bs.take(k) =~= bs);
    } else {
        assert(bs.drop_last().take(k) =~= bs.take(k));
        lemma_bind_all_prefix(bs.drop_last(), k, regs);
    }
}

} // verus!
