//! Rendering a finished run: verified blocks from the assertions (or from
//! the output registers when there is none) and the narrative blocks.
use vstd::prelude::*;

use crate::kernel::fields::{push_value_text, reg_text, reg_to_string, value_text};
use crate::kernel::narrative::{
    render_from, render_narrative_template, valid_narrative_template, valid_template,
};
use crate::kernel::options::{ExecuteOptions, OptionsView};
use crate::kernel::regs::{
    find_reg, fail, reg_lookup, regs_view, rejected, ExecStop, RegValue, RegView, StopView,
};
use crate::proto::{
    assertion_type_from, assertion_type_from_i32, assertion_type_name, ErrorCode, OutputSpec,
    OutputSpecView, RenderedOutput, RenderedOutputView, ValueView, VerifiedAssertion,
    VerifiedAssertionView,
};
use crate::text::{join, push_str};

verus! {

/// `name=value` for one assertion field.
pub open spec fn field_text(e: (Seq<char>, ValueView)) -> Seq<char> {
    e.0 + "="@ + value_text(e.1)
}

/// The verified block of an assertion: its type name, then its fields.
pub open spec fn assertion_block(a: VerifiedAssertionView) -> Seq<char> {
    assertion_type_name(assertion_type_from(a.assertion_type)) + ": "@ + join(
        a.fields.map_values(|e: (Seq<char>, ValueView)| field_text(e)),
        ", "@,
    )
}

/// `reg=rendering` for each output register that holds a value.
pub open spec fn output_blocks(outputs: Seq<OutputSpecView>, regs: Seq<(Seq<char>, RegView)>) -> Seq<
    Seq<char>,
>
    decreases outputs.len(),
{
    if outputs.len() == 0 {
        Seq::empty()
    } else {
        let prev = output_blocks(outputs.drop_last(), regs);
        let o = outputs.last();
        match reg_lookup(regs, o.reg) {
            Some(r) => prev.push(o.reg + "="@ + reg_text(r.data)),
            None => prev,
        }
    }
}

/// The verified blocks: one per assertion, or the output registers when the
/// run asserted nothing.
pub open spec fn verified_blocks_spec(
    outputs: Seq<OutputSpecView>,
    regs: Seq<(Seq<char>, RegView)>,
    asserts: Seq<VerifiedAssertionView>,
) -> Seq<Seq<char>> {
    if asserts.len() == 0 {
        output_blocks(outputs, regs)
    } else {
        asserts.map_values(|a: VerifiedAssertionView| assertion_block(a))
    }
}

/// The narrative blocks, template by template; a template that fails the
/// grammar guard, or whose rendering fails, stops the run.
pub open spec fn narrative_spec(templates: Seq<Seq<char>>, asserts: Seq<VerifiedAssertionView>) -> Result<
    Seq<Seq<char>>,
    StopView,
>
    decreases templates.len(),
{
    if templates.len() == 0 {
        Ok(Seq::empty())
    } else {
        match narrative_spec(templates.drop_last(), asserts) {
            Err(e) => Err(e),
            Ok(prev) => {
                let t = templates.last();
                if !valid_template(t) {
                    Err(
                        rejected(
                            ErrorCode::DataLeakPrevention,
                            "narrative template violates grammar guard",
                        ),
                    )
                } else {
                    match render_from(t, 0, asserts) {
                        Err(e) => Err(e),
                        Ok(r) => Ok(prev.push(r)),
                    }
                }
            },
        }
    }
}

/// The rendered output of a finished run.
pub open spec fn render_output_spec(
    outputs: Seq<OutputSpecView>,
    regs: Seq<(Seq<char>, RegView)>,
    asserts: Seq<VerifiedAssertionView>,
    opts: OptionsView,
) -> Result<RenderedOutputView, StopView> {
    match narrative_spec(opts.narrative_templates, asserts) {
        Err(e) => Err(e),
        Ok(n) => Ok(
            RenderedOutputView {
                verified_blocks: verified_blocks_spec(outputs, regs, asserts),
                narrative_blocks: n,
            },
        ),
    }
}

proof fn lemma_join_push(parts: Seq<Seq<char>>, p: Seq<char>, sep: Seq<char>)
    ensures
        join(parts.push(p), sep) == if parts.len() == 0 {
            p
        } else {
            join(parts, sep) + sep + p
        },
{
    assert(parts.push(p).drop_last() =~= parts);
}

/// The verified block of one assertion.
fn assertion_block_exec(a: &VerifiedAssertion) -> (s: String)
    ensures
        s@ == assertion_block(a@),
{
    let mut s = assertion_type_from_i32(a.assertion_type).as_str_name();
    push_str(&mut s, ": ");
    let ghost parts = a@.fields.map_values(|e: (Seq<char>, ValueView)| field_text(e));
    let ghost start = s@;
    let mut i: usize = 0;
    while i < a.fields.len()
        invariant
            i <= a@.fields.len(),
            parts == a@.fields.map_values(|e: (Seq<char>, ValueView)| field_text(e)),
            s@ == start + join(parts.take(i as int), ", "@),
        decreases a@.fields.len() - i,
    {
        if i > 0 {
            push_str(&mut s, ", ");
        }
        push_str(&mut s, a.fields.key_at(i).as_str());
        push_str(&mut s, "=");
        push_value_text(&mut s, a.fields.value_at(i));
        proof {
            lemma_join_push(parts.take(i as int), parts[i as int], ", "@);
            assert(parts.take(i + 1) =~= parts.take(i as int).push(parts[i as int]));
        }
        i += 1;
    }
    assert(parts.take(a@.fields.len() as int) =~= parts);
    assert(s@ =~= assertion_block(a@));
    s
}

fn verified_blocks(
    outputs: &Vec<OutputSpec>,
    regs: &Vec<(String, RegValue)>,
    assertions: &Vec<VerifiedAssertion>,
) -> (out: Vec<String>)
    ensures
        out@.map_values(|s: String| s@) == verified_blocks_spec(
            outputs@.map_values(|o: OutputSpec| o@),
            regs_view(regs@),
            assertions@.map_values(|a: VerifiedAssertion| a@),
        ),
{
    let ghost ov = outputs@.map_values(|o: OutputSpec| o@);
    let ghost rv = regs_view(regs@);
    let ghost av = assertions@.map_values(|a: VerifiedAssertion| a@);
    let mut out: Vec<String> = Vec::new();
    if assertions.len() == 0 {
        let mut i: usize = 0;
        while i < outputs.len()
            invariant
                i <= outputs.len(),
                ov == outputs@.map_values(|o: OutputSpec| o@),
                rv == regs_view(regs@),
                out@.map_values(|s: String| s@) == output_blocks(ov.take(i as int), rv),
            decreases outputs.len() - i,
        {
            proof {
                assert(ov.take(i + 1).drop_last() =~= ov.take(i as int));
                assert(ov.take(i + 1).last() == outputs@[i as int]@);
            }
            match find_reg(regs, outputs[i].reg.as_str()) {
                Some(r) => {
                    let mut s = outputs[i].reg.clone();
                    push_str(&mut s, "=");
                    let body = reg_to_string(&r.data);
                    push_str(&mut s, body.as_str());
                    let ghost before = out@;
                    out.push(s);
                    proof {
                        assert(out@.map_values(|s: String| s@) =~= before.map_values(
                            |s: String| s@,
                        ).push(s@));
                    }
                },
                None => {},
            }
            i += 1;
        }
        assert(ov.take(outputs.len() as int) =~= ov);
    } else {
        let mut i: usize = 0;
        while i < assertions.len()
            invariant
                i <= assertions.len(),
                av == assertions@.map_values(|a: VerifiedAssertion| a@),
                out@.map_values(|s: String| s@) =~= av.take(i as int).map_values(
                    |a: VerifiedAssertionView| assertion_block(a),
                ),
            decreases assertions.len() - i,
        {
            let b = assertion_block_exec(&assertions[i]);
            let ghost before = out@;
            out.push(b);
            proof {
                assert(out@.map_values(|s: String| s@) =~= before.map_values(|s: String| s@).push(
                    b@,
                ));
                assert(av.take(i + 1).map_values(|a: VerifiedAssertionView| assertion_block(a))
                    =~= av.take(i as int).map_values(
                    |a: VerifiedAssertionView| assertion_block(a),
                ).push(assertion_block(av[i as int])));
            }
            i += 1;
        }
        assert(av.take(assertions.len() as int) =~= av);
    }
    out
}

/// Renders a finished run (see [`render_output_spec`]).
pub fn render_output(
    outputs: &Vec<OutputSpec>,
    regs: &Vec<(String, RegValue)>,
    assertions: &Vec<VerifiedAssertion>,
    opts: &ExecuteOptions,
) -> (r: Result<RenderedOutput, ExecStop>)
    ensures
        match r {
            Ok(o) => render_output_spec(
                outputs@.map_values(|o: OutputSpec| o@),
                regs_view(regs@),
                assertions@.map_values(|a: VerifiedAssertion| a@),
                opts@,
            ) == Ok::<RenderedOutputView, StopView>(o@),
            Err(e) => render_output_spec(
                outputs@.map_values(|o: OutputSpec| o@),
                regs_view(regs@),
                assertions@.map_values(|a: VerifiedAssertion| a@),
                opts@,
            ) == Err::<RenderedOutputView, StopView>(e@),
        },
{
    let verified = verified_blocks(outputs, regs, assertions);
    let ghost av = assertions@.map_values(|a: VerifiedAssertion| a@);
    let ghost tv = opts@.narrative_templates;
    let mut narrative: Vec<String> = Vec::new();
    let mut i: usize = 0;
    assert(tv.take(0) =~= Seq::<Seq<char>>::empty());
    assert(narrative@.map_values(|s: String| s@) =~= Seq::<Seq<char>>::empty());
    while i < opts.narrative_templates.len()
        invariant
            i <= opts.narrative_templates.len(),
            av == assertions@.map_values(|a: VerifiedAssertion| a@),
            tv == opts@.narrative_templates,
            tv.len() == opts.narrative_templates.len(),
            narrative_spec(tv.take(i as int), av) == Ok::<Seq<Seq<char>>, StopView>(
                narrative@.map_values(|s: String| s@),
            ),
        decreases opts.narrative_templates.len() - i,
    {
        let t = &opts.narrative_templates[i];
        proof {
            assert(tv.take(i + 1).drop_last() =~= tv.take(i as int));
            assert(tv.take(i + 1).last() == t@);
        }
        if !valid_narrative_template(t.as_str()) {
            proof {
                lemma_narrative_prefix(tv, i + 1, av);
            }
            return Err(
                fail(ErrorCode::DataLeakPrevention, "narrative template violates grammar guard"),
            );
        }
        match render_narrative_template(t.as_str(), assertions) {
            Ok(block) => {
                let ghost before = narrative@;
                narrative.push(block);
                proof {
                    assert(narrative@.map_values(|s: String| s@) =~= before.map_values(
                        |s: String| s@,
                    ).push(block@));
                }
            },
            Err(e) => {
                proof {
                    lemma_narrative_prefix(tv, i + 1, av);
                }
                return Err(e);
            },
        }
        i += 1;
    }
    proof {
        assert(tv.take(tv.len() as int) =~= tv);
    }
    Ok(RenderedOutput { verified_blocks: verified, narrative_blocks: narrative })
}

/// Once a prefix of the templates fails, the narrative fails the same way.
proof fn lemma_narrative_prefix(ts: Seq<Seq<char>>, k: int, asserts: Seq<VerifiedAssertionView>)
    requires
        0 <= k <= ts.len(),
        narrative_spec(ts.take(k), asserts) is Err,
    ensures
        narrative_spec(ts, asserts) == narrative_spec(ts.take(k), asserts),
    decreases ts.len(),
{
    if k == ts.len() {
        assert(ts.take(k) =~= ts);
    } else {
        assert(ts.drop_last().take(k) =~= ts.take(k));
        lemma_narrative_prefix(ts.drop_last(), k, asserts);
    }
}

} // verus!
