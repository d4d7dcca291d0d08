//! The state behind the RMVM executor service: events that state a
//! preference become handles, the manifest lists them, and forgetting
//! suppresses the matching ones with a verified decision.
use vstd::prelude::*;

use crate::proto::{
    scope_name, CanonicalCitation, CanonicalCitationView, HandleMeta, HandleMetaView, HandleRef,
    HandleRefView, ParamSpec, PlanBudget, PublicManifest, PublicManifestView, RenderedOutput,
    RenderedOutputView, Scope, SelectorRef, TemporalBound, TemporalBoundView, Value, ValueKind,
    ValueKindView, ValueView, VerifiedAssertion, VerifiedAssertionView, TAINT_USER,
    ParamSpecView, PlanBudgetView, SelectorRefView,
};
use crate::smap::{lemma_smap_insert_last, smap_insert, smap_keys, smap_sorted, StrMap};
use crate::text::{
    ascii_lower, ascii_lower_exec, chars_of, concat2, dec_nat, is_blank, is_prefix, owned,
    push_str, push_u64, str_eq, str_is_empty, string_from, trim, trim_chars, u64_to_string,
    seq_less, skip_chars,
};

verus! {

/// A request to record an event.
pub struct AppendEventRequest {
    pub request_id: String,
    pub subject: String,
    pub text: String,
    pub scope: i32,
}

/// The recorded event and the handles it produced.
pub struct AppendEventResponse {
    pub event_id: String,
    pub handle_refs: Vec<String>,
}

/// A request for the manifest.
pub struct GetManifestRequest {
    pub request_id: String,
}

/// A request to forget preferences: empty fields and an unspecified scope
/// match everything.
pub struct ForgetRequest {
    pub subject: String,
    pub predicate_label: String,
    pub scope: i32,
}

/// The decision a forget request produced.
pub struct ForgetResponse {
    pub status: i32,
    pub assertions: Vec<VerifiedAssertion>,
    pub rendered: Option<RenderedOutput>,
    pub error: Option<crate::proto::ExecutionError>,
}

/// The preference an event's text states: after trimming, text that starts
/// with `i prefer ` or `prefer ` (in any ASCII case) followed by a non-blank
/// value.
pub open spec fn preference_spec(text: Seq<char>) -> Option<Seq<char>> {
    let n = trim(text);
    let lower = n.map_values(|c: char| ascii_lower(c));
    if is_prefix("i prefer "@, lower) && trim(n.skip(9)).len() != 0 {
        Some(trim(n.skip(9)))
    } else if is_prefix("prefer "@, lower) && trim(n.skip(7)).len() != 0 {
        Some(trim(n.skip(7)))
    } else {
        None
    }
}

/// The preference an event's text states (see [`preference_spec`]); the
/// predicate it is recorded under is `prefers_beverage`.
pub fn parse_preference(text: &str) -> (r: Option<String>)
    ensures
        match r {
            Some(v) => preference_spec(text@) == Some(v@),
            None => preference_spec(text@) is None,
        },
{
    let cs = chars_of(text);
    let n = trim_chars(&cs);
    let mut lower: Vec<char> = Vec::new();
    let mut i: usize = 0;
    while i < n.len()
        invariant
            i <= n.len(),
            lower@ == n@.take(i as int).map_values(|c: char| ascii_lower(c)),
        decreases n.len() - i,
    {
        lower.push(ascii_lower_exec(n[i]));
        proof {
            assert(n@.take(i + 1) =~= n@.take(i as int).push(n@[i as int]));
            assert(lower@ =~= n@.take(i + 1).map_values(|c: char| ascii_lower(c)));
        }
        i += 1;
    }
    assert(n@.take(n.len() as int) =~= n@);
    if crate::text::starts_with(&lower, "i prefer ") {
        proof {
            reveal_strlit("i prefer ");
        }
        let rest = skip_chars(&n, 9);
        let v = trim_chars(&rest);
        if v.len() != 0 {
            return Some(string_from(&v));
        }
    }
    if crate::text::starts_with(&lower, "prefer ") {
        proof {
            reveal_strlit("prefer ");
        }
        let rest = skip_chars(&n, 7);
        let v = trim_chars(&rest);
        if v.len() != 0 {
            return Some(string_from(&v));
        }
    }
    proof {
        reveal_strlit("i prefer ");
        reveal_strlit("prefer ");
        if is_prefix("i prefer "@, lower@) && is_prefix("prefer "@, lower@) {
            assert(lower@.take(9)[0] == lower@[0]);
            assert(lower@.take(7)[0] == lower@[0]);
            assert(lower@[0] == 'i');
            assert(lower@[0] == 'p');
        }
    }
    None
}

/// The model of the service state.
pub struct ServiceView {
    pub next_event_id: u64,
    pub next_handle_id: u64,
    pub handles: Seq<(Seq<char>, HandleRefView)>,
}

/// The service state: event and handle counters and the handles by reference.
pub struct ServiceState {
    next_event_id: u64,
    next_handle_id: u64,
    handles: StrMap<HandleRef>,
}

impl View for ServiceState {
    type V = ServiceView;

    closed spec fn view(&self) -> ServiceView {
        ServiceView {
            next_event_id: self.next_event_id,
            next_handle_id: self.next_handle_id,
            handles: self.handles@,
        }
    }
}

/// The scope an event is recorded under: the requested one when it is a
/// known scope, else `SCOPE_GLOBAL`.
pub open spec fn event_scope(v: i32) -> Scope {
    if v == 0 {
        Scope::Unspecified
    } else {
        Scope::Global
    }
}

/// The handle an event stating `value` for `subject` produces.
pub open spec fn preference_handle(
    handle_ref: Seq<char>,
    subject: Seq<char>,
    value: Seq<char>,
    scope: Scope,
) -> HandleRefView {
    HandleRefView {
        ref_id: handle_ref,
        type_id: "normative.preference"@,
        availability: 1,
        meta: Some(
            HandleMetaView {
                subject,
                predicate_label: "prefers_beverage"@,
                trust_tier: 4,
                taint: seq![TAINT_USER],
                temporal: Some(TemporalBoundView { valid_from: None, valid_to: None, open_end: true }),
                scope: if scope == Scope::Unspecified {
                    0
                } else {
                    1
                },
            },
        ),
        signature_summary: "prefers_beverage="@ + value,
        conflict_group_id: "conflict:prefers_beverage:"@ + subject + ":"@ + scope_name(scope),
    }
}

/// The subject an event is recorded for: `user:unknown` when blank.
pub open spec fn event_subject(s: Seq<char>) -> Seq<char> {
    if trim(s).len() == 0 {
        "user:unknown"@
    } else {
        s
    }
}

/// Whether a handle is forgotten by a request.
pub open spec fn forgotten(h: HandleRefView, subject: Seq<char>, predicate: Seq<char>, scope: i32) -> bool {
    match h.meta {
        None => false,
        Some(m) => (subject.len() == 0 || m.subject == subject) && (predicate.len() == 0
            || m.predicate_label == predicate) && (scope == 0 || m.scope == scope),
    }
}

/// The scope filter of a forget request: the requested scope when it is a
/// known one, else none.
pub open spec fn forget_scope(v: i32) -> i32 {
    if v == 1 {
        1
    } else {
        0
    }
}

/// The entries a forget request keeps, in order.
pub open spec fn kept_entries(
    m: Seq<(Seq<char>, HandleRefView)>,
    subject: Seq<char>,
    predicate: Seq<char>,
    scope: i32,
) -> Seq<(Seq<char>, HandleRefView)>
    decreases m.len(),
{
    if m.len() == 0 {
        Seq::empty()
    } else {
        let rest = kept_entries(m.drop_last(), subject, predicate, scope);
        if forgotten(m.last().1, subject, predicate, scope) {
            rest
        } else {
            rest.push(m.last())
        }
    }
}

/// The references a forget request removes, in order.
pub open spec fn removed_refs(
    m: Seq<(Seq<char>, HandleRefView)>,
    subject: Seq<char>,
    predicate: Seq<char>,
    scope: i32,
) -> Seq<Seq<char>>
    decreases m.len(),
{
    if m.len() == 0 {
        Seq::empty()
    } else {
        let rest = removed_refs(m.drop_last(), subject, predicate, scope);
        if forgotten(m.last().1, subject, predicate, scope) {
            rest.push(m.last().0)
        } else {
            rest
        }
    }
}

/// A string value.
pub open spec fn str_value(s: Seq<char>) -> ValueView {
    ValueView { v: Some(ValueKindView::S(s)) }
}

/// The decision a forget request answers: one `ASSERT_DECISION` whose
/// fields are set in the order `action`, `subject`, `predicate_label`,
/// `suppressed_count`, citing each removed handle, and a sentence counting
/// them.
pub open spec fn forget_answer(removed: Seq<Seq<char>>, subject: Seq<char>, predicate: Seq<char>) -> (
    VerifiedAssertionView,
    Seq<char>,
) {
    let f0 = smap_insert(Seq::empty(), "action"@, str_value("suppressed_preference"@));
    let f1 = smap_insert(f0, "subject"@, str_value(subject));
    let f2 = smap_insert(f1, "predicate_label"@, str_value(predicate));
    let f3 = smap_insert(
        f2,
        "suppressed_count"@,
        ValueView { v: Some(ValueKindView::I64(removed.len() as i64)) },
    );
    (
        VerifiedAssertionView {
            assertion_type: 3,
            fields: f3,
            citations: removed.map_values(|h: Seq<char>| CanonicalCitationView { anchor_digest: "handle:"@ + h }),
        },
        "Suppressed "@ + dec_nat(removed.len()) + " preference handles for "@ + subject + " / "@
            + predicate + "."@,
    )
}

/// The manifest the service publishes: its handles in reference order, the
/// one selector `S0` (a `subject` string parameter, cost weight 1.25,
/// returning a handle set), no context, and the budget 128 / 3 / 64 / 256.0.
pub open spec fn manifest_spec(
    handles: Seq<(Seq<char>, HandleRefView)>,
    request_id: Seq<char>,
) -> PublicManifestView {
    PublicManifestView {
        request_id,
        handles: handles.map_values(|e: (Seq<char>, HandleRefView)| e.1),
        selectors: seq![
            SelectorRefView {
                sel: "S0"@,
                description: "Find preferences for subject"@,
                params: seq![
                    ParamSpecView { name: "subject"@, param_type: 1, enum_values: Seq::empty() },
                ],
                cost_weight_bits: 0x3FF4000000000000u64,
                return_type: 2,
            },
        ],
        context: Seq::empty(),
        budget: Some(
            PlanBudgetView {
                max_ops: 128,
                max_join_depth: 3,
                max_fanout: 64,
                max_total_cost_bits: 0x4070000000000000u64,
            },
        ),
    }
}

fn str_value_exec(s: &str) -> (v: Value)
    ensures
        v@ == str_value(s@),
{
    Value { v: Some(ValueKind::S(owned(s))) }
}

impl ServiceState {
    /// Each handle is stored under its own reference.
    #[verifier::type_invariant]
    spec fn wf(self) -> bool {
        forall|i: int| 0 <= i < self.handles@.len() ==> (#[trigger] self.handles@[i]).0 == self.handles@[i].1.ref_id
    }

    /// A fresh state: no event, no handle.
    pub fn new() -> (s: ServiceState)
        ensures
            s@.next_event_id == 0,
            s@.next_handle_id == 0,
            s@.handles == Seq::<(Seq<char>, HandleRefView)>::empty(),
    {
        ServiceState { next_event_id: 0, next_handle_id: 0, handles: StrMap::new() }
    }

    /// The last event and handle numbers given out.
    pub fn next_ids(&self) -> (r: (u64, u64))
        ensures
            r.0 == self@.next_event_id,
            r.1 == self@.next_handle_id,
    {
        (self.next_event_id, self.next_handle_id)
    }

    /// Records an event: it gets the next event id `EVTn`; a stated
    /// preference also becomes handle `Hm` under the next handle number.
    pub fn append_event(&mut self, req: &AppendEventRequest) -> (resp: AppendEventResponse)
        requires
            old(self)@.next_event_id < u64::MAX,
            old(self)@.next_handle_id < u64::MAX,
        ensures
            final(self)@.next_event_id == old(self)@.next_event_id + 1,
            resp.event_id@ == "EVT"@ + dec_nat(final(self)@.next_event_id as nat),
            match preference_spec(req.text@) {
                None => {
                    &&& final(self)@.next_handle_id == old(self)@.next_handle_id
                    &&& final(self)@.handles == old(self)@.handles
                    &&& resp.handle_refs@.len() == 0
                },
                Some(value) => {
                    let r = "H"@ + dec_nat(final(self)@.next_handle_id as nat);
                    &&& final(self)@.next_handle_id == old(self)@.next_handle_id + 1
                    &&& final(self)@.handles == smap_insert(
                        old(self)@.handles,
                        r,
                        preference_handle(r, event_subject(req.subject@), value, event_scope(req.scope)),
                    )
                    &&& resp.handle_refs@.map_values(|s: String| s@) == seq![r]
                },
            },
    {
        proof {
            use_type_invariant(&*self);
            use_type_invariant(&self.handles);
        }
        self.next_event_id = self.next_event_id + 1;
        let event_id = concat2("EVT", u64_to_string(self.next_event_id).as_str());
        let subject = if is_blank(req.subject.as_str()) {
            owned("user:unknown")
        } else {
            owned(req.subject.as_str())
        };
        let mut handle_refs: Vec<String> = Vec::new();
        match parse_preference(req.text.as_str()) {
            None => {},
            Some(value) => {
                self.next_handle_id = self.next_handle_id + 1;
                let handle_ref = concat2("H", u64_to_string(self.next_handle_id).as_str());
                let scope = if req.scope == 0 {
                    Scope::Unspecified
                } else {
                    Scope::Global
                };
                let mut taint: Vec<i32> = Vec::new();
                taint.push(TAINT_USER);
                let mut conflict = concat2("conflict:prefers_beverage:", subject.as_str());
                push_str(&mut conflict, ":");
                push_str(&mut conflict, scope.as_str_name().as_str());
                let handle = HandleRef {
                    ref_id: owned(handle_ref.as_str()),
                    type_id: owned("normative.preference"),
                    availability: 1,
                    meta: Some(
                        HandleMeta {
                            subject: owned(subject.as_str()),
                            predicate_label: owned("prefers_beverage"),
                            trust_tier: 4,
                            taint,
                            temporal: Some(
                                TemporalBound { valid_from: None, valid_to: None, open_end: true },
                            ),
                            scope: if req.scope == 0 {
                                0
                            } else {
                                1
                            },
                        },
                    ),
                    signature_summary: concat2("prefers_beverage=", value.as_str()),
                    conflict_group_id: conflict,
                };
                proof {
                    assert(handle@.meta->Some_0.taint =~= seq![TAINT_USER]);
                    assert(handle@ =~= preference_handle(
                        handle_ref@,
                        event_subject(req.subject@),
                        value@,
                        event_scope(req.scope),
                    ));
                }
                let ghost before = self.handles@;
                let mut handles = StrMap::new();
                std::mem::swap(&mut handles, &mut self.handles);
                handles.insert(owned(handle_ref.as_str()), handle);
                proof {
                    crate::smap::lemma_smap_insert_sorted(before, handle_ref@, handle@);
                    assert forall|i: int| 0 <= i < handles@.len() implies (#[trigger] handles@[i]).0
                        == handles@[i].1.ref_id by {
                        lemma_insert_entries(before, handle_ref@, handle@, i);
                    };
                }
                self.handles = handles;
                handle_refs.push(handle_ref);
            },
        }
        proof {
            if handle_refs@.len() > 0 {
                assert(handle_refs@.map_values(|s: String| s@) =~= seq![handle_refs@[0]@]);
            }
        }
        AppendEventResponse { event_id, handle_refs }
    }

    /// The manifest over the current handles.
    pub fn get_manifest(&self, req: &GetManifestRequest) -> (m: PublicManifest)
        ensures
            m@ == manifest_spec(self@.handles, req.request_id@),
    {
        let mut handles: Vec<HandleRef> = Vec::new();
        let mut i: usize = 0;
        while i < self.handles.len()
            invariant
                i <= self.handles@.len(),
                handles@.map_values(|h: HandleRef| h@) == self.handles@.take(i as int).map_values(
                    |e: (Seq<char>, HandleRefView)| e.1,
                ),
            decreases self.handles@.len() - i,
        {
            let hr = self.handles.value_at(i);
            let h = hr.clone();
            assert(h@ == self.handles@[i as int].1);
            let ghost prev = handles@;
            handles.push(h);
            proof {
                assert(handles@.map_values(|h: HandleRef| h@) =~= prev.map_values(|h: HandleRef| h@).push(
                    self.handles@[i as int].1,
                ));
                assert(self.handles@.take(i + 1) =~= self.handles@.take(i as int).push(
                    self.handles@[i as int],
                ));
                assert(handles@.map_values(|h: HandleRef| h@) =~= self.handles@.take(i + 1).map_values(
                    |e: (Seq<char>, HandleRefView)| e.1,
                ));
            }
            i += 1;
        }
        assert(self.handles@.take(i as int) =~= self.handles@);
        let mut params: Vec<ParamSpec> = Vec::new();
        params.push(ParamSpec { name: owned("subject"), param_type: 1, enum_values: Vec::new() });
        let mut selectors: Vec<SelectorRef> = Vec::new();
        selectors.push(
            SelectorRef {
                sel: owned("S0"),
                description: owned("Find preferences for subject"),
                params,
                cost_weight_bits: 0x3FF4000000000000u64,
                return_type: 2,
            },
        );
        let m = PublicManifest {
            request_id: owned(req.request_id.as_str()),
            handles,
            selectors,
            context: Vec::new(),
            budget: Some(
                PlanBudget {
                    max_ops: 128,
                    max_join_depth: 3,
                    max_fanout: 64,
                    max_total_cost_bits: 0x4070000000000000u64,
                },
            ),
        };
        proof {
            assert(m.selectors@[0].params@[0]@.enum_values =~= Seq::<Seq<char>>::empty());
            assert(m@.selectors[0].params =~= seq![
                ParamSpecView { name: "subject"@, param_type: 1, enum_values: Seq::empty() },
            ]);
            assert(m@.selectors =~= manifest_spec(self@.handles, req.request_id@).selectors);
            assert(m@.context =~= Seq::<crate::proto::ContextVarView>::empty());
            assert(m@ =~= manifest_spec(self@.handles, req.request_id@));
        }
        m
    }

    /// Suppresses every preference handle the request matches (an empty
    /// subject or predicate and an unknown scope match any) and answers the
    /// decision: the removed references in order, cited and counted.
    pub fn forget(&mut self, req: &ForgetRequest) -> (resp: ForgetResponse)
        ensures
            final(self)@.next_event_id == old(self)@.next_event_id,
            final(self)@.next_handle_id == old(self)@.next_handle_id,
            final(self)@.handles == kept_entries(
                old(self)@.handles,
                req.subject@,
                req.predicate_label@,
                forget_scope(req.scope),
            ),
            resp.status == 1,
            resp.error is None,
            ({
                let removed = removed_refs(
                    old(self)@.handles,
                    req.subject@,
                    req.predicate_label@,
                    forget_scope(req.scope),
                );
                let ans = forget_answer(removed, req.subject@, req.predicate_label@);
                &&& resp.assertions@.map_values(|a: VerifiedAssertion| a@) == seq![ans.0]
                &&& resp.rendered matches Some(r) && r@ == (RenderedOutputView {
                    verified_blocks: seq![ans.1],
                    narrative_blocks: Seq::empty(),
                })
            }),
    {
        proof {
            use_type_invariant(&*self);
            use_type_invariant(&self.handles);
        }
        let scope: i32 = if req.scope == 1 {
            1
        } else {
            0
        };
        let ghost old_h = self.handles@;
        let ghost subj = req.subject@;
        let ghost pred = req.predicate_label@;
        let mut kept: StrMap<HandleRef> = StrMap::new();
        let mut removed: Vec<String> = Vec::new();
        let mut i: usize = 0;
        while i < self.handles.len()
            invariant
                i <= old_h.len(),
                self.handles@ == old_h,
                smap_sorted(old_h),
                subj == req.subject@,
                pred == req.predicate_label@,
                scope == forget_scope(req.scope),
                kept@ == kept_entries(old_h.take(i as int), subj, pred, scope),
                removed@.map_values(|s: String| s@) == removed_refs(old_h.take(i as int), subj, pred, scope),
                forall|k: int| 0 <= k < kept@.len() ==> exists|j: int| 0 <= j < i && #[trigger] kept@[k] == old_h[j],
            decreases old_h.len() - i,
        {
            let key = self.handles.key_at(i);
            let h = self.handles.value_at(i);
            let ghost t = old_h.take(i + 1);
            proof {
                assert(t.drop_last() =~= old_h.take(i as int));
                assert(t.last() == old_h[i as int]);
            }
            let drop = match &h.meta {
                None => false,
                Some(m) => (str_is_empty(req.subject.as_str()) || str_eq(m.subject.as_str(), req.subject.as_str()))
                    && (str_is_empty(req.predicate_label.as_str()) || str_eq(
                    m.predicate_label.as_str(),
                    req.predicate_label.as_str(),
                )) && (scope == 0 || m.scope == scope),
            };
            assert(drop == forgotten(old_h[i as int].1, subj, pred, scope));
            if drop {
                removed.push(owned(key.as_str()));
                proof {
                    assert(removed@.map_values(|s: String| s@) =~= removed_refs(t, subj, pred, scope));
                }
            } else {
                let ghost before = kept@;
                proof {
                    assert forall|k: int| 0 <= k < before.len() implies seq_less(
                        #[trigger] before[k].0,
                        key@,
                    ) by {
                        let j = choose|j: int| 0 <= j < i && before[k] == old_h[j];
                        assert(smap_keys(old_h)[j] == old_h[j].0);
                        assert(smap_keys(old_h)[i as int] == old_h[i as int].0);
                    };
                    use_type_invariant(&kept);
                }
                kept.insert(owned(key.as_str()), h.clone());
                proof {
                    lemma_smap_insert_last(before, key@, old_h[i as int].1);
                    assert forall|k: int| 0 <= k < kept@.len() implies exists|j: int|
                        0 <= j < i + 1 && #[trigger] kept@[k] == old_h[j] by {
                        if k < before.len() {
                            let j = choose|j: int| 0 <= j < i && before[k] == old_h[j];
                            assert(kept@[k] == old_h[j]);
                        } else {
                            assert(kept@[k] == old_h[i as int]);
                        }
                    };
                }
            }
            i += 1;
        }
        proof {
            assert(old_h.take(i as int) =~= old_h);
            assert forall|k: int| 0 <= k < kept@.len() implies (#[trigger] kept@[k]).0 == kept@[k].1.ref_id by {
                let j = choose|j: int| 0 <= j < i && kept@[k] == old_h[j];
            };
        }
        self.handles = kept;
        let n = removed.len();
        let mut citations: Vec<CanonicalCitation> = Vec::new();
        let mut c: usize = 0;
        while c < n
            invariant
                n == removed.len(),
                c <= n,
                citations@.map_values(|x: CanonicalCitation| x@) == removed@.take(c as int).map_values(
                    |h: String| CanonicalCitationView { anchor_digest: "handle:"@ + h@ },
                ),
            decreases n - c,
        {
            let cit = CanonicalCitation { anchor_digest: concat2("handle:", removed[c].as_str()) };
            assert(cit@ == (CanonicalCitationView { anchor_digest: "handle:"@ + removed@[c as int]@ }));
            let ghost prev = citations@;
            citations.push(cit);
            proof {
                assert(citations@.map_values(|x: CanonicalCitation| x@) =~= prev.map_values(
                    |x: CanonicalCitation| x@,
                ).push(cit@));
                assert(removed@.take(c + 1) =~= removed@.take(c as int).push(removed@[c as int]));
                assert(citations@.map_values(|x: CanonicalCitation| x@) =~= removed@.take(c + 1).map_values(
                    |h: String| CanonicalCitationView { anchor_digest: "handle:"@ + h@ },
                ));
            }
            c += 1;
        }
        let ghost removed_v = removed@.map_values(|s: String| s@);
        proof {
            assert(removed@.take(c as int) =~= removed@);
            assert(citations@.map_values(|x: CanonicalCitation| x@) =~= removed_v.map_values(
                |h: Seq<char>| CanonicalCitationView { anchor_digest: "handle:"@ + h },
            ));
        }
        let mut fields: StrMap<Value> = StrMap::new();
        fields.insert(owned("action"), str_value_exec("suppressed_preference"));
        fields.insert(owned("subject"), str_value_exec(req.subject.as_str()));
        fields.insert(owned("predicate_label"), str_value_exec(req.predicate_label.as_str()));
        fields.insert(owned("suppressed_count"), Value { v: Some(ValueKind::I64(#[verifier::truncate] (n as i64))) });
        let assertion = VerifiedAssertion { assertion_type: 3, fields, citations };
        let mut sentence = owned("Suppressed ");
        push_u64(&mut sentence, n as u64);
        push_str(&mut sentence, " preference handles for ");
        push_str(&mut sentence, req.subject.as_str());
        push_str(&mut sentence, " / ");
        push_str(&mut sentence, req.predicate_label.as_str());
        push_str(&mut sentence, ".");
        let mut assertions: Vec<VerifiedAssertion> = Vec::new();
        assertions.push(assertion);
        let mut verified_blocks: Vec<String> = Vec::new();
        verified_blocks.push(sentence);
        let rendered = RenderedOutput { verified_blocks, narrative_blocks: Vec::new() };
        proof {
            let ans = forget_answer(removed_v, subj, pred);
            assert(assertions@.map_values(|a: VerifiedAssertion| a@) =~= seq![ans.0]);
            assert(rendered@ =~= (RenderedOutputView {
                verified_blocks: seq![ans.1],
                narrative_blocks: Seq::empty(),
            }));
        }
        ForgetResponse { status: 1, assertions, rendered: Some(rendered), error: None }
    }
}

/// Forgetting is idempotent: a second forget with the same request keeps
/// every handle the first one kept and removes none.
pub proof fn lemma_forget_idempotent(
    m: Seq<(Seq<char>, HandleRefView)>,
    subject: Seq<char>,
    predicate: Seq<char>,
    scope: i32,
)
    ensures
        kept_entries(kept_entries(m, subject, predicate, scope), subject, predicate, scope)
            == kept_entries(m, subject, predicate, scope),
        removed_refs(kept_entries(m, subject, predicate, scope), subject, predicate, scope).len()
            == 0,
    decreases m.len(),
{
    if m.len() > 0 {
        let rest = kept_entries(m.drop_last(), subject, predicate, scope);
        lemma_forget_idempotent(m.drop_last(), subject, predicate, scope);
        if !forgotten(m.last().1, subject, predicate, scope) {
            let k = rest.push(m.last());
            assert(k.drop_last() =~= rest);
        }
    }
}

/// After a forget, no handle that stays matches the request, so the
/// manifest no longer surfaces any suppressed preference.
pub proof fn lemma_forget_excludes(
    m: Seq<(Seq<char>, HandleRefView)>,
    subject: Seq<char>,
    predicate: Seq<char>,
    scope: i32,
    i: int,
)
    requires
        0 <= i < kept_entries(m, subject, predicate, scope).len(),
    ensures
        !forgotten(kept_entries(m, subject, predicate, scope)[i].1, subject, predicate, scope),
    decreases m.len(),
{
    let rest = kept_entries(m.drop_last(), subject, predicate, scope);
    if i < rest.len() {
        lemma_forget_excludes(m.drop_last(), subject, predicate, scope, i);
    }
}

/// Forgetting splits the handles: every one is either kept or removed.
pub proof fn lemma_forget_partitions(
    m: Seq<(Seq<char>, HandleRefView)>,
    subject: Seq<char>,
    predicate: Seq<char>,
    scope: i32,
)
    ensures
        kept_entries(m, subject, predicate, scope).len() + removed_refs(m, subject, predicate, scope).len()
            == m.len(),
    decreases m.len(),
{
    if m.len() > 0 {
        lemma_forget_partitions(m.drop_last(), subject, predicate, scope);
    }
}

/// An entry of a map after an insert is the inserted one or an entry from before.
proof fn lemma_insert_entries(
    m: Seq<(Seq<char>, HandleRefView)>,
    k: Seq<char>,
    v: HandleRefView,
    i: int,
)
    requires
        forall|j: int| 0 <= j < m.len() ==> (#[trigger] m[j]).0 == m[j].1.ref_id,
        v.ref_id == k,
        0 <= i < smap_insert(m, k, v).len(),
    ensures
        smap_insert(m, k, v)[i].0 == smap_insert(m, k, v)[i].1.ref_id,
    decreases m.len(),
{
    if m.len() == 0 {
    } else if m[0].0 == k {
        if i > 0 {
            assert(smap_insert(m, k, v)[i] == m[i]);
        }
    } else if seq_less(k, m[0].0) {
        if i > 0 {
            assert(smap_insert(m, k, v)[i] == m[i - 1]);
        }
    } else {
        if i > 0 {
            assert forall|j: int| 0 <= j < m.drop_first().len() implies (#[trigger] m.drop_first()[j]).0
                == m.drop_first()[j].1.ref_id by {
                assert(m.drop_first()[j] == m[j + 1]);
            };
            lemma_insert_entries(m.drop_first(), k, v, i - 1);
        }
    }
}

} // verus!
