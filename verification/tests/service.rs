use cortex_rmvm::proto::{Scope, ValueKind};
use cortex_rmvm::service::{
    parse_preference, AppendEventRequest, ForgetRequest, GetManifestRequest, ServiceState,
};

fn append(state: &mut ServiceState, subject: &str, text: &str, scope: i32) -> (String, Vec<String>) {
    let resp = state.append_event(&AppendEventRequest {
        request_id: "r".to_string(),
        subject: subject.to_string(),
        text: text.to_string(),
        scope,
    });
    (resp.event_id, resp.handle_refs)
}

fn forget(state: &mut ServiceState, subject: &str, predicate: &str, scope: i32) -> cortex_rmvm::service::ForgetResponse {
    state.forget(&ForgetRequest {
        subject: subject.to_string(),
        predicate_label: predicate.to_string(),
        scope,
    })
}

#[test]
fn preferences_are_parsed_case_insensitively_and_trimmed() {
    assert_eq!(parse_preference("  I Prefer   green tea  ").as_deref(), Some("green tea"));
    assert_eq!(parse_preference("prefer coffee").as_deref(), Some("coffee"));
    assert_eq!(parse_preference("i prefer    "), None);
    assert_eq!(parse_preference("I like tea"), None);
    assert_eq!(parse_preference(""), None);
}

#[test]
fn events_count_up_and_preferences_become_handles() {
    let mut state = ServiceState::new();
    let (e1, h1) = append(&mut state, "user:vinz", "I prefer tea", Scope::Global as i32);
    assert_eq!(e1, "EVT1");
    assert_eq!(h1, vec!["H1".to_string()]);
    let (e2, h2) = append(&mut state, "", "hello there", 0);
    assert_eq!(e2, "EVT2");
    assert!(h2.is_empty());
    let (e3, h3) = append(&mut state, "   ", "prefer coffee", 7);
    assert_eq!(e3, "EVT3");
    assert_eq!(h3, vec!["H2".to_string()]);

    let manifest = state.get_manifest(&GetManifestRequest { request_id: "req-9".to_string() });
    assert_eq!(manifest.request_id, "req-9");
    assert_eq!(manifest.handles.len(), 2);
    let a = &manifest.handles[0];
    assert_eq!(a.ref_id, "H1");
    assert_eq!(a.type_id, "normative.preference");
    assert_eq!(a.availability, 1);
    assert_eq!(a.signature_summary, "prefers_beverage=tea");
    assert_eq!(a.conflict_group_id, "conflict:prefers_beverage:user:vinz:SCOPE_GLOBAL");
    let meta = a.meta.as_ref().unwrap();
    assert_eq!(meta.subject, "user:vinz");
    assert_eq!(meta.predicate_label, "prefers_beverage");
    assert_eq!(meta.trust_tier, 4);
    assert_eq!(meta.scope, 1);
    let b = &manifest.handles[1];
    assert_eq!(b.ref_id, "H2");
    let bm = b.meta.as_ref().unwrap();
    assert_eq!(bm.subject, "user:unknown");
    assert_eq!(bm.scope, Scope::Global as i32);
    assert_eq!(b.signature_summary, "prefers_beverage=coffee");
}

#[test]
fn unspecified_scope_is_kept_on_the_handle() {
    let mut state = ServiceState::new();
    append(&mut state, "u", "prefer milk", 0);
    let manifest = state.get_manifest(&GetManifestRequest { request_id: String::new() });
    let h = &manifest.handles[0];
    assert_eq!(h.meta.as_ref().unwrap().scope, 0);
    assert_eq!(h.conflict_group_id, "conflict:prefers_beverage:u:SCOPE_UNSPECIFIED");
}

#[test]
fn manifest_publishes_one_selector_and_the_budget() {
    let state = ServiceState::new();
    let m = state.get_manifest(&GetManifestRequest { request_id: "x".to_string() });
    assert!(m.handles.is_empty());
    assert!(m.context.is_empty());
    assert_eq!(m.selectors.len(), 1);
    let s = &m.selectors[0];
    assert_eq!(s.sel, "S0");
    assert_eq!(s.description, "Find preferences for subject");
    assert_eq!(f64::from_bits(s.cost_weight_bits), 1.25);
    assert_eq!(s.return_type, 2);
    assert_eq!(s.params.len(), 1);
    assert_eq!(s.params[0].name, "subject");
    assert_eq!(s.params[0].param_type, 1);
    let b = m.budget.as_ref().unwrap();
    assert_eq!((b.max_ops, b.max_join_depth, b.max_fanout), (128, 3, 64));
    assert_eq!(f64::from_bits(b.max_total_cost_bits), 256.0);
}

#[test]
fn forget_suppresses_matching_handles_and_reports_them() {
    let mut state = ServiceState::new();
    append(&mut state, "user:a", "prefer tea", 1);
    append(&mut state, "user:b", "prefer coffee", 1);
    append(&mut state, "user:a", "prefer water", 0);
    let resp = forget(&mut state, "user:a", "prefers_beverage", 0);
    assert_eq!(resp.status, 1);
    assert!(resp.error.is_none());
    assert_eq!(resp.assertions.len(), 1);
    let a = &resp.assertions[0];
    assert_eq!(a.assertion_type, 3);
    let cites: Vec<&str> = a.citations.iter().map(|c| c.anchor_digest.as_str()).collect();
    assert_eq!(cites, vec!["handle:H1", "handle:H3"]);
    assert_eq!(a.fields.len(), 4);
    let keys: Vec<&str> = (0..a.fields.len()).map(|i| a.fields.key_at(i).as_str()).collect();
    assert_eq!(keys, vec!["action", "predicate_label", "subject", "suppressed_count"]);
    match &a.fields.get("suppressed_count").unwrap().v {
        Some(ValueKind::I64(n)) => assert_eq!(*n, 2),
        _ => panic!("count expected"),
    }
    match &a.fields.get("action").unwrap().v {
        Some(ValueKind::S(s)) => assert_eq!(s, "suppressed_preference"),
        _ => panic!("action expected"),
    }
    let rendered = resp.rendered.as_ref().unwrap();
    assert_eq!(
        rendered.verified_blocks,
        vec!["Suppressed 2 preference handles for user:a / prefers_beverage.".to_string()]
    );
    assert!(rendered.narrative_blocks.is_empty());

    let m = state.get_manifest(&GetManifestRequest { request_id: String::new() });
    let refs: Vec<&str> = m.handles.iter().map(|h| h.ref_id.as_str()).collect();
    assert_eq!(refs, vec!["H2"]);
}

#[test]
fn forget_filters_by_scope() {
    let mut state = ServiceState::new();
    append(&mut state, "u", "prefer tea", 0);
    append(&mut state, "u", "prefer coffee", 1);
    let resp = forget(&mut state, "", "", 1);
    assert_eq!(resp.assertions[0].citations.len(), 1);
    assert_eq!(resp.assertions[0].citations[0].anchor_digest, "handle:H2");
    let m = state.get_manifest(&GetManifestRequest { request_id: String::new() });
    assert_eq!(m.handles.len(), 1);
    assert_eq!(m.handles[0].ref_id, "H1");
}

#[test]
fn forgetting_twice_removes_nothing_more() {
    let mut state = ServiceState::new();
    append(&mut state, "u", "prefer tea", 1);
    append(&mut state, "v", "prefer tea", 1);
    let first = forget(&mut state, "u", "", 0);
    assert_eq!(first.assertions[0].citations.len(), 1);
    let second = forget(&mut state, "u", "", 0);
    assert!(second.assertions[0].citations.is_empty());
    assert_eq!(
        second.rendered.unwrap().verified_blocks[0],
        "Suppressed 0 preference handles for u / ."
    );
    let m = state.get_manifest(&GetManifestRequest { request_id: String::new() });
    assert_eq!(m.handles.len(), 1);
}

#[test]
fn handle_refs_sort_as_strings() {
    let mut state = ServiceState::new();
    for _ in 0..10 {
        append(&mut state, "u", "prefer tea", 1);
    }
    let m = state.get_manifest(&GetManifestRequest { request_id: String::new() });
    let refs: Vec<&str> = m.handles.iter().map(|h| h.ref_id.as_str()).collect();
    assert_eq!(refs, vec!["H1", "H10", "H2", "H3", "H4", "H5", "H6", "H7", "H8", "H9"]);
}
