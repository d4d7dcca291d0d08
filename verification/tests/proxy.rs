use cortex_rmvm::json::Json;
use cortex_rmvm::proto::{
    AssertionMerkleProof, ErrorCode, ExecuteResponse, ExecutionError, ExecutionStatus,
    HandleAvailability, RenderedOutput, StallInfo,
};
use cortex_rmvm::proxy::{
    cortex_headers, default_subject, extract_user_message, map_execute_response, parse_bearer,
    message_content_as_text, push_header, resolve_context, AuthHeader, ChatMessage, PlannerMode, SubjectSource,
};

fn response(status: ExecutionStatus) -> ExecuteResponse {
    ExecuteResponse {
        status: status as i32,
        assertions: Vec::new(),
        proof: None,
        rendered: None,
        stall: None,
        error: None,
    }
}

fn header<'a>(hs: &'a [(String, String)], name: &str) -> Option<&'a str> {
    hs.iter().find(|(n, _)| n == name).map(|(_, v)| v.as_str())
}

#[test]
fn planner_modes() {
    assert_eq!(PlannerMode::parse(" Fallback ").unwrap(), PlannerMode::Fallback);
    assert_eq!(PlannerMode::parse("OPENAI").unwrap(), PlannerMode::OpenAi);
    assert_eq!(PlannerMode::parse("byo").unwrap(), PlannerMode::ByoHeader);
    assert_eq!(PlannerMode::parse("byo_header").unwrap(), PlannerMode::ByoHeader);
    assert_eq!(
        PlannerMode::parse("Magic").unwrap_err(),
        "unsupported planner mode 'magic', expected fallback|openai|byo"
    );
    assert_eq!(PlannerMode::ByoHeader.as_str(), "byo_header");
    assert_eq!(PlannerMode::OpenAi.as_str(), "openai");
}

#[test]
fn bearer_tokens() {
    assert_eq!(parse_bearer(&AuthHeader::Absent).unwrap(), None);
    assert_eq!(parse_bearer(&AuthHeader::Text("Bearer  abc ".to_string())).unwrap().as_deref(), Some("abc"));
    let e = parse_bearer(&AuthHeader::Text("Bearer    ".to_string())).unwrap_err();
    assert_eq!((e.status, e.code.as_str(), e.message.as_str()), (401, "invalid_auth_header", "Bearer token is empty"));
    let e = parse_bearer(&AuthHeader::Text("Basic xyz".to_string())).unwrap_err();
    assert_eq!(e.message, "Authorization must use Bearer token");
    let e = parse_bearer(&AuthHeader::NotText).unwrap_err();
    assert_eq!(e.message, "invalid Authorization header");
}

#[test]
fn the_last_user_message_and_subject() {
    let msgs = vec![
        ChatMessage { role: "user".to_string(), content_text: Some("first".to_string()) },
        ChatMessage { role: "assistant".to_string(), content_text: Some("reply".to_string()) },
        ChatMessage { role: "USER".to_string(), content_text: Some("I prefer tea.".to_string()) },
        ChatMessage { role: "system".to_string(), content_text: Some("sys".to_string()) },
    ];
    assert_eq!(extract_user_message(&msgs).as_deref(), Some("I prefer tea."));
    assert_eq!(extract_user_message(&Vec::new()), None);
    assert_eq!(default_subject(&None), "user:local");
    assert_eq!(default_subject(&Some("  ".to_string())), "user:local");
    assert_eq!(default_subject(&Some("user:x".to_string())), "user:x");
}

#[test]
fn headers_with_unacceptable_values_are_dropped() {
    let mut hs = Vec::new();
    push_header(&mut hs, "a", "fine\tvalue");
    push_header(&mut hs, "b", "bad\nvalue");
    push_header(&mut hs, "c", "del\u{7f}");
    assert_eq!(hs, vec![("a".to_string(), "fine\tvalue".to_string())]);
}

#[test]
fn status_mapping_and_headers() {
    let mut ok = response(ExecutionStatus::Okay);
    ok.rendered = Some(RenderedOutput {
        verified_blocks: vec!["Verified: tea".to_string(), "Verified: milk".to_string()],
        narrative_blocks: Vec::new(),
    });
    ok.proof = Some(AssertionMerkleProof {
        semantic_root: "sem".to_string(),
        trace_root: "tr".to_string(),
        inclusion: Vec::new(),
    });
    let hs = cortex_headers(&ok, "byo_header");
    assert_eq!(header(&hs, "x-cortex-status"), Some("OK"));
    assert_eq!(header(&hs, "x-cortex-plan-source"), Some("byo_header"));
    assert_eq!(header(&hs, "x-cortex-semantic-root"), Some("sem"));
    let c = map_execute_response(&ok, None, "prompt".to_string(), "byo_header".to_string(), hs).unwrap();
    assert_eq!(c.model, "cortex-rmvm-proxy");
    assert_eq!(c.content, "Verified: tea\n\nVerified: milk");
    assert!(c.content.contains("Verified"));
    assert_eq!(c.status_name, "OK");
    assert_eq!(c.semantic_root.as_deref(), Some("sem"));
    assert_eq!(c.plan_source, "byo_header");

    let empty = response(ExecutionStatus::Okay);
    let c = map_execute_response(&empty, Some("m".to_string()), String::new(), "fallback".to_string(), Vec::new())
        .unwrap();
    assert_eq!((c.model.as_str(), c.content.as_str()), ("m", "No verified output."));

    let mut rejected = response(ExecutionStatus::Rejected);
    rejected.error = Some(ExecutionError {
        code: ErrorCode::UnknownSelectorRef as i32,
        message: "unknown selector_ref".to_string(),
        hints: Vec::new(),
    });
    let hs = cortex_headers(&rejected, "byo_header");
    assert_eq!(header(&hs, "x-cortex-status"), Some("REJECTED"));
    assert_eq!(header(&hs, "x-cortex-error-code"), Some("UNKNOWN_SELECTOR_REF"));
    let e = map_execute_response(&rejected, None, String::new(), String::new(), hs).unwrap_err();
    assert_eq!(
        (e.status, e.code.as_str(), e.message.as_str()),
        (400, "cortex_rejected_UNKNOWN_SELECTOR_REF", "unknown selector_ref")
    );
    let e = map_execute_response(&response(ExecutionStatus::Rejected), None, String::new(), String::new(), Vec::new())
        .unwrap_err();
    assert_eq!(
        (e.status, e.code.as_str(), e.message.as_str()),
        (400, "cortex_rejected_ERROR_CODE_UNSPECIFIED", "request rejected by RMVM")
    );

    let mut stall = response(ExecutionStatus::Stall);
    stall.stall = Some(StallInfo {
        handle_ref: "H1".to_string(),
        availability: HandleAvailability::Offline as i32,
        estimated_ready_at: None,
        retrieval_ticket: String::new(),
    });
    let hs = cortex_headers(&stall, "byo_header");
    assert_eq!(header(&hs, "x-cortex-status"), Some("STALL"));
    assert_eq!(header(&hs, "x-cortex-stall-handle"), Some("H1"));
    assert_eq!(header(&hs, "x-cortex-stall-availability"), Some("OFFLINE"));
    let e = map_execute_response(&stall, None, String::new(), String::new(), hs).unwrap_err();
    assert_eq!((e.status, e.code.as_str()), (503, "cortex_stall"));
    assert_eq!(e.message, "execution stalled; dependency not ready");
    assert!(header(&e.headers, "x-cortex-stall-handle").is_some());

    let e = map_execute_response(&response(ExecutionStatus::AuthDenied), None, String::new(), String::new(), Vec::new())
        .unwrap_err();
    assert_eq!((e.status, e.code.as_str()), (403, "auth_denied"));
    let e = map_execute_response(&response(ExecutionStatus::RangeExceeded), None, String::new(), String::new(), Vec::new())
        .unwrap_err();
    assert_eq!((e.status, e.code.as_str()), (429, "range_exceeded"));
    let e = map_execute_response(&response(ExecutionStatus::Unspecified), None, String::new(), String::new(), Vec::new())
        .unwrap_err();
    assert_eq!((e.status, e.code.as_str(), e.message.as_str()), (502, "unknown_status", "RMVM returned unspecified status"));
}

#[test]
fn subject_resolution() {
    let mapped = resolve_context(&SubjectSource::ApiKey(Some("user:alice".to_string())), &Some("bob".to_string()));
    assert_eq!(mapped.unwrap(), "user:alice");
    let unmapped = resolve_context(&SubjectSource::ApiKey(None), &None).unwrap_err();
    assert_eq!(unmapped.status, 401);
    assert_eq!(unmapped.code, "auth_failed");
    let local = resolve_context(&SubjectSource::NoKey(true), &Some("  ".to_string()));
    assert_eq!(local.unwrap(), "user:local");
    let named = resolve_context(&SubjectSource::NoKey(true), &Some("bob".to_string()));
    assert_eq!(named.unwrap(), "bob");
    let refused = resolve_context(&SubjectSource::NoKey(false), &Some("bob".to_string())).unwrap_err();
    assert_eq!(refused.status, 401);
    assert_eq!(refused.code, "auth_required");
}

#[test]
fn message_content_text() {
    let part = |t: &str| Json::Object(vec![("text".to_string(), Json::Str(t.to_string()))]);
    assert_eq!(message_content_as_text(&Json::Str("hi".to_string())).unwrap(), "hi");
    let parts = Json::Array(vec![part("a"), Json::Object(vec![("image".to_string(), Json::Null)]), part("b")]);
    assert_eq!(message_content_as_text(&parts).unwrap(), "a\nb");
    assert!(message_content_as_text(&Json::Array(vec![Json::Null])).is_none());
    assert!(message_content_as_text(&Json::Null).is_none());
}
