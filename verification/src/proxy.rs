//! The decisions of the chat-completions proxy: planner modes, bearer
//! tokens, the user message, and how an RMVM response becomes an answer or
//! an HTTP error with `x-cortex-*` headers.
use vstd::prelude::*;

use crate::proto::{
    availability_from, availability_from_i32, availability_name_spec, error_code_from,
    error_code_from_i32, error_code_name_spec, status_from, status_from_i32, status_name_spec,
    ErrorCode, ExecuteResponse, ExecuteResponseView, ExecutionError, ExecutionErrorView,
    ExecutionStatus,
};
use crate::json::{obj_get, obj_get_exec, str_of, Json};
use crate::text::{
    ascii_lower, ascii_lower_exec, chars_of, concat2, concat3, is_blank, join, join_strings, owned,
    str_eq, string_from, trim, trim_chars,
};

verus! {

// ----------------------------------------------------------------------
// Planner modes
// ----------------------------------------------------------------------

/// Where a plan comes from.
#[derive(Clone, Copy, Debug, PartialEq, Eq, Structural)]
pub enum PlannerMode {
    Fallback,
    OpenAi,
    ByoHeader,
}

/// The mode a configuration value names, after trimming and lower-casing;
/// the failure repeats the normalized value.
pub open spec fn planner_mode_spec(value: Seq<char>) -> Result<PlannerMode, Seq<char>> {
    let v = trim(value).map_values(|c: char| ascii_lower(c));
    if v == "fallback"@ {
        Ok(PlannerMode::Fallback)
    } else if v == "openai"@ {
        Ok(PlannerMode::OpenAi)
    } else if v == "byo"@ || v == "byo_header"@ || v == "byoheader"@ {
        Ok(PlannerMode::ByoHeader)
    } else {
        Err("unsupported planner mode '"@ + v + "', expected fallback|openai|byo"@)
    }
}

/// The name a mode is reported under.
pub open spec fn planner_mode_name(m: PlannerMode) -> Seq<char> {
    match m {
        PlannerMode::Fallback => "fallback"@,
        PlannerMode::OpenAi => "openai"@,
        PlannerMode::ByoHeader => "byo_header"@,
    }
}

impl PlannerMode {
    /// The mode a configuration value names (see [`planner_mode_spec`]).
    pub fn parse(value: &str) -> (r: Result<PlannerMode, String>)
        ensures
            match r {
                Ok(m) => planner_mode_spec(value@) == Ok::<PlannerMode, Seq<char>>(m),
                Err(e) => planner_mode_spec(value@) == Err::<PlannerMode, Seq<char>>(e@),
            },
    {
        let cs = chars_of(value);
        let t = trim_chars(&cs);
        let mut lower: Vec<char> = Vec::new();
        let mut i: usize = 0;
        while i < t.len()
            invariant
                i <= t.len(),
                lower@ == t@.take(i as int).map_values(|c: char| ascii_lower(c)),
            decreases t.len() - i,
        {
            lower.push(ascii_lower_exec(t[i]));
            proof {
                assert(t@.take(i + 1) =~= t@.take(i as int).push(t@[i as int]));
                assert(lower@ =~= t@.take(i + 1).map_values(|c: char| ascii_lower(c)));
            }
            i += 1;
        }
        assert(t@.take(t.len() as int) =~= t@);
        let v = string_from(&lower);
        let s = v.as_str();
        if str_eq(s, "fallback") {
            Ok(PlannerMode::Fallback)
        } else if str_eq(s, "openai") {
            Ok(PlannerMode::OpenAi)
        } else if str_eq(s, "byo") || str_eq(s, "byo_header") || str_eq(s, "byoheader") {
            Ok(PlannerMode::ByoHeader)
        } else {
            Err(concat3("unsupported planner mode '", s, "', expected fallback|openai|byo"))
        }
    }

    /// The name a mode is reported under.
    pub fn as_str(self) -> (s: String)
        ensures
            s@ == planner_mode_name(self),
    {
        match self {
            PlannerMode::Fallback => owned("fallback"),
            PlannerMode::OpenAi => owned("openai"),
            PlannerMode::ByoHeader => owned("byo_header"),
        }
    }
}

/// How the proxy asks for plans.
pub struct PlannerConfig {
    pub mode: PlannerMode,
    pub base_url: String,
    pub model: String,
    pub api_key: Option<String>,
    pub timeout_secs: u64,
}

// ----------------------------------------------------------------------
// Errors answered over HTTP
// ----------------------------------------------------------------------

/// An error answered to the client: HTTP status, error code, message, and
/// headers to attach.
#[derive(Debug)]
pub struct ApiError {
    pub status: u16,
    pub code: String,
    pub message: String,
    pub headers: Vec<(String, String)>,
}

/// The mathematical model of [`ApiError`].
pub struct ApiErrorView {
    pub status: u16,
    pub code: Seq<char>,
    pub message: Seq<char>,
    pub headers: Seq<(Seq<char>, Seq<char>)>,
}

/// The models of header pairs.
pub open spec fn header_views(hs: Seq<(String, String)>) -> Seq<(Seq<char>, Seq<char>)> {
    hs.map_values(|h: (String, String)| (h.0@, h.1@))
}

impl View for ApiError {
    type V = ApiErrorView;

    open spec fn view(&self) -> ApiErrorView {
        ApiErrorView {
            status: self.status,
            code: self.code@,
            message: self.message@,
            headers: header_views(self.headers@),
        }
    }
}

impl ApiError {
    /// An error with the given status and no headers.
    pub fn new(status: u16, code: &str, message: &str) -> (e: ApiError)
        ensures
            e@.status == status,
            e@.code == code@,
            e@.message == message@,
            e@.headers == Seq::<(Seq<char>, Seq<char>)>::empty(),
    {
        let e = ApiError {
            status,
            code: owned(code),
            message: owned(message),
            headers: Vec::new(),
        };
        assert(e@.headers =~= Seq::<(Seq<char>, Seq<char>)>::empty());
        e
    }
}

// ----------------------------------------------------------------------
// Requests
// ----------------------------------------------------------------------

/// The `Authorization` header as received: absent, not visible ASCII text,
/// or its text.
pub enum AuthHeader {
    Absent,
    NotText,
    Text(String),
}

/// The bearer token of a request, or the failure (HTTP 401).
pub open spec fn bearer_spec(h: AuthHeader) -> Result<Option<Seq<char>>, ApiErrorView> {
    match h {
        AuthHeader::Absent => Ok(None),
        AuthHeader::NotText => Err(
            ApiErrorView {
                status: 401,
                code: "invalid_auth_header"@,
                message: "invalid Authorization header"@,
                headers: Seq::empty(),
            },
        ),
        AuthHeader::Text(raw) => if raw@.len() >= 7 && raw@.subrange(0, 7) == "Bearer "@ {
            let token = trim(raw@.subrange(7, raw@.len() as int));
            if token.len() == 0 {
                Err(
                    ApiErrorView {
                        status: 401,
                        code: "invalid_auth_header"@,
                        message: "Bearer token is empty"@,
                        headers: Seq::empty(),
                    },
                )
            } else {
                Ok(Some(token))
            }
        } else {
            Err(
                ApiErrorView {
                    status: 401,
                    code: "invalid_auth_header"@,
                    message: "Authorization must use Bearer token"@,
                    headers: Seq::empty(),
                },
            )
        },
    }
}

/// The bearer token of a request (see [`bearer_spec`]).
pub fn parse_bearer(h: &AuthHeader) -> (r: Result<Option<String>, ApiError>)
    ensures
        match r {
            Ok(t) => bearer_spec(*h) == Ok::<Option<Seq<char>>, ApiErrorView>(
                match t {
                    Some(s) => Some(s@),
                    None => None,
                },
            ),
            Err(e) => bearer_spec(*h) == Err::<Option<Seq<char>>, ApiErrorView>(e@),
        },
{
    match h {
        AuthHeader::Absent => Ok(None),
        AuthHeader::NotText => Err(
            ApiError::new(401, "invalid_auth_header", "invalid Authorization header"),
        ),
        AuthHeader::Text(raw) => {
            let cs = chars_of(raw.as_str());
            let prefix = chars_of("Bearer ");
            proof {
                reveal_strlit("Bearer ");
            }
            let mut is_bearer = cs.len() >= 7;
            let mut k: usize = 0;
            while k < 7 && is_bearer
                invariant
                    k <= 7,
                    prefix@ == "Bearer "@,
                    prefix.len() == 7,
                    is_bearer ==> cs.len() >= 7,
                    is_bearer == (cs.len() >= 7 && forall|j: int| 0 <= j < k ==> cs@[j] == prefix@[j]),
                decreases 7 - k,
            {
                if cs[k] != prefix[k] {
                    is_bearer = false;
                }
                k += 1;
            }
            proof {
                if is_bearer {
                    assert(cs@.subrange(0, 7) =~= "Bearer "@);
                } else if cs.len() >= 7 {
                    let j = choose|j: int| 0 <= j < 7 && cs@[j] != prefix@[j];
                    assert(cs@.subrange(0, 7)[j] != "Bearer "@[j]);
                }
            }
            if !is_bearer {
                return Err(
                    ApiError::new(
                        401,
                        "invalid_auth_header",
                        "Authorization must use Bearer token",
                    ),
                );
            }
            let mut rest: Vec<char> = Vec::new();
            let mut i: usize = 7;
            while i < cs.len()
                invariant
                    7 <= i <= cs.len(),
                    rest@ == cs@.subrange(7, i as int),
                decreases cs.len() - i,
            {
                rest.push(cs[i]);
                i += 1;
                assert(rest@ =~= cs@.subrange(7, i as int));
            }
            let token = trim_chars(&rest);
            if token.len() == 0 {
                return Err(ApiError::new(401, "invalid_auth_header", "Bearer token is empty"));
            }
            Ok(Some(string_from(&token)))
        },
    }
}

/// A chat message: its role and the text of its content, when it has text.
pub struct ChatMessage {
    pub role: String,
    pub content_text: Option<String>,
}

/// Whether a role is `user`, ignoring ASCII case.
pub open spec fn is_user_role(role: Seq<char>) -> bool {
    role.map_values(|c: char| ascii_lower(c)) == "user"@
}

/// The text of the last message whose role is `user`, if that message has text.
pub open spec fn user_message_spec(ms: Seq<ChatMessage>) -> Option<Seq<char>>
    decreases ms.len(),
{
    if ms.len() == 0 {
        None
    } else if is_user_role(ms.last().role@) {
        match ms.last().content_text {
            Some(t) => Some(t@),
            None => None,
        }
    } else {
        user_message_spec(ms.drop_last())
    }
}

fn is_user_role_exec(role: &str) -> (b: bool)
    ensures
        b == is_user_role(role@),
{
    let cs = chars_of(role);
    let mut lower: Vec<char> = Vec::new();
    let mut i: usize = 0;
    while i < cs.len()
        invariant
            i <= cs.len(),
            lower@ == cs@.take(i as int).map_values(|c: char| ascii_lower(c)),
        decreases cs.len() - i,
    {
        lower.push(ascii_lower_exec(cs[i]));
        proof {
            assert(cs@.take(i + 1) =~= cs@.take(i as int).push(cs@[i as int]));
            assert(lower@ =~= cs@.take(i + 1).map_values(|c: char| ascii_lower(c)));
        }
        i += 1;
    }
    assert(cs@.take(cs.len() as int) =~= cs@);
    let l = string_from(&lower);
    str_eq(l.as_str(), "user")
}

/// The text of the last user message (see [`user_message_spec`]).
pub fn extract_user_message(messages: &Vec<ChatMessage>) -> (r: Option<String>)
    ensures
        match r {
            Some(s) => user_message_spec(messages@) == Some(s@),
            None => user_message_spec(messages@) is None,
        },
{
    let mut i: usize = messages.len();
    assert(messages@.take(i as int) =~= messages@);
    while i > 0
        invariant
            i <= messages.len(),
            user_message_spec(messages@) == user_message_spec(messages@.take(i as int)),
        decreases i,
    {
        proof {
            assert(messages@.take(i as int).drop_last() =~= messages@.take(i - 1));
            assert(messages@.take(i as int).last() == messages@[i - 1]);
        }
        if is_user_role_exec(messages[i - 1].role.as_str()) {
            return match &messages[i - 1].content_text {
                Some(t) => Some(owned(t.as_str())),
                None => None,
            };
        }
        i -= 1;
    }
    None
}

/// The texts of the parts of a content array: each part that is an object
/// with a string `text`, in order.
pub open spec fn part_texts(parts: Seq<Json>) -> Seq<Seq<char>>
    decreases parts.len(),
{
    if parts.len() == 0 {
        Seq::empty()
    } else {
        part_texts(parts.drop_last()) + match parts.last() {
            Json::Object(o) => match str_of(obj_get(o@, "text"@)) {
                Some(t) => seq![t],
                None => Seq::empty(),
            },
            _ => Seq::empty(),
        }
    }
}

/// The text of a message's content: a string as it is, or the texts of a
/// content array's parts joined by newlines; none when there is no text.
pub open spec fn content_text_spec(content: Json) -> Option<Seq<char>> {
    match content {
        Json::Str(s) => Some(s@),
        Json::Array(a) => if part_texts(a@).len() == 0 {
            None
        } else {
            Some(join(part_texts(a@), "\n"@))
        },
        _ => None,
    }
}

/// The text of a message's content (see [`content_text_spec`]).
pub fn message_content_as_text(content: &Json) -> (r: Option<String>)
    ensures
        match r {
            Some(t) => content_text_spec(*content) == Some(t@),
            None => content_text_spec(*content) is None,
        },
{
    match content {
        Json::Str(s) => Some(owned(s.as_str())),
        Json::Array(a) => {
            let mut texts: Vec<String> = Vec::new();
            let mut i: usize = 0;
            while i < a.len()
                invariant
                    i <= a.len(),
                    texts@.map_values(|t: String| t@) == part_texts(a@.take(i as int)),
                decreases a.len() - i,
            {
                proof {
                    assert(a@.take(i + 1).drop_last() =~= a@.take(i as int));
                    assert(a@.take(i + 1).last() == a@[i as int]);
                }
                let ghost before = texts@;
                match &a[i] {
                    Json::Object(o) => match obj_get_exec(o, "text") {
                        Some(Json::Str(t)) => {
                            texts.push(owned(t.as_str()));
                            assert(texts@.map_values(|t: String| t@) =~= before.map_values(|t: String| t@)
                                + seq![t@]);
                        },
                        _ => {
                            assert(texts@.map_values(|t: String| t@) =~= before.map_values(|t: String| t@)
                                + Seq::<Seq<char>>::empty());
                        },
                    },
                    _ => {
                        assert(texts@.map_values(|t: String| t@) =~= before.map_values(|t: String| t@)
                            + Seq::<Seq<char>>::empty());
                    },
                }
                i += 1;
            }
            assert(a@.take(a.len() as int) =~= a@);
            if texts.len() == 0 {
                None
            } else {
                Some(join_strings(&texts, "\n"))
            }
        },
        _ => None,
    }
}

/// The subject of a request without an API key: its non-blank `user`, else
/// `user:local`.
pub open spec fn default_subject_spec(user: Option<Seq<char>>) -> Seq<char> {
    match user {
        Some(u) => if trim(u).len() == 0 {
            "user:local"@
        } else {
            u
        },
        None => "user:local"@,
    }
}

/// The subject of a request without an API key (see [`default_subject_spec`]).
pub fn default_subject(user: &Option<String>) -> (s: String)
    ensures
        s@ == default_subject_spec(
            match user {
                Some(u) => Some(u@),
                None => None,
            },
        ),
{
    match user {
        Some(u) => if is_blank(u.as_str()) {
            owned("user:local")
        } else {
            owned(u.as_str())
        },
        None => owned("user:local"),
    }
}

/// What the brain store said about who is asking: for a bearer key, the
/// subject it is mapped to (if any); without a key, whether a default or
/// active brain could be resolved.
pub enum SubjectSource {
    ApiKey(Option<String>),
    NoKey(bool),
}

/// The subject of a request, or the refusal (HTTP 401).
pub open spec fn resolve_context_spec(
    source: SubjectSource,
    user: Option<Seq<char>>,
) -> Result<Seq<char>, ApiErrorView> {
    match source {
        SubjectSource::ApiKey(Some(s)) => Ok(s@),
        SubjectSource::ApiKey(None) => Err(
            ApiErrorView {
                status: 401,
                code: "auth_failed"@,
                message: "API key is not mapped"@,
                headers: Seq::empty(),
            },
        ),
        SubjectSource::NoKey(true) => Ok(default_subject_spec(user)),
        SubjectSource::NoKey(false) => Err(
            ApiErrorView {
                status: 401,
                code: "auth_required"@,
                message: "missing bearer token and no default/active brain configured"@,
                headers: Seq::empty(),
            },
        ),
    }
}

/// Decides the subject of a request from what the brain store answered
/// (see [`resolve_context_spec`]).
pub fn resolve_context(source: &SubjectSource, user: &Option<String>) -> (r: Result<String, ApiError>)
    ensures
        match r {
            Ok(s) => resolve_context_spec(*source, opt_view(*user)) == Ok::<Seq<char>, ApiErrorView>(s@),
            Err(e) => resolve_context_spec(*source, opt_view(*user)) == Err::<Seq<char>, ApiErrorView>(e@),
        },
{
    match source {
        SubjectSource::ApiKey(Some(s)) => Ok(owned(s.as_str())),
        SubjectSource::ApiKey(None) => Err(ApiError::new(401, "auth_failed", "API key is not mapped")),
        SubjectSource::NoKey(true) => {
            let s = default_subject(user);
            assert(opt_view(*user) == match user {
                Some(u) => Some(u@),
                None => None::<Seq<char>>,
            });
            Ok(s)
        },
        SubjectSource::NoKey(false) => Err(
            ApiError::new(
                401,
                "auth_required",
                "missing bearer token and no default/active brain configured",
            ),
        ),
    }
}

// ----------------------------------------------------------------------
// Answers
// ----------------------------------------------------------------------

/// Whether `http` accepts a header value: every byte is a tab or at least a
/// space and not DEL (bytes of non-ASCII characters are all accepted).
pub open spec fn header_value_ok(v: Seq<char>) -> bool {
    forall|i: int| 0 <= i < v.len() ==> (#[trigger] v[i] == '\t' || ((v[i] as u32) >= 32 && (v[i] as u32) != 127))
}

fn header_value_ok_exec(v: &str) -> (b: bool)
    ensures
        b == header_value_ok(v@),
{
    let cs = chars_of(v);
    let mut i: usize = 0;
    while i < cs.len()
        invariant
            i <= cs.len(),
            cs@ == v@,
            forall|j: int| 0 <= j < i ==> (#[trigger] cs@[j] == '\t' || ((cs@[j] as u32) >= 32 && (cs@[j] as u32) != 127)),
        decreases cs.len() - i,
    {
        let c = cs[i];
        if !(c == '\t' || ((c as u32) >= 32 && (c as u32) != 127)) {
            return false;
        }
        i += 1;
    }
    true
}

/// A header appended only when its value is acceptable.
pub open spec fn push_header_spec(hs: Seq<(Seq<char>, Seq<char>)>, name: Seq<char>, value: Seq<char>) -> Seq<(Seq<char>, Seq<char>)> {
    if header_value_ok(value) {
        hs.push((name, value))
    } else {
        hs
    }
}

/// Appends a header when its value is acceptable (see [`push_header_spec`]).
pub fn push_header(headers: &mut Vec<(String, String)>, name: &str, value: &str)
    ensures
        header_views(final(headers)@) == push_header_spec(header_views(old(headers)@), name@, value@),
{
    let ghost before = headers@;
    if header_value_ok_exec(value) {
        headers.push((owned(name), owned(value)));
        assert(header_views(headers@) =~= header_views(before).push((name@, value@)));
    }
}

/// The protocol name of an error's code.
pub open spec fn error_name_of(e: ExecutionErrorView) -> Seq<char> {
    error_code_name_spec(error_code_from(e.code))
}

/// The protocol name of an error's code (unknown codes are `..._UNSPECIFIED`).
pub fn error_code_name(err: &ExecutionError) -> (s: String)
    ensures
        s@ == error_name_of(err@),
{
    error_code_from_i32(err.code).as_str_name()
}

/// The `x-cortex-*` headers describing a response: its status and plan
/// source, its roots when it has a proof, its error code when it failed, and
/// the stalled handle and its availability when it stalled.
pub open spec fn cortex_headers_spec(e: ExecuteResponseView, plan_source: Seq<char>) -> Seq<(Seq<char>, Seq<char>)> {
    let h0 = push_header_spec(Seq::empty(), "x-cortex-status"@, status_name_spec(status_from(e.status)));
    let h1 = push_header_spec(h0, "x-cortex-plan-source"@, plan_source);
    let h2 = match e.proof {
        Some(p) => push_header_spec(
            push_header_spec(h1, "x-cortex-semantic-root"@, p.semantic_root),
            "x-cortex-trace-root"@,
            p.trace_root,
        ),
        None => h1,
    };
    let h3 = match e.error {
        Some(err) => push_header_spec(h2, "x-cortex-error-code"@, error_name_of(err)),
        None => h2,
    };
    match e.stall {
        Some(s) => push_header_spec(
            push_header_spec(h3, "x-cortex-stall-handle"@, s.handle_ref),
            "x-cortex-stall-availability"@,
            availability_name_spec(availability_from(s.availability)),
        ),
        None => h3,
    }
}

/// The `x-cortex-*` headers describing a response (see [`cortex_headers_spec`]).
pub fn cortex_headers(execute: &ExecuteResponse, plan_source: &str) -> (hs: Vec<(String, String)>)
    ensures
        header_views(hs@) == cortex_headers_spec(execute@, plan_source@),
{
    let mut headers: Vec<(String, String)> = Vec::new();
    assert(header_views(headers@) =~= Seq::<(Seq<char>, Seq<char>)>::empty());
    let status = status_from_i32(execute.status).as_str_name();
    push_header(&mut headers, "x-cortex-status", status.as_str());
    push_header(&mut headers, "x-cortex-plan-source", plan_source);
    if let Some(proof) = &execute.proof {
        push_header(&mut headers, "x-cortex-semantic-root", proof.semantic_root.as_str());
        push_header(&mut headers, "x-cortex-trace-root", proof.trace_root.as_str());
    }
    if let Some(err) = &execute.error {
        let name = error_code_name(err);
        push_header(&mut headers, "x-cortex-error-code", name.as_str());
    }
    if let Some(stall) = &execute.stall {
        push_header(&mut headers, "x-cortex-stall-handle", stall.handle_ref.as_str());
        let av = availability_from_i32(stall.availability).as_str_name();
        push_header(&mut headers, "x-cortex-stall-availability", av.as_str());
    }
    headers
}

/// What an `OK` response is answered with.
#[derive(Debug)]
pub struct Completion {
    pub model: String,
    pub content: String,
    pub status_name: String,
    pub semantic_root: Option<String>,
    pub trace_root: Option<String>,
    pub error_code: Option<String>,
    pub plan_prompt: String,
    pub plan_source: String,
    pub headers: Vec<(String, String)>,
}

/// The mathematical model of [`Completion`].
pub struct CompletionView {
    pub model: Seq<char>,
    pub content: Seq<char>,
    pub status_name: Seq<char>,
    pub semantic_root: Option<Seq<char>>,
    pub trace_root: Option<Seq<char>>,
    pub error_code: Option<Seq<char>>,
    pub plan_prompt: Seq<char>,
    pub plan_source: Seq<char>,
    pub headers: Seq<(Seq<char>, Seq<char>)>,
}

/// The model of an optional string.
pub open spec fn opt_view(s: Option<String>) -> Option<Seq<char>> {
    match s {
        Some(x) => Some(x@),
        None => None,
    }
}

impl View for Completion {
    type V = CompletionView;

    open spec fn view(&self) -> CompletionView {
        CompletionView {
            model: self.model@,
            content: self.content@,
            status_name: self.status_name@,
            semantic_root: opt_view(self.semantic_root),
            trace_root: opt_view(self.trace_root),
            error_code: opt_view(self.error_code),
            plan_prompt: self.plan_prompt@,
            plan_source: self.plan_source@,
            headers: header_views(self.headers@),
        }
    }
}

/// The error answered for a response that is not `OK`: the HTTP status by
/// execution status; the code `cortex_stall` for `STALL`,
/// `cortex_rejected_` and the error's code name for `REJECTED`, otherwise
/// the error's code name or a default code; the error's message or a
/// default message; and the `x-cortex-*` headers.
pub open spec fn failure_spec(
    status: ExecutionStatus,
    error: Option<ExecutionErrorView>,
    headers: Seq<(Seq<char>, Seq<char>)>,
) -> ApiErrorView {
    let (http, dcode, dmsg) = match status {
        ExecutionStatus::Rejected => (400u16, "rejected"@, "request rejected by RMVM"@),
        ExecutionStatus::Stall => (503u16, "stall"@, "execution stalled; dependency not ready"@),
        ExecutionStatus::AuthDenied => (403u16, "auth_denied"@, "auth denied"@),
        ExecutionStatus::RangeExceeded => (429u16, "range_exceeded"@, "range exceeded"@),
        _ => (502u16, "unknown_status"@, "RMVM returned unspecified status"@),
    };
    let error_name = match error {
        Some(e) => error_name_of(e),
        None => error_code_name_spec(ErrorCode::Unspecified),
    };
    ApiErrorView {
        status: http,
        code: match status {
            ExecutionStatus::Stall => "cortex_stall"@,
            ExecutionStatus::Rejected => "cortex_rejected_"@ + error_name,
            _ => match error {
                Some(e) => error_name_of(e),
                None => dcode,
            },
        },
        message: if status == ExecutionStatus::Unspecified {
            dmsg
        } else {
            match error {
                Some(e) => e.message,
                None => dmsg,
            }
        },
        headers,
    }
}

/// How a response is answered: an `OK` response becomes a completion whose
/// content is its verified blocks separated by blank lines (or a notice when
/// there is none); any other status becomes an error (see [`failure_spec`]).
pub open spec fn answer_spec(
    e: ExecuteResponseView,
    model: Option<Seq<char>>,
    plan_prompt: Seq<char>,
    plan_source: Seq<char>,
    headers: Seq<(Seq<char>, Seq<char>)>,
) -> Result<CompletionView, ApiErrorView> {
    let status = status_from(e.status);
    if status == ExecutionStatus::Okay {
        let blocks = match e.rendered {
            Some(r) => r.verified_blocks,
            None => Seq::empty(),
        };
        Ok(
            CompletionView {
                model: match model {
                    Some(m) => m,
                    None => "cortex-rmvm-proxy"@,
                },
                content: if blocks.len() == 0 {
                    "No verified output."@
                } else {
                    join(blocks, "\n\n"@)
                },
                status_name: status_name_spec(status),
                semantic_root: match e.proof {
                    Some(p) => Some(p.semantic_root),
                    None => None,
                },
                trace_root: match e.proof {
                    Some(p) => Some(p.trace_root),
                    None => None,
                },
                error_code: match e.error {
                    Some(err) => Some(error_name_of(err)),
                    None => None,
                },
                plan_prompt,
                plan_source,
                headers,
            },
        )
    } else {
        Err(failure_spec(status, e.error, headers))
    }
}

/// How a response is answered (see [`answer_spec`]).
pub fn map_execute_response(
    execute: &ExecuteResponse,
    model: Option<String>,
    plan_prompt: String,
    plan_source: String,
    headers_out: Vec<(String, String)>,
) -> (r: Result<Completion, ApiError>)
    ensures
        match r {
            Ok(c) => answer_spec(
                execute@,
                opt_view(model),
                plan_prompt@,
                plan_source@,
                header_views(headers_out@),
            ) == Ok::<CompletionView, ApiErrorView>(c@),
            Err(e) => answer_spec(
                execute@,
                opt_view(model),
                plan_prompt@,
                plan_source@,
                header_views(headers_out@),
            ) == Err::<CompletionView, ApiErrorView>(e@),
        },
{
    let status = status_from_i32(execute.status);
    if status == ExecutionStatus::Okay {
        let content = match &execute.rendered {
            Some(r) => if r.verified_blocks.len() == 0 {
                owned("No verified output.")
            } else {
                join_strings(&r.verified_blocks, "\n\n")
            },
            None => owned("No verified output."),
        };
        let model = match model {
            Some(m) => m,
            None => owned("cortex-rmvm-proxy"),
        };
        let (semantic_root, trace_root) = match &execute.proof {
            Some(p) => (Some(owned(p.semantic_root.as_str())), Some(owned(p.trace_root.as_str()))),
            None => (None, None),
        };
        let error_code = match &execute.error {
            Some(err) => Some(error_code_name(err)),
            None => None,
        };
        return Ok(
            Completion {
                model,
                content,
                status_name: status.as_str_name(),
                semantic_root,
                trace_root,
                error_code,
                plan_prompt,
                plan_source,
                headers: headers_out,
            },
        );
    }
    let (http, dcode, dmsg): (u16, &str, &str) = match status {
        ExecutionStatus::Rejected => (400, "rejected", "request rejected by RMVM"),
        ExecutionStatus::Stall => (503, "stall", "execution stalled; dependency not ready"),
        ExecutionStatus::AuthDenied => (403, "auth_denied", "auth denied"),
        ExecutionStatus::RangeExceeded => (429, "range_exceeded", "range exceeded"),
        _ => (502, "unknown_status", "RMVM returned unspecified status"),
    };
    let code = match status {
        ExecutionStatus::Stall => owned("cortex_stall"),
        ExecutionStatus::Rejected => {
            let name = match &execute.error {
                Some(e) => error_code_name(e),
                None => ErrorCode::Unspecified.as_str_name(),
            };
            concat2("cortex_rejected_", name.as_str())
        },
        _ => match &execute.error {
            Some(e) => error_code_name(e),
            None => owned(dcode),
        },
    };
    let message = if status == ExecutionStatus::Unspecified {
        owned(dmsg)
    } else {
        match &execute.error {
            Some(e) => owned(e.message.as_str()),
            None => owned(dmsg),
        }
    };
    Err(ApiError { status: http, code, message, headers: headers_out })
}

} // verus!
