//! What a request must pass before any work is done for it, and what the
//! trace queries hand out.
//!
//! The transport is outside: a caller reads the credential, the identity
//! header and the request body off the wire and hands them over as plain
//! values. The checks run in a fixed order: the credential first, then the
//! identity, then the body.

use crate::app_state::AppState;
use crate::domain::{trace_views, EmployeeRole, ReasoningTrace, TraceView};
use crate::json::{json_unfold, unfold, JsonShape};
use crate::text::{
    joined, lowercase, lowercased, opt_str_view, opt_view, pieces, split, to_chars, trim, trimmed,
    views,
};
use crate::visibility::{
    agent_traces, capped, employee_role_from_agent_id, list_traces, recent_first, role_of,
    visible_recent_first,
};
use base64::Engine;
use vstd::prelude::*;

verus! {

/// The bytes that the standard base64 alphabet with padding decodes a text
/// to, or `None` where the text is not valid base64.
pub uninterp spec fn base64_decoded(text: Seq<char>) -> Option<Seq<u8>>;

/// The text that the standard base64 alphabet with padding encodes bytes to.
pub uninterp spec fn base64_encoded(bytes: Seq<u8>) -> Seq<char>;

/// Trusted: `Engine::decode` of `base64::engine::general_purpose::STANDARD`.
/// The result is a function of the text alone; nothing else is claimed.
#[verifier::external_body]
pub(crate) fn decode_base64(text: &str) -> (r: Option<Vec<u8>>)
    ensures
        match r {
            Some(bytes) => base64_decoded(text@) == Some(bytes@),
            None => base64_decoded(text@).is_none(),
        },
{
    base64::engine::general_purpose::STANDARD.decode(text).ok()
}

/// Trusted: `Engine::encode` of `base64::engine::general_purpose::STANDARD`.
/// The result is a function of the bytes alone; nothing else is claimed.
/// The call aborts where four bytes for every three of the input, rounded
/// up, do not fit a `usize`; such input is excluded.
#[verifier::external_body]
pub(crate) fn encode_base64(bytes: &Vec<u8>) -> (r: String)
    requires
        (bytes@.len() / 3 + 1) * 4 <= usize::MAX,
    ensures
        r@ == base64_encoded(bytes@),
{
    base64::engine::general_purpose::STANDARD.encode(bytes)
}

/// How many traces a trace query returns when the caller names no limit.
pub const DEFAULT_TRACE_LIMIT: usize = 50;

/// How many rows a graph snapshot reads when the caller names no limit.
pub const DEFAULT_SNAPSHOT_LIMIT: usize = 5000;

/// How many rows a query for current objects reads when the caller names no
/// limit.
pub const DEFAULT_CURRENT_LIMIT: usize = 200;

/// The agent on whose behalf work is done when a request names none.
pub const DEFAULT_AGENT: &'static str = "employee_1";

/// The body of an ask request.
#[derive(Debug, Clone, PartialEq, Eq)]
pub struct AskRequest {
    pub text: Option<String>,
    pub audio_base64: Option<String>,
    pub audio_mime: Option<String>,
    pub agent_id: Option<String>,
    pub employee_name: Option<String>,
    pub response_audio: Option<bool>,
}

/// The body of a knowledge-ingest request. The routing is JSON text.
#[derive(Debug, Clone, PartialEq, Eq)]
pub struct KnowledgeIngestRequest {
    pub truth_id: String,
    pub kind: String,
    pub content: String,
    pub agent_id: Option<String>,
    pub routing: String,
    pub add_to_rag: Option<bool>,
}

/// The answer to a health probe.
#[derive(Debug, Clone, Copy, PartialEq, Eq, Structural)]
pub struct HealthResponse {
    pub ok: bool,
}

/// The page size that a query asks for.
#[derive(Debug, Clone, Copy, PartialEq, Eq)]
pub struct Pagination {
    pub limit: Option<usize>,
}

/// Why a request is turned away.
#[derive(Debug, Clone, Copy, PartialEq, Eq, Structural)]
pub enum Rejection {
    /// A credential is configured and the request's is missing or wrong.
    Unauthorized,
    /// The request names no caller.
    MissingIdentity,
    /// The audio of an ask request is not valid base64.
    InvalidAudio,
    /// An ask request carries neither text nor audio.
    MissingInput,
    /// The truth id of an ingest request is blank.
    EmptyTruthId,
    /// The kind of an ingest request is blank.
    EmptyKind,
    /// The routing of an ingest request is not a JSON object.
    RoutingNotObject,
    /// The caller may not see what it asks for.
    Forbidden,
    /// The query needs the graph store, and there is none.
    StoreUnavailable,
}

/// What an ask request hands to the pipeline.
#[derive(Debug, PartialEq, Eq)]
pub enum AskInput {
    /// What the caller wrote, trimmed.
    Text(String),
    /// What the caller said, still to be transcribed.
    Audio { bytes: Vec<u8>, mime: Option<String> },
}

/// Whether a request passes the credential gate: always where no credential
/// is configured, else where it presents exactly the configured one. A
/// request without a credential presents the empty one.
pub open spec fn authorized(expected: Option<Seq<char>>, provided: Option<Seq<char>>) -> bool {
    match expected {
        None => true,
        Some(e) => (match provided {
            Some(p) => p,
            None => Seq::empty(),
        }) == e,
    }
}

/// An optional text, trimmed, if it is not blank.
pub open spec fn present(o: Option<Seq<char>>) -> Option<Seq<char>> {
    match o {
        Some(s) => if trimmed(s).len() > 0 {
            Some(trimmed(s))
        } else {
            None
        },
        None => None,
    }
}

/// An employee's name as it is compared: trimmed and in lower case.
pub open spec fn normalized_name(s: Seq<char>) -> Seq<char> {
    lowercased(trimmed(s))
}

/// The agent id of the employee with this name.
pub open spec fn agent_of_name(name: Seq<char>) -> Seq<char> {
    "employee_"@ + normalized_name(name)
}

/// The caller that a request names: the employee named in the header if
/// that is not blank, else the employee named in the body if that is not
/// blank, else the agent id given in the body if that is not blank.
pub open spec fn caller_of(
    header_name: Option<Seq<char>>,
    employee_name_body: Option<Seq<char>>,
    agent_id_body: Option<Seq<char>>,
) -> Option<Seq<char>> {
    match present(header_name) {
        Some(n) => Some(agent_of_name(n)),
        None => match present(employee_name_body) {
            Some(n) => Some(agent_of_name(n)),
            None => present(agent_id_body),
        },
    }
}

/// Mathematical content of an [`AskInput`].
pub enum AskInputView {
    Text(Seq<char>),
    Audio { bytes: Seq<u8>, mime: Option<Seq<char>> },
}

impl View for AskInput {
    type V = AskInputView;

    open spec fn view(&self) -> AskInputView {
        match self {
            AskInput::Text(t) => AskInputView::Text(t@),
            AskInput::Audio { bytes, mime } => AskInputView::Audio {
                bytes: bytes@,
                mime: opt_view(*mime),
            },
        }
    }
}

/// What the body of an ask request asks to be processed: its text if that
/// is not blank, else its audio if that is not blank and decodes.
pub open spec fn ask_input_of(
    text: Option<Seq<char>>,
    audio_base64: Option<Seq<char>>,
    audio_mime: Option<Seq<char>>,
) -> Result<AskInputView, Rejection> {
    match present(text) {
        Some(t) => Ok(AskInputView::Text(t)),
        None => match present(audio_base64) {
            Some(b64) => match base64_decoded(b64) {
                Some(bytes) => Ok(AskInputView::Audio { bytes, mime: audio_mime }),
                None => Err(Rejection::InvalidAudio),
            },
            None => Err(Rejection::MissingInput),
        },
    }
}

/// The outcome of admitting an ask request: the caller and the input, or
/// the first check that the request fails.
pub open spec fn ask_admission(
    expected_key: Option<Seq<char>>,
    provided_key: Option<Seq<char>>,
    header_name: Option<Seq<char>>,
    text: Option<Seq<char>>,
    audio_base64: Option<Seq<char>>,
    audio_mime: Option<Seq<char>>,
    agent_id: Option<Seq<char>>,
    employee_name: Option<Seq<char>>,
) -> Result<(Seq<char>, AskInputView), Rejection> {
    if !authorized(expected_key, provided_key) {
        Err(Rejection::Unauthorized)
    } else {
        match caller_of(header_name, employee_name, agent_id) {
            None => Err(Rejection::MissingIdentity),
            Some(caller) => match ask_input_of(text, audio_base64, audio_mime) {
                Ok(input) => Ok((caller, input)),
                Err(e) => Err(e),
            },
        }
    }
}

/// Whether a JSON text denotes an object.
pub open spec fn is_json_object(text: Seq<char>) -> bool {
    json_unfold(text) matches Some(JsonShape::Object(_))
}

/// The first check that an ingest request fails, if it fails one.
pub open spec fn ingest_refusal(
    expected_key: Option<Seq<char>>,
    provided_key: Option<Seq<char>>,
    truth_id: Seq<char>,
    kind: Seq<char>,
    routing: Seq<char>,
) -> Option<Rejection> {
    if !authorized(expected_key, provided_key) {
        Some(Rejection::Unauthorized)
    } else if trimmed(truth_id).len() == 0 {
        Some(Rejection::EmptyTruthId)
    } else if trimmed(kind).len() == 0 {
        Some(Rejection::EmptyKind)
    } else if !is_json_object(routing) {
        Some(Rejection::RoutingNotObject)
    } else {
        None
    }
}

/// The HTTP status under which a rejection is reported.
pub open spec fn status_of(r: Rejection) -> u16 {
    match r {
        Rejection::Unauthorized => 401,
        Rejection::Forbidden => 403,
        Rejection::StoreUnavailable => 500,
        _ => 400,
    }
}

impl Rejection {
    /// The HTTP status under which this rejection is reported.
    pub fn status(&self) -> (r: u16)
        ensures
            r == status_of(*self),
    {
        match self {
            Rejection::Unauthorized => 401,
            Rejection::Forbidden => 403,
            Rejection::StoreUnavailable => 500,
            _ => 400,
        }
    }

    /// The message under which this rejection is reported.
    pub fn message(&self) -> (r: &'static str)
        ensures
            r@ == (match *self {
                Rejection::Unauthorized => "unauthorized"@,
                Rejection::MissingIdentity => "missing x-employee-name"@,
                Rejection::InvalidAudio => "audio_base64 must be valid base64"@,
                Rejection::MissingInput => "provide either non-empty text or audio_base64"@,
                Rejection::EmptyTruthId => "truth_id must be non-empty"@,
                Rejection::EmptyKind => "kind must be non-empty"@,
                Rejection::RoutingNotObject
                    => "routing must be an object mapping agent_id -> level"@,
                Rejection::Forbidden => "forbidden"@,
                Rejection::StoreUnavailable => "neo4j not initialized"@,
            }),
    {
        match self {
            Rejection::Unauthorized => "unauthorized",
            Rejection::MissingIdentity => "missing x-employee-name",
            Rejection::InvalidAudio => "audio_base64 must be valid base64",
            Rejection::MissingInput => "provide either non-empty text or audio_base64",
            Rejection::EmptyTruthId => "truth_id must be non-empty",
            Rejection::EmptyKind => "kind must be non-empty",
            Rejection::RoutingNotObject => "routing must be an object mapping agent_id -> level",
            Rejection::Forbidden => "forbidden",
            Rejection::StoreUnavailable => "neo4j not initialized",
        }
    }
}

impl Pagination {
    /// The limit asked for, or `default` where none was.
    pub fn limit_or(&self, default: usize) -> (r: usize)
        ensures
            r == (match self.limit {
                Some(n) => n,
                None => default,
            }),
    {
        match self.limit {
            Some(n) => n,
            None => default,
        }
    }
}

impl HealthResponse {
    /// The answer of a service that is up.
    pub fn healthy() -> (r: Self)
        ensures
            r.ok,
    {
        HealthResponse { ok: true }
    }
}

/// An employee's name as it is compared: trimmed and in lower case.
pub fn normalize_employee_name(s: &str) -> (r: String)
    ensures
        r@ == normalized_name(s@),
{
    lowercase(trim(s))
}

/// An optional text, trimmed, if it is not blank.
fn non_blank<'a>(o: Option<&'a str>) -> (r: Option<&'a str>)
    ensures
        opt_str_view(r) == present(opt_str_view(o)),
{
    match o {
        Some(s) => {
            let t = trim(s);
            if t.unicode_len() > 0 {
                Some(t)
            } else {
                None
            }
        },
        None => None,
    }
}

/// The agent id of the employee with this name.
fn agent_id_of_name(name: &str) -> (r: String)
    ensures
        r@ == agent_of_name(name@),
{
    let n = normalize_employee_name(name);
    joined("employee_", n.as_str())
}

/// Whether a request passes the credential gate.
pub fn auth_ok(expected: Option<&str>, provided: Option<&str>) -> (r: bool)
    ensures
        r == authorized(opt_str_view(expected), opt_str_view(provided)),
{
    match expected {
        None => true,
        Some(e) => {
            let p = match provided {
                Some(p) => p,
                None => "",
            };
            proof {
                reveal_strlit("");
                assert(""@ =~= Seq::<char>::empty());
            }
            p.eq(e)
        },
    }
}

/// The caller that a request names, from the identity header, the employee
/// name in the body, and the agent id in the body, in that order.
pub fn resolve_employee_agent_id(
    header_name: Option<&str>,
    employee_name_body: Option<&str>,
    agent_id_body: Option<&str>,
) -> (r: Option<String>)
    ensures
        opt_view(r) == caller_of(
            opt_str_view(header_name),
            opt_str_view(employee_name_body),
            opt_str_view(agent_id_body),
        ),
{
    match non_blank(header_name) {
        Some(n) => Some(agent_id_of_name(n)),
        None => match non_blank(employee_name_body) {
            Some(n) => Some(agent_id_of_name(n)),
            None => match non_blank(agent_id_body) {
                Some(id) => Some(id.to_owned()),
                None => None,
            },
        },
    }
}

/// A borrowed view of an optional string.
fn as_opt_str(o: &Option<String>) -> (r: Option<&str>)
    ensures
        opt_str_view(r) == opt_view(*o),
{
    match o {
        Some(s) => Some(s.as_str()),
        None => None,
    }
}

/// A copy of an optional string.
fn clone_opt(o: &Option<String>) -> (r: Option<String>)
    ensures
        opt_view(r) == opt_view(*o),
{
    match o {
        Some(s) => Some(s.clone()),
        None => None,
    }
}

/// The views of the outcome of admitting an ask request.
pub open spec fn admission_view(r: Result<(String, AskInput), Rejection>) -> Result<
    (Seq<char>, AskInputView),
    Rejection,
> {
    match r {
        Ok((caller, input)) => Ok((caller@, input@)),
        Err(e) => Err(e),
    }
}

/// Admits an ask request: checks the credential, then the identity, then
/// the input, and returns the caller and the input or the first failure.
pub fn admit_ask(
    expected_key: Option<&str>,
    provided_key: Option<&str>,
    header_name: Option<&str>,
    request: &AskRequest,
) -> (r: Result<(String, AskInput), Rejection>)
    ensures
        admission_view(r) == ask_admission(
            opt_str_view(expected_key),
            opt_str_view(provided_key),
            opt_str_view(header_name),
            opt_view(request.text),
            opt_view(request.audio_base64),
            opt_view(request.audio_mime),
            opt_view(request.agent_id),
            opt_view(request.employee_name),
        ),
{
    if !auth_ok(expected_key, provided_key) {
        return Err(Rejection::Unauthorized);
    }
    let caller = match resolve_employee_agent_id(
        header_name,
        as_opt_str(&request.employee_name),
        as_opt_str(&request.agent_id),
    ) {
        Some(c) => c,
        None => {
            return Err(Rejection::MissingIdentity);
        },
    };
    match non_blank(as_opt_str(&request.text)) {
        Some(t) => Ok((caller, AskInput::Text(t.to_owned()))),
        None => match non_blank(as_opt_str(&request.audio_base64)) {
            Some(b64) => match decode_base64(b64) {
                Some(bytes) => Ok(
                    (caller, AskInput::Audio { bytes, mime: clone_opt(&request.audio_mime) }),
                ),
                None => Err(Rejection::InvalidAudio),
            },
            None => Err(Rejection::MissingInput),
        },
    }
}

/// Whether a JSON text denotes an object, given the result of parsing it.
pub fn shape_is_object(parsed: &Option<JsonShape>) -> (r: bool)
    ensures
        r == (*parsed matches Some(JsonShape::Object(_))),
{
    match parsed {
        Some(JsonShape::Object(_)) => true,
        _ => false,
    }
}

/// Admits an ingest request: checks the credential, then that the truth id
/// and the kind are not blank, then that the routing is a JSON object.
pub fn admit_ingest(
    expected_key: Option<&str>,
    provided_key: Option<&str>,
    request: &KnowledgeIngestRequest,
) -> (r: Result<(), Rejection>)
    ensures
        match r {
            Ok(_) => ingest_refusal(
                opt_str_view(expected_key),
                opt_str_view(provided_key),
                request.truth_id@,
                request.kind@,
                request.routing@,
            ).is_none(),
            Err(e) => ingest_refusal(
                opt_str_view(expected_key),
                opt_str_view(provided_key),
                request.truth_id@,
                request.kind@,
                request.routing@,
            ) == Some(e),
        },
{
    if !auth_ok(expected_key, provided_key) {
        Err(Rejection::Unauthorized)
    } else if trim(request.truth_id.as_str()).unicode_len() == 0 {
        Err(Rejection::EmptyTruthId)
    } else if trim(request.kind.as_str()).unicode_len() == 0 {
        Err(Rejection::EmptyKind)
    } else if !shape_is_object(&unfold(request.routing.as_str())) {
        Err(Rejection::RoutingNotObject)
    } else {
        Ok(())
    }
}

/// The first check that a query of the graph store fails, if it fails one:
/// the credential, then that there is a graph store.
pub open spec fn graph_query_refusal(
    expected_key: Option<Seq<char>>,
    provided_key: Option<Seq<char>>,
    store_available: bool,
) -> Option<Rejection> {
    if !authorized(expected_key, provided_key) {
        Some(Rejection::Unauthorized)
    } else if !store_available {
        Some(Rejection::StoreUnavailable)
    } else {
        None
    }
}

/// Admits a query that needs the graph store: checks the credential, then
/// that there is a graph store.
pub fn admit_graph_query(
    expected_key: Option<&str>,
    provided_key: Option<&str>,
    store_available: bool,
) -> (r: Result<(), Rejection>)
    ensures
        match r {
            Ok(_) => graph_query_refusal(
                opt_str_view(expected_key),
                opt_str_view(provided_key),
                store_available,
            ).is_none(),
            Err(e) => graph_query_refusal(
                opt_str_view(expected_key),
                opt_str_view(provided_key),
                store_available,
            ) == Some(e),
        },
{
    if !auth_ok(expected_key, provided_key) {
        Err(Rejection::Unauthorized)
    } else if !store_available {
        Err(Rejection::StoreUnavailable)
    } else {
        Ok(())
    }
}

/// The outcome of a query for all traces: only the head of the organization
/// may ask, and is given the most recent traces first, unredacted.
pub open spec fn all_traces_answer(
    expected_key: Option<Seq<char>>,
    provided_key: Option<Seq<char>>,
    header_name: Option<Seq<char>>,
    limit: Option<usize>,
    log: Seq<TraceView>,
) -> Result<Seq<TraceView>, Rejection> {
    if !authorized(expected_key, provided_key) {
        Err(Rejection::Unauthorized)
    } else {
        match caller_of(header_name, None, None) {
            None => Err(Rejection::MissingIdentity),
            Some(caller) => if role_of(caller) != EmployeeRole::Ceo {
                Err(Rejection::Forbidden)
            } else {
                Ok(
                    capped(
                        recent_first(log),
                        (match limit {
                            Some(n) => n,
                            None => DEFAULT_TRACE_LIMIT,
                        }) as nat,
                    ),
                )
            },
        }
    }
}

/// The outcome of a query for what one agent may see: the agent itself and
/// the head of the organization may ask, and are given what the agent may
/// see, redacted as its level asks, most recent first.
pub open spec fn agent_traces_answer(
    expected_key: Option<Seq<char>>,
    provided_key: Option<Seq<char>>,
    header_name: Option<Seq<char>>,
    agent: Seq<char>,
    limit: Option<usize>,
    log: Seq<TraceView>,
) -> Result<Seq<TraceView>, Rejection> {
    if !authorized(expected_key, provided_key) {
        Err(Rejection::Unauthorized)
    } else {
        match caller_of(header_name, None, None) {
            None => Err(Rejection::MissingIdentity),
            Some(caller) => if role_of(caller) != EmployeeRole::Ceo && caller != agent {
                Err(Rejection::Forbidden)
            } else {
                Ok(
                    capped(
                        visible_recent_first(log, agent),
                        (match limit {
                            Some(n) => n,
                            None => DEFAULT_TRACE_LIMIT,
                        }) as nat,
                    ),
                )
            },
        }
    }
}

/// The views of the outcome of a trace query.
pub open spec fn answer_view(r: Result<Vec<ReasoningTrace>, Rejection>) -> Result<
    Seq<TraceView>,
    Rejection,
> {
    match r {
        Ok(traces) => Ok(trace_views(traces@)),
        Err(e) => Err(e),
    }
}

/// Answers a query for all traces.
pub fn query_all_traces(
    expected_key: Option<&str>,
    provided_key: Option<&str>,
    header_name: Option<&str>,
    page: &Pagination,
    state: &AppState,
) -> (r: Result<Vec<ReasoningTrace>, Rejection>)
    ensures
        answer_view(r) == all_traces_answer(
            opt_str_view(expected_key),
            opt_str_view(provided_key),
            opt_str_view(header_name),
            page.limit,
            state@.traces,
        ),
{
    if !auth_ok(expected_key, provided_key) {
        return Err(Rejection::Unauthorized);
    }
    let caller = match resolve_employee_agent_id(header_name, None, None) {
        Some(c) => c,
        None => {
            return Err(Rejection::MissingIdentity);
        },
    };
    if employee_role_from_agent_id(caller.as_str()) != EmployeeRole::Ceo {
        return Err(Rejection::Forbidden);
    }
    Ok(list_traces(state.traces(), page.limit_or(DEFAULT_TRACE_LIMIT)))
}

/// Answers a query for what the agent `agent` may see.
pub fn query_agent_traces(
    expected_key: Option<&str>,
    provided_key: Option<&str>,
    header_name: Option<&str>,
    agent: &str,
    page: &Pagination,
    state: &AppState,
) -> (r: Result<Vec<ReasoningTrace>, Rejection>)
    ensures
        answer_view(r) == agent_traces_answer(
            opt_str_view(expected_key),
            opt_str_view(provided_key),
            opt_str_view(header_name),
            agent@,
            page.limit,
            state@.traces,
        ),
{
    if !auth_ok(expected_key, provided_key) {
        return Err(Rejection::Unauthorized);
    }
    let caller = match resolve_employee_agent_id(header_name, None, None) {
        Some(c) => c,
        None => {
            return Err(Rejection::MissingIdentity);
        },
    };
    if employee_role_from_agent_id(caller.as_str()) != EmployeeRole::Ceo && !caller.as_str().eq(
        agent,
    ) {
        return Err(Rejection::Forbidden);
    }
    Ok(agent_traces(state.traces(), agent, page.limit_or(DEFAULT_TRACE_LIMIT)))
}

/// What an ask request is answered with.
#[derive(Debug)]
pub struct AskResponse {
    pub response_text: String,
    pub trace: ReasoningTrace,
    pub audio_base64: Option<String>,
    pub audio_mime: Option<String>,
}

impl AskResponse {
    /// The answer to an ask request. Where `speech` holds the answer spoken
    /// as MPEG audio, the answer carries it in base64.
    pub fn new(response_text: String, trace: ReasoningTrace, speech: Option<Vec<u8>>) -> (r: Self)
        requires
            speech matches Some(bytes) ==> (bytes@.len() / 3 + 1) * 4 <= usize::MAX,
        ensures
            r.response_text@ == response_text@,
            r.trace@ == trace@,
            match speech {
                Some(bytes) => opt_view(r.audio_base64) == Some(base64_encoded(bytes@))
                    && opt_view(r.audio_mime) == Some("audio/mpeg"@),
                None => r.audio_base64.is_none() && r.audio_mime.is_none(),
            },
    {
        match speech {
            Some(bytes) => AskResponse {
                response_text,
                trace,
                audio_base64: Some(encode_base64(&bytes)),
                audio_mime: Some("audio/mpeg".to_owned()),
            },
            None => AskResponse { response_text, trace, audio_base64: None, audio_mime: None },
        }
    }
}

/// What the server pushes to its live subscribers.
#[derive(Debug)]
pub enum ServerEvent {
    Trace(ReasoningTrace),
}

/// The origins from which browsers may call the interface.
#[derive(Debug, Clone, PartialEq, Eq)]
pub enum AllowedOrigins {
    Any,
    List(Vec<String>),
}

/// The cross-origin policy of the interface.
#[derive(Debug, Clone, PartialEq, Eq)]
pub struct CorsPolicy {
    pub origins: AllowedOrigins,
    pub allow_credentials: bool,
}

/// Mathematical content of a [`CorsPolicy`]: the listed origins, or `None`
/// where any origin is allowed, and whether credentials are allowed.
pub struct CorsPolicyView {
    pub origins: Option<Seq<Seq<char>>>,
    pub allow_credentials: bool,
}

impl View for CorsPolicy {
    type V = CorsPolicyView;

    open spec fn view(&self) -> CorsPolicyView {
        CorsPolicyView {
            origins: match self.origins {
                AllowedOrigins::Any => None,
                AllowedOrigins::List(l) => Some(views(l@)),
            },
            allow_credentials: self.allow_credentials,
        }
    }
}

/// Of the parts of a comma-separated list, those that are not blank,
/// trimmed.
pub open spec fn named_origins(parts: Seq<Seq<char>>) -> Seq<Seq<char>>
    decreases parts.len(),
{
    if parts.len() == 0 {
        Seq::empty()
    } else {
        let rest = named_origins(parts.drop_last());
        if trimmed(parts.last()).len() > 0 {
            rest.push(trimmed(parts.last()))
        } else {
            rest
        }
    }
}

/// The policy that a configured list of origins stands for. Without one,
/// or where the list names `*`, any origin is allowed. Credentials are
/// allowed where a list is configured that holds no asterisk at all.
pub open spec fn cors_policy_of(configured: Option<Seq<char>>) -> CorsPolicyView {
    let origins = named_origins(
        pieces(
            match configured {
                Some(c) => c,
                None => "*"@,
            },
            ',',
        ),
    );
    CorsPolicyView {
        origins: if origins.contains("*"@) {
            None
        } else {
            Some(origins)
        },
        allow_credentials: match configured {
            Some(c) => !c.contains('*'),
            None => false,
        },
    }
}

/// Whether the characters hold `c`.
fn holds(chars: &Vec<char>, c: char) -> (r: bool)
    ensures
        r == chars@.contains(c),
{
    let mut i: usize = 0;
    while i < chars.len()
        invariant
            i <= chars.len(),
            forall|j: int| 0 <= j < i ==> chars@[j] != c,
        decreases chars.len() - i,
    {
        if chars[i] == c {
            return true;
        }
        i += 1;
    }
    false
}

/// The cross-origin policy that a configured list of origins stands for.
pub fn cors_policy(configured: Option<&str>) -> (r: CorsPolicy)
    ensures
        r@ == cors_policy_of(opt_str_view(configured)),
{
    let raw = match configured {
        Some(c) => c,
        None => "*",
    };
    let parts = split(raw, ',');
    let mut origins: Vec<String> = Vec::new();
    let mut any = false;
    let mut i: usize = 0;
    while i < parts.len()
        invariant
            i <= parts.len(),
            views(origins@) == named_origins(views(parts@).take(i as int)),
            any == views(origins@).contains("*"@),
        decreases parts.len() - i,
    {
        proof {
            let all = views(parts@);
            assert(all.take(i + 1).drop_last() =~= all.take(i as int));
        }
        let t = trim(parts[i].as_str());
        if t.unicode_len() > 0 {
            let ghost before = views(origins@);
            if t.eq("*") {
                any = true;
            }
            origins.push(t.to_owned());
            assert(views(origins@) =~= before.push(t@));
            proof {
                if before.contains("*"@) {
                    let k = choose|k: int| 0 <= k < before.len() && before[k] == "*"@;
                    assert(views(origins@)[k] == "*"@);
                }
                if t@ == "*"@ {
                    assert(views(origins@)[before.len() as int] == "*"@);
                }
            }
        }
        i += 1;
    }
    assert(views(parts@).take(parts.len() as int) =~= views(parts@));
    let allow_credentials = match configured {
        Some(c) => {
            let chars = to_chars(c);
            !holds(&chars, '*')
        },
        None => false,
    };
    CorsPolicy {
        origins: if any {
            AllowedOrigins::Any
        } else {
            AllowedOrigins::List(origins)
        },
        allow_credentials,
    }
}

} // verus!
