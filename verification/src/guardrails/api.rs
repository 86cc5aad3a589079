//! What guardrails see of a request, a Tool call and a response, and what they decide.
use vstd::prelude::*;

use std::time::SystemTime;

use crate::contracts::{clone_opt_string, opt_view};
use crate::guardrails::vehicle::VehicleState;
use crate::json::JsonValue;
use crate::text::cat3;

verus! {

/// A request as guardrails see it.
#[derive(Debug, PartialEq, Eq)]
pub struct RequestContext {
    pub prompt: String,
    pub user: Option<String>,
    pub model: Option<String>,
}

pub struct RequestContextView {
    pub prompt: Seq<char>,
    pub user: Option<Seq<char>>,
    pub model: Option<Seq<char>>,
}

impl View for RequestContext {
    type V = RequestContextView;

    open spec fn view(&self) -> RequestContextView {
        RequestContextView { prompt: self.prompt@, user: opt_view(self.user), model: opt_view(self.model) }
    }
}

/// A Tool call as guardrails see it.
#[derive(Debug, PartialEq, Eq)]
pub struct ToolCallContext {
    pub name: String,
    pub arguments: JsonValue,
}

pub struct ToolCallContextView {
    pub name: Seq<char>,
    pub arguments: JsonValue,
}

impl View for ToolCallContext {
    type V = ToolCallContextView;

    open spec fn view(&self) -> ToolCallContextView {
        ToolCallContextView { name: self.name@, arguments: self.arguments }
    }
}

/// A model response (or a window of a streamed one) as guardrails see it.
#[derive(Debug, PartialEq, Eq)]
pub struct ResponseContext {
    pub content: String,
    pub model: String,
}

pub struct ResponseContextView {
    pub content: Seq<char>,
    pub model: Seq<char>,
}

impl View for ResponseContext {
    type V = ResponseContextView;

    open spec fn view(&self) -> ResponseContextView {
        ResponseContextView { content: self.content@, model: self.model@ }
    }
}

/// The parts of an HTTP request target that guardrails read.
#[derive(Debug, PartialEq, Eq)]
pub struct HttpRequestParts {
    /// The path and query as the request target writes them, when it has a path.
    pub path_and_query: Option<String>,
    /// The path, `/` when the target has none.
    pub path: String,
    /// The query without its `?`, when there is one.
    pub query: Option<String>,
}

/// `s` without the `/` characters it starts with.
pub open spec fn trim_leading_slashes(s: Seq<char>) -> Seq<char>
    decreases s.len(),
{
    if s.len() > 0 && s[0] == '/' {
        trim_leading_slashes(s.drop_first())
    } else {
        s
    }
}

/// The characters of `s` before its first `/` (all of `s` when it has none).
pub open spec fn first_segment(s: Seq<char>) -> Seq<char>
    decreases s.len(),
{
    if s.len() == 0 || s[0] == '/' {
        Seq::empty()
    } else {
        seq![s[0]] + first_segment(s.drop_first())
    }
}

/// The routing key of a request path: its first segment once leading slashes are dropped.
pub open spec fn route_key(path: Seq<char>) -> Seq<char> {
    first_segment(trim_leading_slashes(path))
}

proof fn lemma_trim_step(s: Seq<char>, i: int)
    requires
        0 <= i < s.len(),
        s[i] == '/',
    ensures
        trim_leading_slashes(s.subrange(i, s.len() as int)) == trim_leading_slashes(
            s.subrange(i + 1, s.len() as int),
        ),
{
    assert(s.subrange(i, s.len() as int).drop_first() =~= s.subrange(i + 1, s.len() as int));
}

proof fn lemma_segment_step(s: Seq<char>, i: int)
    requires
        0 <= i < s.len(),
        s[i] != '/',
    ensures
        first_segment(s.subrange(i, s.len() as int)) == seq![s[i]] + first_segment(
            s.subrange(i + 1, s.len() as int),
        ),
{
    assert(s.subrange(i, s.len() as int).drop_first() =~= s.subrange(i + 1, s.len() as int));
}

/// The routing key of `path`.
fn route_key_of(path: &str) -> (k: String)
    ensures
        k@ == route_key(path@),
{
    let n = path.unicode_len();
    let ghost s = path@;
    let mut i: usize = 0;
    let mut trimming = true;
    assert(s.subrange(0, n as int) =~= s);
    while trimming && i < n
        invariant
            n == s.len(),
            s == path@,
            i <= n,
            trim_leading_slashes(s) == trim_leading_slashes(s.subrange(i as int, n as int)),
            !trimming ==> i < n && s[i as int] != '/',
        decreases n - i + if trimming { 1int } else { 0int },
    {
        if path.get_char(i) == '/' {
            proof {
                lemma_trim_step(s, i as int);
            }
            i += 1;
        } else {
            trimming = false;
        }
    }
    assert(trim_leading_slashes(s) == s.subrange(i as int, n as int));
    let mut key = String::new();
    let mut j: usize = i;
    let mut scanning = true;
    while scanning && j < n
        invariant
            n == s.len(),
            s == path@,
            i <= j <= n,
            first_segment(s.subrange(i as int, n as int)) == key@ + first_segment(
                s.subrange(j as int, n as int),
            ),
            !scanning ==> j < n && s[j as int] == '/',
        decreases n - j + if scanning { 1int } else { 0int },
    {
        let c = path.get_char(j);
        if c == '/' {
            scanning = false;
        } else {
            proof {
                lemma_segment_step(s, j as int);
            }
            let ghost before = key@;
            crate::ext::push_char(&mut key, c);
            assert(key@ + first_segment(s.subrange(j + 1, n as int)) =~= before + (seq![c]
                + first_segment(s.subrange(j + 1, n as int))));
            j += 1;
        }
    }
    assert(first_segment(s.subrange(j as int, n as int)) == Seq::<char>::empty());
    assert(key@ + Seq::<char>::empty() =~= key@);
    key
}

/// The prompt that guardrails read from an HTTP request: its path and query, or nothing.
pub open spec fn request_prompt(req: HttpRequestParts) -> Seq<char> {
    match req.path_and_query {
        Some(pq) => pq@,
        None => Seq::empty(),
    }
}

/// Builds a guardrails request context from an incoming HTTP request, together with the key
/// that guardrail events for it are recorded under: the first segment of its path.
pub fn request_context_from_http_request(req: &HttpRequestParts) -> (r: (RequestContext, String))
    ensures
        r.0@ == (RequestContextView {
            prompt: request_prompt(*req),
            user: None,
            model: opt_view(req.query),
        }),
        r.1@ == route_key(req.path@),
{
    let prompt = match &req.path_and_query {
        Some(pq) => pq.clone(),
        None => String::new(),
    };
    let model = clone_opt_string(&req.query);
    let key = route_key_of(req.path.as_str());
    (RequestContext { prompt, user: None, model }, key)
}

/// How severe a guardrail finding is, from informational (`L0`) to safety-critical (`L4`).
#[derive(Debug, Clone, Copy, PartialEq, Eq, Structural)]
pub enum SafetyLevel {
    L0,
    L1,
    L2,
    L3,
    L4,
}

/// What a guardrail finding is about.
#[derive(Debug, Clone, Copy, PartialEq, Eq, Structural)]
pub enum SafetyCategory {
    Content,
    Privacy,
    Authorization,
    ToolCall,
    ModelQuality,
    RemoteCommand,
}

/// What the gateway does about a finding.
#[derive(Debug, PartialEq, Eq)]
pub enum SafetyAction {
    Block,
    Mask { field: String },
    Defer,
    Degrade { model: String },
    Fallback { target: String },
    Reroute { target: String },
    Queue { queue: String },
    RequireApproval,
    FailSafe,
}

pub enum SafetyActionView {
    Block,
    Mask { field: Seq<char> },
    Defer,
    Degrade { model: Seq<char> },
    Fallback { target: Seq<char> },
    Reroute { target: Seq<char> },
    Queue { queue: Seq<char> },
    RequireApproval,
    FailSafe,
}

impl View for SafetyAction {
    type V = SafetyActionView;

    open spec fn view(&self) -> SafetyActionView {
        match self {
            SafetyAction::Block => SafetyActionView::Block,
            SafetyAction::Mask { field } => SafetyActionView::Mask { field: field@ },
            SafetyAction::Defer => SafetyActionView::Defer,
            SafetyAction::Degrade { model } => SafetyActionView::Degrade { model: model@ },
            SafetyAction::Fallback { target } => SafetyActionView::Fallback { target: target@ },
            SafetyAction::Reroute { target } => SafetyActionView::Reroute { target: target@ },
            SafetyAction::Queue { queue } => SafetyActionView::Queue { queue: queue@ },
            SafetyAction::RequireApproval => SafetyActionView::RequireApproval,
            SafetyAction::FailSafe => SafetyActionView::FailSafe,
        }
    }
}

impl Clone for SafetyAction {
    fn clone(&self) -> (r: Self)
        ensures
            r == *self,
    {
        match self {
            SafetyAction::Block => SafetyAction::Block,
            SafetyAction::Mask { field } => SafetyAction::Mask { field: field.clone() },
            SafetyAction::Defer => SafetyAction::Defer,
            SafetyAction::Degrade { model } => SafetyAction::Degrade { model: model.clone() },
            SafetyAction::Fallback { target } => SafetyAction::Fallback { target: target.clone() },
            SafetyAction::Reroute { target } => SafetyAction::Reroute { target: target.clone() },
            SafetyAction::Queue { queue } => SafetyAction::Queue { queue: queue.clone() },
            SafetyAction::RequireApproval => SafetyAction::RequireApproval,
            SafetyAction::FailSafe => SafetyAction::FailSafe,
        }
    }
}

/// The outcome of a guardrail check.
#[derive(Debug, PartialEq, Eq)]
pub enum GuardrailDecision {
    Allow,
    Reject { reason: String, action: SafetyAction },
    Mask { field: String, reason: String },
    Defer { reason: String },
    RequireApproval { reason: String },
    FailSafe { reason: String },
}

pub enum GuardrailDecisionView {
    Allow,
    Reject { reason: Seq<char>, action: SafetyActionView },
    Mask { field: Seq<char>, reason: Seq<char> },
    Defer { reason: Seq<char> },
    RequireApproval { reason: Seq<char> },
    FailSafe { reason: Seq<char> },
}

impl View for GuardrailDecision {
    type V = GuardrailDecisionView;

    open spec fn view(&self) -> GuardrailDecisionView {
        match self {
            GuardrailDecision::Allow => GuardrailDecisionView::Allow,
            GuardrailDecision::Reject { reason, action } => GuardrailDecisionView::Reject {
                reason: reason@,
                action: action@,
            },
            GuardrailDecision::Mask { field, reason } => GuardrailDecisionView::Mask {
                field: field@,
                reason: reason@,
            },
            GuardrailDecision::Defer { reason } => GuardrailDecisionView::Defer { reason: reason@ },
            GuardrailDecision::RequireApproval { reason } => GuardrailDecisionView::RequireApproval {
                reason: reason@,
            },
            GuardrailDecision::FailSafe { reason } => GuardrailDecisionView::FailSafe {
                reason: reason@,
            },
        }
    }
}

/// A finding, as emitted to the audit log and fed to circuit breakers.
#[derive(Debug, PartialEq, Eq)]
pub struct SafetyEvent {
    pub level: SafetyLevel,
    pub category: SafetyCategory,
    pub reason: String,
    pub action: SafetyAction,
    pub scope: String,
    pub key: String,
    pub occurred_at: SystemTime,
}

pub struct SafetyEventView {
    pub level: SafetyLevel,
    pub category: SafetyCategory,
    pub reason: Seq<char>,
    pub action: SafetyActionView,
    pub scope: Seq<char>,
    pub key: Seq<char>,
    pub occurred_at: SystemTime,
}

impl View for SafetyEvent {
    type V = SafetyEventView;

    open spec fn view(&self) -> SafetyEventView {
        SafetyEventView {
            level: self.level,
            category: self.category,
            reason: self.reason@,
            action: self.action@,
            scope: self.scope@,
            key: self.key@,
            occurred_at: self.occurred_at,
        }
    }
}

impl SafetyEvent {
    /// An event with the given fields, stamped with `occurred_at`.
    pub fn new_at(
        level: SafetyLevel,
        category: SafetyCategory,
        reason: &str,
        action: SafetyAction,
        scope: &str,
        key: &str,
        occurred_at: SystemTime,
    ) -> (e: Self)
        ensures
            e@ == (SafetyEventView {
                level,
                category,
                reason: reason@,
                action: action@,
                scope: scope@,
                key: key@,
                occurred_at,
            }),
    {
        SafetyEvent {
            level,
            category,
            reason: reason.to_owned(),
            action,
            scope: scope.to_owned(),
            key: key.to_owned(),
            occurred_at,
        }
    }

    /// An event with the given fields, stamped with the current time.
    pub fn new(
        level: SafetyLevel,
        category: SafetyCategory,
        reason: &str,
        action: SafetyAction,
        scope: &str,
        key: &str,
    ) -> (e: Self)
        ensures
            e.level == level,
            e.category == category,
            e.reason@ == reason@,
            e.action@ == action@,
            e.scope@ == scope@,
            e.key@ == key@,
    {
        Self::new_at(level, category, reason, action, scope, key, crate::ext::system_now())
    }
}

/// The safety event a decision stands for, stamped `occurred_at`; none for `Allow`.
pub open spec fn safety_event_of(
    d: GuardrailDecisionView,
    scope: Seq<char>,
    key: Seq<char>,
    occurred_at: SystemTime,
) -> Option<SafetyEventView> {
    let event = |level: SafetyLevel, category: SafetyCategory, reason: Seq<char>, action: SafetyActionView|
        SafetyEventView { level, category, reason, action, scope, key, occurred_at };
    match d {
        GuardrailDecisionView::Allow => None,
        GuardrailDecisionView::Reject { reason, action } => Some(
            event(SafetyLevel::L2, SafetyCategory::Authorization, reason, action),
        ),
        GuardrailDecisionView::Mask { field, reason } => Some(
            event(
                SafetyLevel::L1,
                SafetyCategory::Privacy,
                field + ": "@ + reason,
                SafetyActionView::Mask { field },
            ),
        ),
        GuardrailDecisionView::Defer { reason } => Some(
            event(SafetyLevel::L1, SafetyCategory::Content, reason, SafetyActionView::Defer),
        ),
        GuardrailDecisionView::RequireApproval { reason } => Some(
            event(SafetyLevel::L3, SafetyCategory::ToolCall, reason, SafetyActionView::RequireApproval),
        ),
        GuardrailDecisionView::FailSafe { reason } => Some(
            event(SafetyLevel::L4, SafetyCategory::ToolCall, reason, SafetyActionView::FailSafe),
        ),
    }
}

/// A rejection as an HTTP response: the status code, the content type and the JSON body.
#[derive(Debug, PartialEq, Eq)]
pub struct GuardrailResponse {
    pub status: u16,
    pub content_type: String,
    pub body: String,
}

pub struct GuardrailResponseView {
    pub status: u16,
    pub content_type: Seq<char>,
    pub body: Seq<char>,
}

impl View for GuardrailResponse {
    type V = GuardrailResponseView;

    open spec fn view(&self) -> GuardrailResponseView {
        GuardrailResponseView { status: self.status, content_type: self.content_type@, body: self.body@ }
    }
}

/// The status code and message that a non-`Allow` decision is answered with.
pub open spec fn rejection_of(d: GuardrailDecisionView) -> (u16, Seq<char>) {
    match d {
        GuardrailDecisionView::Allow => (200, Seq::empty()),
        GuardrailDecisionView::Reject { reason, .. } => (403, reason),
        GuardrailDecisionView::RequireApproval { reason } => (403, reason),
        GuardrailDecisionView::Defer { reason } => (202, reason),
        GuardrailDecisionView::Mask { field, reason } => (403, "masked field "@ + field + ": "@ + reason),
        GuardrailDecisionView::FailSafe { reason } => (503, reason),
    }
}

/// The JSON error body carrying `message`, which is written into it as it is.
pub open spec fn error_body(message: Seq<char>) -> Seq<char> {
    "{\"error\":{\"message\":\""@ + message + "\"}}"@
}

impl GuardrailDecision {
    /// Whether this is `Allow`.
    pub fn is_allowed(&self) -> (r: bool)
        ensures
            r == (self is Allow),
    {
        matches!(self, GuardrailDecision::Allow)
    }

    /// Converts a non-allow decision into a safety event stamped `occurred_at`, for the audit
    /// log and the circuit breakers.
    pub fn to_safety_event_at(&self, scope: &str, key: &str, occurred_at: SystemTime) -> (r: Option<
        SafetyEvent,
    >)
        ensures
            match r {
                None => safety_event_of(self@, scope@, key@, occurred_at) is None,
                Some(e) => safety_event_of(self@, scope@, key@, occurred_at) == Some(e@),
            },
    {
        match self {
            GuardrailDecision::Allow => None,
            GuardrailDecision::Reject { reason, action } => Some(
                SafetyEvent::new_at(
                    SafetyLevel::L2,
                    SafetyCategory::Authorization,
                    reason.as_str(),
                    action.clone(),
                    scope,
                    key,
                    occurred_at,
                ),
            ),
            GuardrailDecision::Mask { field, reason } => {
                let text = cat3(field.as_str(), ": ", reason.as_str());
                Some(
                    SafetyEvent::new_at(
                        SafetyLevel::L1,
                        SafetyCategory::Privacy,
                        text.as_str(),
                        SafetyAction::Mask { field: field.clone() },
                        scope,
                        key,
                        occurred_at,
                    ),
                )
            },
            GuardrailDecision::Defer { reason } => Some(
                SafetyEvent::new_at(
                    SafetyLevel::L1,
                    SafetyCategory::Content,
                    reason.as_str(),
                    SafetyAction::Defer,
                    scope,
                    key,
                    occurred_at,
                ),
            ),
            GuardrailDecision::RequireApproval { reason } => Some(
                SafetyEvent::new_at(
                    SafetyLevel::L3,
                    SafetyCategory::ToolCall,
                    reason.as_str(),
                    SafetyAction::RequireApproval,
                    scope,
                    key,
                    occurred_at,
                ),
            ),
            GuardrailDecision::FailSafe { reason } => Some(
                SafetyEvent::new_at(
                    SafetyLevel::L4,
                    SafetyCategory::ToolCall,
                    reason.as_str(),
                    SafetyAction::FailSafe,
                    scope,
                    key,
                    occurred_at,
                ),
            ),
        }
    }

    /// Converts a non-allow decision into a safety event stamped with the current time.
    pub fn to_safety_event(&self, scope: &str, key: &str) -> (r: Option<SafetyEvent>)
        ensures
            match r {
                None => self is Allow,
                Some(e) => safety_event_of(self@, scope@, key@, e.occurred_at) == Some(e@),
            },
    {
        self.to_safety_event_at(scope, key, crate::ext::system_now())
    }

    /// The HTTP response that rejects the current request without forwarding it.
    pub fn to_http_response(&self) -> (r: GuardrailResponse)
        requires
            !(self is Allow),
        ensures
            r@ == (GuardrailResponseView {
                status: rejection_of(self@).0,
                content_type: "application/json"@,
                body: error_body(rejection_of(self@).1),
            }),
    {
        let (status, message): (u16, String) = match self {
            GuardrailDecision::Allow => (200, String::new()),
            GuardrailDecision::Reject { reason, .. } => (403, reason.clone()),
            GuardrailDecision::RequireApproval { reason } => (403, reason.clone()),
            GuardrailDecision::Defer { reason } => (202, reason.clone()),
            GuardrailDecision::Mask { field, reason } => {
                let mut m = "masked field ".to_owned();
                m.append(field.as_str());
                m.append(": ");
                m.append(reason.as_str());
                (403, m)
            },
            GuardrailDecision::FailSafe { reason } => (503, reason.clone()),
        };
        let body = cat3("{\"error\":{\"message\":\"", message.as_str(), "\"}}");
        GuardrailResponse { status, content_type: "application/json".to_owned(), body }
    }
}

/// Guardrails evaluated against the vehicle state: on requests before they are forwarded, on
/// Tool calls before they run, and on responses before they are returned.
pub trait VehicleGuardrails {
    /// The decision on a request.
    spec fn request_verdict(&self, ctx: RequestContextView, vehicle: VehicleState) -> GuardrailDecisionView;

    /// The decision on a Tool call.
    spec fn tool_call_verdict(&self, ctx: ToolCallContextView, vehicle: VehicleState) -> GuardrailDecisionView;

    /// The decision on a response.
    spec fn response_verdict(&self, ctx: ResponseContextView, vehicle: VehicleState) -> GuardrailDecisionView;

    fn check_request(&self, ctx: &RequestContext, vehicle: &VehicleState) -> (d: GuardrailDecision)
        ensures
            d@ == self.request_verdict(ctx@, *vehicle),
    ;

    fn check_tool_call(&self, ctx: &ToolCallContext, vehicle: &VehicleState) -> (d: GuardrailDecision)
        ensures
            d@ == self.tool_call_verdict(ctx@, *vehicle),
    ;

    fn check_response(&self, ctx: &ResponseContext, vehicle: &VehicleState) -> (d: GuardrailDecision)
        ensures
            d@ == self.response_verdict(ctx@, *vehicle),
    ;
}

/// An `Allow` decision gives no safety event, and every other decision gives one, at any
/// time, under any scope and key.
pub proof fn lemma_only_findings_become_events(
    d: GuardrailDecisionView,
    scope: Seq<char>,
    key: Seq<char>,
    at: SystemTime,
)
    ensures
        (safety_event_of(d, scope, key, at) is None) <==> (d is Allow),
{
}

/// A rejection is never answered with success: it is `202 Accepted` for a deferred request,
/// `503 Service Unavailable` when failing safe, and `403 Forbidden` otherwise.
pub proof fn lemma_rejections_are_not_success(d: GuardrailDecisionView)
    requires
        !(d is Allow),
    ensures
        rejection_of(d).0 == 202 || rejection_of(d).0 == 403 || rejection_of(d).0 == 503,
        rejection_of(d).0 == 202 <==> d is Defer,
        rejection_of(d).0 == 503 <==> d is FailSafe,
{
}

} // verus!
