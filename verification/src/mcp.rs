//! Common security controls applied to MCP Tool discovery and invocation.
//!
//! Identity is derived only from previously validated JWT claims carried with the request.
use vstd::prelude::*;

use crate::adapter::{normalized, tool_invoke_for_identity, tool_list, CapabilityError, GatewayIdentity};
use crate::audit::event_records;
use crate::contracts::{ActionRequestView, ActionType, ResourceType, SecurityEvent};
use crate::ext::{new_uuid_string, now_millis};
use crate::integration::{authorize_recorded_at, evaluation_at, Evaluation, SecurityConfig, SecurityMode};
use crate::json::{member, member_value, JsonValue};
use crate::pipeline::{answers, recorded_as, verdict_decision, GatewayError, SecurityPipelineConfig, Verdict};

verus! {

/// What an MCP request asks for.
#[derive(Debug, PartialEq, Eq)]
pub enum McpRequestKind {
    /// `tools/call`, with the Tool's name and its arguments object, when it has one.
    CallTool { name: String, arguments: Option<JsonValue> },
    /// `tools/list`.
    ListTools,
    /// Any other request.
    Other,
}

/// An MCP JSON-RPC request: its id, as text, and what it asks for.
#[derive(Debug, PartialEq, Eq)]
pub struct McpRequest {
    pub id: String,
    pub kind: McpRequestKind,
}

/// Why a request is not forwarded upstream.
#[derive(Debug, PartialEq, Eq)]
pub enum UpstreamError {
    InvalidRequest(String),
}

/// The claim `name`, when it is a string.
pub open spec fn string_claim_value(claims: Seq<(String, JsonValue)>, name: Seq<char>) -> Option<String> {
    match member_value(claims, name) {
        Some(JsonValue::String(s)) => Some(s),
        _ => None,
    }
}

/// The first of `names`, from `i` on, whose claim is a string.
pub open spec fn first_string_claim(claims: Seq<(String, JsonValue)>, names: Seq<&str>, i: int) -> Option<
    String,
>
    decreases names.len() - i,
{
    if i < 0 || i >= names.len() {
        None
    } else {
        match string_claim_value(claims, names[i]@) {
            Some(s) => Some(s),
            None => first_string_claim(claims, names, i + 1),
        }
    }
}

/// The first of `names` whose claim is a string.
fn string_claim(claims: &Vec<(String, JsonValue)>, names: &[&str]) -> (r: Option<String>)
    ensures
        r == first_string_claim(claims@, names@, 0),
{
    let mut i: usize = 0;
    while i < names.len()
        invariant
            i <= names@.len(),
            first_string_claim(claims@, names@, 0) == first_string_claim(claims@, names@, i as int),
        decreases names@.len() - i,
    {
        match member(claims, names[i]) {
            Some(JsonValue::String(s)) => {
                return Some(s.clone());
            },
            _ => {},
        }
        i += 1;
    }
    None
}

/// The claim names each identity is read from, in order of preference.
pub open spec fn user_claims() -> Seq<&'static str> {
    seq!["sub", "user_id", "userId"]
}

pub open spec fn agent_claims() -> Seq<&'static str> {
    seq!["agent_id", "agentId"]
}

pub open spec fn tenant_claims() -> Seq<&'static str> {
    seq!["tenant_id", "tenantId"]
}

pub open spec fn delegation_claims() -> Seq<&'static str> {
    seq!["delegation_id", "delegationId"]
}

/// The identity that validated JWT claims establish; none without claims.
pub open spec fn claims_identity(claims: Option<Seq<(String, JsonValue)>>) -> GatewayIdentity {
    match claims {
        None => GatewayIdentity { user_id: None, agent_id: None, tenant_id: None, delegation_id: None },
        Some(c) => GatewayIdentity {
            user_id: first_string_claim(c, user_claims(), 0),
            agent_id: first_string_claim(c, agent_claims(), 0),
            tenant_id: first_string_claim(c, tenant_claims(), 0),
            delegation_id: first_string_claim(c, delegation_claims(), 0),
        },
    }
}

/// The members of optional claims.
pub open spec fn claims_view(claims: Option<&Vec<(String, JsonValue)>>) -> Option<Seq<(String, JsonValue)>> {
    match claims {
        None => None,
        Some(c) => Some(c@),
    }
}

/// The identity that validated JWT claims establish: the user from `sub`, `user_id` or
/// `userId`, the agent from `agent_id` or `agentId`, the tenant from `tenant_id` or `tenantId`
/// and the delegation from `delegation_id` or `delegationId`, the first that is a string in
/// each case. Without claims the identity is empty.
pub fn identity_from_claims(claims: Option<&Vec<(String, JsonValue)>>) -> (r: GatewayIdentity)
    ensures
        r == claims_identity(claims_view(claims)),
{
    match claims {
        None => GatewayIdentity { user_id: None, agent_id: None, tenant_id: None, delegation_id: None },
        Some(c) => {
            let user: [&str; 3] = ["sub", "user_id", "userId"];
            let agent: [&str; 2] = ["agent_id", "agentId"];
            let tenant: [&str; 2] = ["tenant_id", "tenantId"];
            let delegation: [&str; 2] = ["delegation_id", "delegationId"];
            assert(user@ == user_claims());
            assert(agent@ == agent_claims());
            assert(tenant@ == tenant_claims());
            assert(delegation@ == delegation_claims());
            GatewayIdentity {
                user_id: string_claim(c, &user),
                agent_id: string_claim(c, &agent),
                tenant_id: string_claim(c, &tenant),
                delegation_id: string_claim(c, &delegation),
            }
        },
    }
}

/// The identity from validated claims, claim by claim: the user is the `sub` claim when it is
/// a string, otherwise `user_id`, otherwise `userId`; the agent is `agent_id`, otherwise
/// `agentId`; the tenant is `tenant_id`, otherwise `tenantId`; the delegation is
/// `delegation_id`, otherwise `delegationId`; in each case only a string claim counts, and
/// with none the part is empty.
pub proof fn lemma_identity_from_named_claims(c: Seq<(String, JsonValue)>)
    ensures
        ({
            let id = claims_identity(Some(c));
            let first = |a: Seq<char>, b: Seq<char>, d: Seq<char>|
                match member_value(c, a) {
                    Some(JsonValue::String(s)) => Some(s),
                    _ => match member_value(c, b) {
                        Some(JsonValue::String(s)) => Some(s),
                        _ => match member_value(c, d) {
                            Some(JsonValue::String(s)) => Some(s),
                            _ => None::<String>,
                        },
                    },
                };
            let second = |a: Seq<char>, b: Seq<char>|
                match member_value(c, a) {
                    Some(JsonValue::String(s)) => Some(s),
                    _ => match member_value(c, b) {
                        Some(JsonValue::String(s)) => Some(s),
                        _ => None::<String>,
                    },
                };
            &&& id.user_id == first("sub"@, "user_id"@, "userId"@)
            &&& id.agent_id == second("agent_id"@, "agentId"@)
            &&& id.tenant_id == second("tenant_id"@, "tenantId"@)
            &&& id.delegation_id == second("delegation_id"@, "delegationId"@)
        }),
        claims_identity(None) == (GatewayIdentity { user_id: None, agent_id: None, tenant_id: None, delegation_id: None }),
{
    reveal_with_fuel(first_string_claim, 4);
}

/// The name `Debug` gives a capability error.
pub open spec fn capability_error_name(e: CapabilityError) -> Seq<char> {
    match e {
        CapabilityError::NotFound => "NotFound"@,
        CapabilityError::Expired => "Expired"@,
        CapabilityError::RequestMismatch => "RequestMismatch"@,
        CapabilityError::ArgumentsMismatch => "ArgumentsMismatch"@,
    }
}

/// The message a policy denial is reported with, naming the deciding policy when there is one.
pub open spec fn denial_message(policy_id: Option<Seq<char>>) -> Seq<char> {
    match policy_id {
        Some(id) => "security policy denied request"@ + " by '"@ + id + "'"@,
        None => "security policy denied request"@,
    }
}

/// The message a control denial is reported with.
pub open spec fn control_denial_message(control_id: Seq<char>, reason: Seq<char>) -> Seq<char> {
    "security control '"@ + control_id + "' denied request: "@ + reason
}

/// The message a gateway error is reported upstream with.
pub open spec fn error_text(e: GatewayError) -> Seq<char> {
    match e {
        GatewayError::Denied(d) => denial_message(d@.policy_id),
        GatewayError::DeniedByControl { denial, .. } => control_denial_message(
            denial.control_id@,
            denial.reason@,
        ),
        GatewayError::Capability(c) => "capability validation failed: "@ + capability_error_name(c),
        GatewayError::CapabilityUnavailable => "capability broker is not configured"@,
    }
}

fn capability_error_text(e: &CapabilityError) -> (s: &'static str)
    ensures
        s@ == capability_error_name(*e),
{
    match e {
        CapabilityError::NotFound => "NotFound",
        CapabilityError::Expired => "Expired",
        CapabilityError::RequestMismatch => "RequestMismatch",
        CapabilityError::ArgumentsMismatch => "ArgumentsMismatch",
    }
}

/// The message a gateway error is reported upstream with.
pub fn error_message(error: GatewayError) -> (s: String)
    ensures
        s@ == error_text(error),
{
    error_text_of(&error)
}

fn error_text_of(error: &GatewayError) -> (s: String)
    ensures
        s@ == error_text(*error),
{
    match error {
        GatewayError::Denied(decision) => {
            let mut m = "security policy denied request".to_owned();
            match &decision.policy_id {
                Some(id) => {
                    m.append(" by '");
                    m.append(id.as_str());
                    m.append("'");
                },
                None => {},
            }
            m
        },
        GatewayError::DeniedByControl { denial, .. } => {
            let mut m = "security control '".to_owned();
            m.append(denial.control_id.as_str());
            m.append("' denied request: ");
            m.append(denial.reason.as_str());
            m
        },
        GatewayError::Capability(e) => {
            let mut m = "capability validation failed: ".to_owned();
            m.append(capability_error_text(e));
            m
        },
        GatewayError::CapabilityUnavailable => "capability broker is not configured".to_owned(),
    }
}

/// `r` is what a request whose security verdict is `v` is answered with upstream.
pub open spec fn upstream_outcome(r: Result<(), UpstreamError>, v: Verdict) -> bool {
    match v {
        Verdict::Allowed(_) => r is Ok,
        Verdict::Denied(d) => r matches Err(UpstreamError::InvalidRequest(m)) && m@ == denial_message(
            d.policy_id,
        ),
        Verdict::Refused { control_id, reason, .. } => r matches Err(UpstreamError::InvalidRequest(m))
            && m@ == control_denial_message(control_id, reason),
    }
}

/// The action a Tool call is authorized as.
pub open spec fn tool_call_action(id: Seq<char>, identity: GatewayIdentity, name: Seq<char>) -> ActionRequestView {
    normalized(id, identity, ActionType::ToolInvoke, name, name, ResourceType::Tool)
}

/// `passed` is the arguments object a Tool call is evaluated with: its own arguments, or an
/// empty object when it has none.
pub open spec fn passed_arguments(arguments: Option<JsonValue>, passed: JsonValue) -> bool {
    match arguments {
        Some(a) => passed == a,
        None => passed matches JsonValue::Object(fields) && fields@.len() == 0,
    }
}

/// `event` is the audit record of decision `d` on `action`.
pub open spec fn records_decision(event: Option<SecurityEvent>, action: ActionRequestView, d: crate::contracts::DecisionView) -> bool {
    event matches Some(e) && event_records(e@, action, d)
}

/// `ev` is an evaluation in `mode` whose answer is the one verdict `v` calls for.
pub open spec fn evaluated_as(ev: Option<Evaluation>, mode: SecurityMode, v: Verdict) -> bool {
    ev matches Some(x) && x.mode == mode && answers(x.answer, v)
}

/// What the runtime is told of one MCP request: the answer upstream, and the audit record of
/// the decision when one was made.
pub open spec fn enforced_call(
    r: (Result<(), UpstreamError>, Option<SecurityEvent>),
    action: ActionRequestView,
    v: Verdict,
    event_id: Seq<char>,
    now: i64,
) -> bool {
    &&& upstream_outcome(r.0, v)
    &&& r.1 matches Some(e) && recorded_as(e@, action, verdict_decision(v), event_id, now)
}

/// Enforces the security pipeline on an MCP Tool call as of `now` and returns the answer
/// with the audit record of the decision, under `event_id`; other requests pass, with no
/// record.
pub fn enforce_tool_call_at(
    config: &SecurityPipelineConfig,
    request: &McpRequest,
    claims: Option<&Vec<(String, JsonValue)>>,
    now: i64,
    event_id: String,
) -> (r: (Result<(), UpstreamError>, Option<SecurityEvent>))
    ensures
        match request.kind {
            McpRequestKind::CallTool { name, arguments } => exists|passed: JsonValue|
                passed_arguments(arguments, passed) && enforced_call(
                    r,
                    tool_call_action(request.id@, claims_identity(claims_view(claims)), name@),
                    #[trigger] config.verdict_for(
                        tool_call_action(request.id@, claims_identity(claims_view(claims)), name@),
                        Some(passed),
                        now,
                    ),
                    event_id@,
                    now,
                ),
            _ => r.0 is Ok && r.1 is None,
        },
{
    match &request.kind {
        McpRequestKind::CallTool { name, arguments } => {
            let identity = identity_from_claims(claims);
            let action = tool_invoke_for_identity(request.id.as_str(), identity, name.as_str());
            let empty = JsonValue::Object(Vec::new());
            let passed = match arguments {
                Some(a) => a,
                None => &empty,
            };
            let (answer, event) = authorize_recorded_at(config, &action, Some(passed), now, event_id);
            let result = match &answer {
                Ok(_) => Ok(()),
                Err(error) => Err(UpstreamError::InvalidRequest(error_text_of(error))),
            };
            assert(passed_arguments(*arguments, *passed));
            (result, Some(event))
        },
        _ => (Ok(()), None),
    }
}

/// Enforces the security pipeline on an MCP Tool call now and returns the answer with the
/// audit record of the decision; other requests pass, with no record.
pub fn enforce_tool_call_recorded(
    config: &SecurityPipelineConfig,
    request: &McpRequest,
    claims: Option<&Vec<(String, JsonValue)>>,
) -> (r: (Result<(), UpstreamError>, Option<SecurityEvent>))
    ensures
        match request.kind {
            McpRequestKind::CallTool { name, arguments } => exists|now: i64, passed: JsonValue|
                passed_arguments(arguments, passed) && upstream_outcome(
                    r.0,
                    #[trigger] config.verdict_for(
                        tool_call_action(request.id@, claims_identity(claims_view(claims)), name@),
                        Some(passed),
                        now,
                    ),
                ) && records_decision(
                    r.1,
                    tool_call_action(request.id@, claims_identity(claims_view(claims)), name@),
                    verdict_decision(
                        config.verdict_for(
                            tool_call_action(request.id@, claims_identity(claims_view(claims)), name@),
                            Some(passed),
                            now,
                        ),
                    ),
                ),
            _ => r.0 is Ok && r.1 is None,
        },
{
    let now = now_millis();
    enforce_tool_call_at(config, request, claims, now, new_uuid_string())
}

/// Enforces the configured security pipeline on an MCP Tool call; other requests pass. The
/// decision's audit record is what `enforce_tool_call_recorded` returns.
pub fn enforce_tool_call(
    config: &SecurityPipelineConfig,
    request: &McpRequest,
    claims: Option<&Vec<(String, JsonValue)>>,
) -> (r: Result<(), UpstreamError>)
    ensures
        match request.kind {
            McpRequestKind::CallTool { name, arguments } => exists|now: i64, passed: JsonValue|
                passed_arguments(arguments, passed) && upstream_outcome(
                    r,
                    #[trigger] config.verdict_for(
                        tool_call_action(request.id@, claims_identity(claims_view(claims)), name@),
                        Some(passed),
                        now,
                    ),
                ),
            _ => r is Ok,
        },
{
    enforce_tool_call_recorded(config, request, claims).0
}

/// The answer upstream for an evaluation: its denial in enforce mode, success otherwise.
fn upstream_result(ev: &Evaluation) -> (r: Result<(), UpstreamError>)
    ensures
        ev.mode != SecurityMode::Enforce ==> r is Ok,
        ev.mode == SecurityMode::Enforce ==> match ev.answer {
            Ok(_) => r is Ok,
            Err(e) => r matches Err(UpstreamError::InvalidRequest(m)) && m@ == error_text(e),
        },
{
    match &ev.answer {
        Ok(_) => Ok(()),
        Err(error) => match ev.mode {
            SecurityMode::Enforce => Err(UpstreamError::InvalidRequest(error_text_of(error))),
            _ => Ok(()),
        },
    }
}

/// `r` answers an MCP request evaluated under `config` with verdict `v` on `action`: success
/// unless enforce mode refuses, and the evaluation with its audit record.
pub open spec fn audited_call(
    r: (Result<(), UpstreamError>, Option<Evaluation>),
    config: SecurityConfig,
    action: ActionRequestView,
    v: Verdict,
    event_id: Seq<char>,
    now: i64,
) -> bool {
    &&& (config.mode != SecurityMode::Enforce ==> r.0 is Ok)
    &&& (config.mode == SecurityMode::Enforce ==> upstream_outcome(r.0, v))
    &&& r.1 matches Some(ev) && ev.mode == config.mode && answers(ev.answer, v) && recorded_as(
        ev.event@,
        action,
        verdict_decision(v),
        event_id,
        now,
    )
}

/// The Tool listing action for listing the server `mcp_server_id`.
pub open spec fn list_action(id: Seq<char>, identity: GatewayIdentity, mcp_server_id: Seq<char>) -> ActionRequestView {
    normalized(id, identity, ActionType::ToolList, "list"@, mcp_server_id, ResourceType::McpServer)
}

/// Applies the common security configuration to MCP Tool discovery and invocation as of
/// `now`: a Tool call is evaluated with its arguments, a Tool listing as listing the server
/// `mcp_server_id`; other requests pass. Returns the answer upstream and the evaluation, with
/// the audit record of its decision under `event_id`.
pub fn audit_request_at(
    config: &SecurityConfig,
    request: &McpRequest,
    claims: Option<&Vec<(String, JsonValue)>>,
    mcp_server_id: &str,
    now: i64,
    event_id: String,
) -> (r: (Result<(), UpstreamError>, Option<Evaluation>))
    ensures
        match request.kind {
            McpRequestKind::CallTool { name, arguments } => exists|passed: JsonValue|
                passed_arguments(arguments, passed) && audited_call(
                    r,
                    *config,
                    tool_call_action(request.id@, claims_identity(claims_view(claims)), name@),
                    #[trigger] config.pipeline.verdict_for(
                        tool_call_action(request.id@, claims_identity(claims_view(claims)), name@),
                        Some(passed),
                        now,
                    ),
                    event_id@,
                    now,
                ),
            McpRequestKind::ListTools => audited_call(
                r,
                *config,
                list_action(request.id@, claims_identity(claims_view(claims)), mcp_server_id@),
                config.pipeline.verdict_for(
                    list_action(request.id@, claims_identity(claims_view(claims)), mcp_server_id@),
                    None,
                    now,
                ),
                event_id@,
                now,
            ),
            McpRequestKind::Other => r.0 is Ok && r.1 is None,
        },
{
    let identity = identity_from_claims(claims);
    let ev = match &request.kind {
        McpRequestKind::CallTool { name, arguments } => {
            let action = tool_invoke_for_identity(request.id.as_str(), identity, name.as_str());
            let empty = JsonValue::Object(Vec::new());
            let passed = match arguments {
                Some(a) => a,
                None => &empty,
            };
            assert(passed_arguments(*arguments, *passed));
            evaluation_at(config, &action, Some(passed), now, event_id)
        },
        McpRequestKind::ListTools => {
            let action = tool_list(request.id.as_str(), identity, mcp_server_id);
            evaluation_at(config, &action, None, now, event_id)
        },
        McpRequestKind::Other => {
            return (Ok(()), None);
        },
    };
    let result = upstream_result(&ev);
    (result, Some(ev))
}

/// Applies the common security configuration to MCP Tool discovery and invocation now, and
/// returns the answer upstream with the evaluation and its audit record.
pub fn audit_request_recorded(
    config: &SecurityConfig,
    request: &McpRequest,
    claims: Option<&Vec<(String, JsonValue)>>,
    mcp_server_id: &str,
) -> (r: (Result<(), UpstreamError>, Option<Evaluation>))
    ensures
        config.mode != SecurityMode::Enforce ==> r.0 is Ok,
        match request.kind {
            McpRequestKind::CallTool { name, arguments } => exists|now: i64, passed: JsonValue|
                passed_arguments(arguments, passed) && (config.mode == SecurityMode::Enforce
                    ==> upstream_outcome(
                    r.0,
                    #[trigger] config.pipeline.verdict_for(
                        tool_call_action(request.id@, claims_identity(claims_view(claims)), name@),
                        Some(passed),
                        now,
                    ),
                )) && evaluated_as(
                    r.1,
                    config.mode,
                    config.pipeline.verdict_for(
                        tool_call_action(request.id@, claims_identity(claims_view(claims)), name@),
                        Some(passed),
                        now,
                    ),
                ),
            McpRequestKind::ListTools => exists|now: i64|
                (config.mode == SecurityMode::Enforce ==> upstream_outcome(
                    r.0,
                    #[trigger] config.pipeline.verdict_for(
                        list_action(request.id@, claims_identity(claims_view(claims)), mcp_server_id@),
                        None,
                        now,
                    ),
                )) && evaluated_as(
                    r.1,
                    config.mode,
                    config.pipeline.verdict_for(
                        list_action(request.id@, claims_identity(claims_view(claims)), mcp_server_id@),
                        None,
                        now,
                    ),
                ),
            McpRequestKind::Other => r.0 is Ok && r.1 is None,
        },
{
    let now = now_millis();
    audit_request_at(config, request, claims, mcp_server_id, now, new_uuid_string())
}

/// Applies the common security configuration to MCP Tool discovery and invocation. The
/// evaluation and its audit record are what `audit_request_recorded` returns.
pub fn audit_request(
    config: &SecurityConfig,
    request: &McpRequest,
    claims: Option<&Vec<(String, JsonValue)>>,
    mcp_server_id: &str,
) -> (r: Result<(), UpstreamError>)
    ensures
        config.mode != SecurityMode::Enforce ==> r is Ok,
        config.mode == SecurityMode::Enforce ==> match request.kind {
            McpRequestKind::CallTool { name, arguments } => exists|now: i64, passed: JsonValue|
                passed_arguments(arguments, passed) && upstream_outcome(
                    r,
                    #[trigger] config.pipeline.verdict_for(
                        tool_call_action(request.id@, claims_identity(claims_view(claims)), name@),
                        Some(passed),
                        now,
                    ),
                ),
            McpRequestKind::ListTools => exists|now: i64|
                upstream_outcome(
                    r,
                    #[trigger] config.pipeline.verdict_for(
                        list_action(request.id@, claims_identity(claims_view(claims)), mcp_server_id@),
                        None,
                        now,
                    ),
                ),
            McpRequestKind::Other => r is Ok,
        },
{
    audit_request_recorded(config, request, claims, mcp_server_id).0
}

} // verus!
