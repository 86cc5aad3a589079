//! Normalization of gateway requests into actions, one-time capabilities bound to an
//! authorized Tool call, and the security enforcement facade.
use vstd::prelude::*;
use vstd::hash_map::StringHashMap;

use crate::audit::{event_from_decision_at, event_records, AuditSink};
use crate::contracts::{
    clone_opt_string, Action, ActionRequest, ActionRequestView, ActionType, ActionView, Decision,
    DecisionEffect, Resource, ResourceType, ResourceView, Subject, SubjectView,
};
use crate::engine::{decide, decide_spec};
use crate::ext::{encode_json, json_encoding, new_uuid_string, now_millis, push_char, sha256, sha256_digest};
use crate::json::JsonValue;
use crate::pipeline::GatewayError;
use crate::policy::Policy;

verus! {

/// The identities a gateway request carries after verified authentication.
#[derive(Debug, Default, PartialEq, Eq)]
pub struct GatewayIdentity {
    pub user_id: Option<String>,
    pub agent_id: Option<String>,
    pub tenant_id: Option<String>,
    /// Correlates this request to a delegation grant carried by verified authentication.
    pub delegation_id: Option<String>,
}

impl Clone for GatewayIdentity {
    fn clone(&self) -> (r: Self)
        ensures
            r == *self,
    {
        GatewayIdentity {
            user_id: clone_opt_string(&self.user_id),
            agent_id: clone_opt_string(&self.agent_id),
            tenant_id: clone_opt_string(&self.tenant_id),
            delegation_id: clone_opt_string(&self.delegation_id),
        }
    }
}

/// The subject that an identity becomes.
pub open spec fn subject_of(i: GatewayIdentity) -> Subject {
    Subject {
        user_id: i.user_id,
        agent_id: i.agent_id,
        tenant_id: i.tenant_id,
        delegation_id: i.delegation_id,
    }
}

impl vstd::std_specs::convert::FromSpecImpl<GatewayIdentity> for Subject {
    open spec fn obeys_from_spec() -> bool {
        true
    }

    open spec fn from_spec(v: GatewayIdentity) -> Subject {
        subject_of(v)
    }
}

impl From<GatewayIdentity> for Subject {
    fn from(value: GatewayIdentity) -> (r: Self) {
        Subject {
            user_id: value.user_id,
            agent_id: value.agent_id,
            tenant_id: value.tenant_id,
            delegation_id: value.delegation_id,
        }
    }
}

/// The request a constructor builds: `action_type`/`name` on the resource `id` of
/// `resource_type`, for the subject of `identity`.
pub open spec fn normalized(
    request_id: Seq<char>,
    identity: GatewayIdentity,
    action_type: ActionType,
    name: Seq<char>,
    id: Seq<char>,
    resource_type: ResourceType,
) -> ActionRequestView {
    ActionRequestView {
        request_id,
        subject: subject_of(identity)@,
        action: ActionView { action_type, name },
        resource: ResourceView { id, resource_type },
    }
}

fn build_request(
    request_id: &str,
    identity: GatewayIdentity,
    action_type: ActionType,
    name: &str,
    id: &str,
    resource_type: ResourceType,
) -> (r: ActionRequest)
    ensures
        r@ == normalized(request_id@, identity, action_type, name@, id@, resource_type),
{
    ActionRequest {
        request_id: request_id.to_owned(),
        subject: Subject::from(identity),
        action: Action { action_type, name: name.to_owned() },
        resource: Resource { id: id.to_owned(), resource_type },
    }
}

/// An identity with only a user and an agent.
pub open spec fn user_agent_identity(user_id: Option<String>, agent_id: Option<String>) -> GatewayIdentity {
    GatewayIdentity { user_id, agent_id, tenant_id: None, delegation_id: None }
}

pub fn model_invoke(
    request_id: &str,
    user_id: Option<String>,
    agent_id: Option<String>,
    model_id: &str,
) -> (r: ActionRequest)
    ensures
        r@ == normalized(
            request_id@,
            user_agent_identity(user_id, agent_id),
            ActionType::ModelInvoke,
            "invoke"@,
            model_id@,
            ResourceType::Model,
        ),
{
    model_invoke_for_identity(
        request_id,
        GatewayIdentity { user_id, agent_id, tenant_id: None, delegation_id: None },
        model_id,
    )
}

pub fn model_invoke_for_identity(request_id: &str, identity: GatewayIdentity, model_id: &str) -> (r:
    ActionRequest)
    ensures
        r@ == normalized(
            request_id@,
            identity,
            ActionType::ModelInvoke,
            "invoke"@,
            model_id@,
            ResourceType::Model,
        ),
{
    build_request(request_id, identity, ActionType::ModelInvoke, "invoke", model_id, ResourceType::Model)
}

pub fn agent_invoke_for_identity(request_id: &str, identity: GatewayIdentity, agent_id: &str) -> (r:
    ActionRequest)
    ensures
        r@ == normalized(
            request_id@,
            identity,
            ActionType::AgentInvoke,
            "invoke"@,
            agent_id@,
            ResourceType::Agent,
        ),
{
    agent_action_for_identity(request_id, identity, agent_id, "invoke")
}

/// Normalizes an A2A JSON-RPC method into an authorization action.
pub fn agent_action_for_identity(
    request_id: &str,
    identity: GatewayIdentity,
    agent_id: &str,
    method: &str,
) -> (r: ActionRequest)
    ensures
        r@ == normalized(
            request_id@,
            identity,
            ActionType::AgentInvoke,
            method@,
            agent_id@,
            ResourceType::Agent,
        ),
{
    build_request(request_id, identity, ActionType::AgentInvoke, method, agent_id, ResourceType::Agent)
}

pub fn inference_route_for_identity(
    request_id: &str,
    identity: GatewayIdentity,
    endpoint_picker: &str,
) -> (r: ActionRequest)
    ensures
        r@ == normalized(
            request_id@,
            identity,
            ActionType::InferenceRoute,
            "select-destination"@,
            endpoint_picker@,
            ResourceType::InferenceEndpoint,
        ),
{
    build_request(
        request_id,
        identity,
        ActionType::InferenceRoute,
        "select-destination",
        endpoint_picker,
        ResourceType::InferenceEndpoint,
    )
}

pub fn tool_invoke(
    request_id: &str,
    user_id: Option<String>,
    agent_id: Option<String>,
    tool_name: &str,
) -> (r: ActionRequest)
    ensures
        r@ == normalized(
            request_id@,
            user_agent_identity(user_id, agent_id),
            ActionType::ToolInvoke,
            tool_name@,
            tool_name@,
            ResourceType::Tool,
        ),
{
    tool_invoke_for_identity(
        request_id,
        GatewayIdentity { user_id, agent_id, tenant_id: None, delegation_id: None },
        tool_name,
    )
}

/// A Tool call: the action and the resource are both named after the Tool.
pub fn tool_invoke_for_identity(request_id: &str, identity: GatewayIdentity, tool_name: &str) -> (r:
    ActionRequest)
    ensures
        r@ == normalized(
            request_id@,
            identity,
            ActionType::ToolInvoke,
            tool_name@,
            tool_name@,
            ResourceType::Tool,
        ),
{
    build_request(request_id, identity, ActionType::ToolInvoke, tool_name, tool_name, ResourceType::Tool)
}

pub fn tool_list(request_id: &str, identity: GatewayIdentity, mcp_server_id: &str) -> (r:
    ActionRequest)
    ensures
        r@ == normalized(
            request_id@,
            identity,
            ActionType::ToolList,
            "list"@,
            mcp_server_id@,
            ResourceType::McpServer,
        ),
{
    build_request(request_id, identity, ActionType::ToolList, "list", mcp_server_id, ResourceType::McpServer)
}

/// The lowercase hexadecimal digit for a nibble.
pub open spec fn hex_digit(n: u8) -> char {
    if n == 0 { '0' } else if n == 1 { '1' } else if n == 2 { '2' } else if n == 3 { '3' }
    else if n == 4 { '4' } else if n == 5 { '5' } else if n == 6 { '6' } else if n == 7 { '7' }
    else if n == 8 { '8' } else if n == 9 { '9' } else if n == 10 { 'a' } else if n == 11 { 'b' }
    else if n == 12 { 'c' } else if n == 13 { 'd' } else if n == 14 { 'e' } else { 'f' }
}

/// Bytes written as two lowercase hexadecimal digits each, most significant first.
pub open spec fn hex_encoding(bytes: Seq<u8>) -> Seq<char>
    decreases bytes.len(),
{
    if bytes.len() == 0 {
        Seq::empty()
    } else {
        let b = bytes.last();
        hex_encoding(bytes.drop_last()).push(hex_digit(b / 16)).push(hex_digit(b % 16))
    }
}

fn hex_digit_exec(n: u8) -> (c: char)
    requires
        n < 16,
    ensures
        c == hex_digit(n),
{
    if n == 0 { '0' } else if n == 1 { '1' } else if n == 2 { '2' } else if n == 3 { '3' }
    else if n == 4 { '4' } else if n == 5 { '5' } else if n == 6 { '6' } else if n == 7 { '7' }
    else if n == 8 { '8' } else if n == 9 { '9' } else if n == 10 { 'a' } else if n == 11 { 'b' }
    else if n == 12 { 'c' } else if n == 13 { 'd' } else if n == 14 { 'e' } else { 'f' }
}

fn hex_string(bytes: &Vec<u8>) -> (r: String)
    ensures
        r@ == hex_encoding(bytes@),
{
    let mut out = String::new();
    let mut i: usize = 0;
    while i < bytes.len()
        invariant
            i <= bytes@.len(),
            out@ == hex_encoding(bytes@.take(i as int)),
        decreases bytes@.len() - i,
    {
        let b = bytes[i];
        push_char(&mut out, hex_digit_exec(b / 16));
        push_char(&mut out, hex_digit_exec(b % 16));
        assert(bytes@.take(i + 1).drop_last() == bytes@.take(i as int));
        i += 1;
    }
    assert(bytes@.take(bytes@.len() as int) == bytes@);
    out
}

/// The fingerprint a capability keeps of its Tool arguments: the hex SHA-256 digest of their
/// JSON text.
pub open spec fn arguments_hash_spec(arguments: JsonValue) -> Seq<char> {
    hex_encoding(sha256_digest(json_encoding(arguments)))
}

fn arguments_hash(arguments: &JsonValue) -> (r: String)
    ensures
        r@ == arguments_hash_spec(*arguments),
{
    let bytes = encode_json(arguments);
    let digest = sha256(bytes.as_slice());
    hex_string(&digest)
}

/// An opaque, one-time permission to perform one authorized Tool call. `expires_at` is in
/// milliseconds since the UNIX epoch.
#[derive(Debug, PartialEq, Eq)]
pub struct Capability {
    pub token: String,
    pub request_id: String,
    pub subject: Subject,
    pub action: Action,
    pub resource: Resource,
    pub arguments_hash: String,
    pub expires_at: i64,
}

pub struct CapabilityView {
    pub token: Seq<char>,
    pub request_id: Seq<char>,
    pub subject: SubjectView,
    pub action: ActionView,
    pub resource: ResourceView,
    pub arguments_hash: Seq<char>,
    pub expires_at: i64,
}

impl View for Capability {
    type V = CapabilityView;

    open spec fn view(&self) -> CapabilityView {
        CapabilityView {
            token: self.token@,
            request_id: self.request_id@,
            subject: self.subject@,
            action: self.action@,
            resource: self.resource@,
            arguments_hash: self.arguments_hash@,
            expires_at: self.expires_at,
        }
    }
}

impl Clone for Capability {
    fn clone(&self) -> (r: Self)
        ensures
            r == *self,
    {
        Capability {
            token: self.token.clone(),
            request_id: self.request_id.clone(),
            subject: self.subject.clone(),
            action: self.action.clone(),
            resource: self.resource.clone(),
            arguments_hash: self.arguments_hash.clone(),
            expires_at: self.expires_at,
        }
    }
}

#[derive(Debug, Clone, Copy, PartialEq, Eq, Structural)]
pub enum CapabilityError {
    NotFound,
    Expired,
    RequestMismatch,
    ArgumentsMismatch,
}

/// `t + ttl` milliseconds, held to the range of `i64`.
pub open spec fn expiry(t: i64, ttl_ms: i64) -> i64 {
    if t + ttl_ms > i64::MAX {
        i64::MAX
    } else if t + ttl_ms < i64::MIN {
        i64::MIN
    } else {
        (t + ttl_ms) as i64
    }
}

/// The capability issued under `token` at time `now` for `request` and `arguments`.
pub open spec fn issued(
    token: Seq<char>,
    request: ActionRequestView,
    arguments: JsonValue,
    ttl_ms: i64,
    now: i64,
) -> CapabilityView {
    CapabilityView {
        token,
        request_id: request.request_id,
        subject: request.subject,
        action: request.action,
        resource: request.resource,
        arguments_hash: arguments_hash_spec(arguments),
        expires_at: expiry(now, ttl_ms),
    }
}

/// Why a capability cannot be consumed at `now` for `request` and `arguments`, if it can't.
pub open spec fn consume_failure(
    c: CapabilityView,
    request: ActionRequestView,
    arguments: JsonValue,
    now: i64,
) -> Option<CapabilityError> {
    if now >= c.expires_at {
        Some(CapabilityError::Expired)
    } else if c.request_id != request.request_id || c.subject != request.subject || c.action
        != request.action || c.resource != request.resource {
        Some(CapabilityError::RequestMismatch)
    } else if c.arguments_hash != arguments_hash_spec(arguments) {
        Some(CapabilityError::ArgumentsMismatch)
    } else {
        None
    }
}

/// Issues opaque, short-lived, one-time capabilities after authorization.
/// The Agent receives no downstream credential: a Tool-side enforcer must consume the
/// capability before executing the action.
pub struct CapabilityBroker {
    capabilities: StringHashMap<Capability>,
}

impl CapabilityBroker {
    /// The outstanding capabilities, by token.
    pub closed spec fn outstanding(&self) -> Map<Seq<char>, CapabilityView> {
        self.capabilities@.map_values(|c: Capability| c@)
    }

    pub fn new() -> (b: Self)
        ensures
            b.outstanding() == Map::<Seq<char>, CapabilityView>::empty(),
    {
        let b = CapabilityBroker { capabilities: StringHashMap::new() };
        assert(b.outstanding() == Map::<Seq<char>, CapabilityView>::empty());
        b
    }

    /// Issues a capability under `token` at time `now`. A capability already held under the
    /// same token is replaced.
    pub fn issue_at(
        &mut self,
        request: &ActionRequest,
        arguments: &JsonValue,
        ttl_ms: i64,
        now: i64,
        token: String,
    ) -> (c: Capability)
        ensures
            c@ == issued(token@, request@, *arguments, ttl_ms, now),
            final(self).outstanding() == old(self).outstanding().insert(token@, c@),
    {
        let expires_at = match now.checked_add(ttl_ms) {
            Some(t) => t,
            None => if ttl_ms > 0 {
                i64::MAX
            } else {
                i64::MIN
            },
        };
        let capability = Capability {
            token,
            request_id: request.request_id.clone(),
            subject: request.subject.clone(),
            action: request.action.clone(),
            resource: request.resource.clone(),
            arguments_hash: arguments_hash(arguments),
            expires_at,
        };
        let key = capability.token.clone();
        let stored = capability.clone();
        self.capabilities.insert(key, stored);
        assert(final(self).outstanding() =~= old(self).outstanding().insert(
            capability.token@,
            capability@,
        ));
        capability
    }

    /// Issues a capability under a random v4 UUID token, valid for `ttl_ms` milliseconds from
    /// now.
    pub fn issue(&mut self, request: &ActionRequest, arguments: &JsonValue, ttl_ms: i64) -> (c:
        Capability)
        ensures
            exists|now: i64| c@ == issued(c.token@, request@, *arguments, ttl_ms, now),
            final(self).outstanding() == old(self).outstanding().insert(c.token@, c@),
    {
        let now = now_millis();
        let token = new_uuid_string();
        self.issue_at(request, arguments, ttl_ms, now, token)
    }

    /// Consumes the capability held under `token` at time `now`. It is removed before it is
    /// validated, so a capability is single-use even after a failed replay.
    pub fn consume_at(
        &mut self,
        token: &str,
        request: &ActionRequest,
        arguments: &JsonValue,
        now: i64,
    ) -> (r: Result<Capability, CapabilityError>)
        ensures
            final(self).outstanding() == old(self).outstanding().remove(token@),
            !old(self).outstanding().contains_key(token@) ==> r == Err::<
                Capability,
                CapabilityError,
            >(CapabilityError::NotFound),
            old(self).outstanding().contains_key(token@) ==> match consume_failure(
                old(self).outstanding()[token@],
                request@,
                *arguments,
                now,
            ) {
                Some(e) => r == Err::<Capability, CapabilityError>(e),
                None => r matches Ok(c) && c@ == old(self).outstanding()[token@],
            },
    {
        let found = match self.capabilities.get(token) {
            Some(c) => Some(c.clone()),
            None => None,
        };
        self.capabilities.remove(token);
        assert(final(self).outstanding() =~= old(self).outstanding().remove(token@));
        let capability = match found {
            Some(c) => c,
            None => {
                return Err(CapabilityError::NotFound);
            },
        };
        if now >= capability.expires_at {
            return Err(CapabilityError::Expired);
        }
        if !(capability.request_id == request.request_id) || !capability.subject.same_as(
            &request.subject,
        ) || !capability.action.same_as(&request.action) || !capability.resource.same_as(
            &request.resource,
        ) {
            return Err(CapabilityError::RequestMismatch);
        }
        if !(capability.arguments_hash == arguments_hash(arguments)) {
            return Err(CapabilityError::ArgumentsMismatch);
        }
        Ok(capability)
    }

    /// Consumes the capability held under `token` at the current time.
    pub fn consume(&mut self, token: &str, request: &ActionRequest, arguments: &JsonValue) -> (r:
        Result<Capability, CapabilityError>)
        ensures
            final(self).outstanding() == old(self).outstanding().remove(token@),
            !old(self).outstanding().contains_key(token@) ==> r == Err::<
                Capability,
                CapabilityError,
            >(CapabilityError::NotFound),
            r matches Ok(c) ==> c@ == old(self).outstanding()[token@] && c.request_id@
                == request@.request_id && c.subject@ == request@.subject && c.action@
                == request@.action && c.resource@ == request@.resource && c.arguments_hash@
                == arguments_hash_spec(*arguments),
            old(self).outstanding().contains_key(token@) ==> exists|now: i64| match #[trigger] consume_failure(
                old(self).outstanding()[token@],
                request@,
                *arguments,
                now,
            ) {
                Some(e) => r == Err::<Capability, CapabilityError>(e),
                None => r matches Ok(c) && c@ == old(self).outstanding()[token@],
            },
    {
        let now = now_millis();
        self.consume_at(token, request, arguments, now)
    }
}

impl Default for CapabilityBroker {
    fn default() -> (b: Self)
        ensures
            b.outstanding() == Map::<Seq<char>, CapabilityView>::empty(),
    {
        CapabilityBroker::new()
    }
}

/// A capability is single-use: whatever consuming it answered, its token is no longer held.
pub proof fn lemma_consumed_token_is_gone(
    before: Map<Seq<char>, CapabilityView>,
    after: Map<Seq<char>, CapabilityView>,
    token: Seq<char>,
)
    requires
        after == before.remove(token),
    ensures
        !after.contains_key(token),
{
}

/// A capability issued for a request and its arguments is accepted for exactly that request
/// and those arguments before it expires.
pub proof fn lemma_issued_capability_accepts_its_call(
    token: Seq<char>,
    request: ActionRequestView,
    arguments: JsonValue,
    ttl_ms: i64,
    issued_at: i64,
    now: i64,
)
    requires
        now < expiry(issued_at, ttl_ms),
    ensures
        consume_failure(issued(token, request, arguments, ttl_ms, issued_at), request, arguments, now)
            is None,
{
}

/// A capability is refused as expired, whatever request and arguments it is presented with,
/// at every time from the end of its time to live on: issued at `issued_at` with
/// `ttl_ms >= 0`, it expires `ttl_ms` later (held to the range of `i64`).
pub proof fn lemma_capability_expires_after_its_ttl(
    token: Seq<char>,
    request: ActionRequestView,
    arguments: JsonValue,
    ttl_ms: i64,
    issued_at: i64,
    presented: ActionRequestView,
    presented_arguments: JsonValue,
    now: i64,
)
    requires
        ttl_ms >= 0,
        now as int >= issued_at + ttl_ms,
    ensures
        consume_failure(issued(token, request, arguments, ttl_ms, issued_at), presented, presented_arguments, now)
            == Some(CapabilityError::Expired),
{
}

/// Security enforcement facade used by an LLM/MCP request path.
/// It produces an audit event for every decision and only issues a capability after ALLOW.
pub struct SecurityGateway<S> {
    policies: Vec<Policy>,
    audit: S,
    capabilities: CapabilityBroker,
}

impl<S: AuditSink> SecurityGateway<S> {
    pub closed spec fn policies(&self) -> Seq<Policy> {
        self.policies@
    }

    pub closed spec fn audit_sink(&self) -> S {
        self.audit
    }

    pub closed spec fn outstanding(&self) -> Map<Seq<char>, CapabilityView> {
        self.capabilities.outstanding()
    }

    pub fn new(policies: Vec<Policy>, audit: S) -> (g: Self)
        ensures
            g.policies() == policies@,
            g.audit_sink() == audit,
            g.outstanding() == Map::<Seq<char>, CapabilityView>::empty(),
    {
        SecurityGateway { policies, audit, capabilities: CapabilityBroker::new() }
    }

    /// The audit sink this gateway records to.
    pub fn audit(&self) -> (s: &S)
        ensures
            *s == self.audit_sink(),
    {
        &self.audit
    }

    /// Decides `request` and records the decision as event `event_id` at time `now`.
    pub fn authorize_at(&mut self, request: &ActionRequest, now: i64, event_id: String) -> (d:
        Decision)
        ensures
            d@ == decide_spec(old(self).policies(), request@),
            final(self).policies() == old(self).policies(),
            final(self).outstanding() == old(self).outstanding(),
            exists|e| #[trigger]
                old(self).audit_sink().records(&final(self).audit_sink(), e) && event_records(
                    e,
                    request@,
                    d@,
                ) && e.event_id == event_id@ && e.timestamp == now,
    {
        let decision = decide(self.policies.as_slice(), request);
        let event = event_from_decision_at(event_id, request, &decision, now);
        let ghost ev = event@;
        self.audit.record(event);
        assert(old(self).audit_sink().records(&final(self).audit_sink(), ev));
        decision
    }

    /// Decides `request` and records the decision.
    pub fn authorize(&mut self, request: &ActionRequest) -> (d: Decision)
        ensures
            d@ == decide_spec(old(self).policies(), request@),
            final(self).policies() == old(self).policies(),
            final(self).outstanding() == old(self).outstanding(),
            exists|e| #[trigger]
                old(self).audit_sink().records(&final(self).audit_sink(), e) && event_records(
                    e,
                    request@,
                    d@,
                ),
    {
        let now = now_millis();
        let event_id = new_uuid_string();
        self.authorize_at(request, now, event_id)
    }

    /// Authorizes a Tool call at time `now`; on ALLOW issues a capability under `token`
    /// bound to the request and its arguments.
    pub fn authorize_tool_at(
        &mut self,
        request: &ActionRequest,
        arguments: &JsonValue,
        ttl_ms: i64,
        now: i64,
        event_id: String,
        token: String,
    ) -> (r: Result<Capability, GatewayError>)
        ensures
            final(self).policies() == old(self).policies(),
            exists|e| #[trigger]
                old(self).audit_sink().records(&final(self).audit_sink(), e) && event_records(
                    e,
                    request@,
                    decide_spec(old(self).policies(), request@),
                ),
            decide_spec(old(self).policies(), request@).effect == DecisionEffect::Deny ==> {
                &&& r matches Err(GatewayError::Denied(d)) && d@ == decide_spec(
                    old(self).policies(),
                    request@,
                )
                &&& final(self).outstanding() == old(self).outstanding()
            },
            decide_spec(old(self).policies(), request@).effect == DecisionEffect::Allow ==> {
                &&& r matches Ok(c) && c@ == issued(token@, request@, *arguments, ttl_ms, now)
                    && final(self).outstanding() == old(self).outstanding().insert(token@, c@)
            },
    {
        let decision = self.authorize_at(request, now, event_id);
        let ghost mid_audit = self.audit;
        let ghost e = choose|e| #[trigger]
            old(self).audit_sink().records(&mid_audit, e) && event_records(e, request@, decision@);
        if decision.effect == DecisionEffect::Deny {
            return Err(GatewayError::Denied(decision));
        }
        let c = self.capabilities.issue_at(request, arguments, ttl_ms, now, token);
        assert(old(self).audit_sink().records(&final(self).audit_sink(), e));
        Ok(c)
    }

    /// Authorizes a Tool call and records the decision; on ALLOW issues a capability under a
    /// random v4 UUID token, bound to the request and its arguments.
    pub fn authorize_tool(&mut self, request: &ActionRequest, arguments: &JsonValue, ttl_ms: i64) -> (r:
        Result<Capability, GatewayError>)
        ensures
            final(self).policies() == old(self).policies(),
            exists|e| #[trigger]
                old(self).audit_sink().records(&final(self).audit_sink(), e) && event_records(
                    e,
                    request@,
                    decide_spec(old(self).policies(), request@),
                ),
            decide_spec(old(self).policies(), request@).effect == DecisionEffect::Deny ==> (r matches Err(
                GatewayError::Denied(d),
            ) && d@ == decide_spec(old(self).policies(), request@) && final(self).outstanding()
                == old(self).outstanding()),
            decide_spec(old(self).policies(), request@).effect == DecisionEffect::Allow ==> (r matches Ok(
                c,
            ) && final(self).outstanding() == old(self).outstanding().insert(c.token@, c@)
                && exists|now: i64| c@ == issued(c.token@, request@, *arguments, ttl_ms, now)),
    {
        let now = now_millis();
        let event_id = new_uuid_string();
        let token = new_uuid_string();
        self.authorize_tool_at(request, arguments, ttl_ms, now, event_id, token)
    }

    /// Consumes a Tool capability at time `now`.
    pub fn consume_tool_capability_at(
        &mut self,
        token: &str,
        request: &ActionRequest,
        arguments: &JsonValue,
        now: i64,
    ) -> (r: Result<Capability, GatewayError>)
        ensures
            final(self).policies() == old(self).policies(),
            final(self).audit_sink() == old(self).audit_sink(),
            final(self).outstanding() == old(self).outstanding().remove(token@),
            !old(self).outstanding().contains_key(token@) ==> r == Err::<Capability, GatewayError>(
                GatewayError::Capability(CapabilityError::NotFound),
            ),
            old(self).outstanding().contains_key(token@) ==> match consume_failure(
                old(self).outstanding()[token@],
                request@,
                *arguments,
                now,
            ) {
                Some(e) => r == Err::<Capability, GatewayError>(GatewayError::Capability(e)),
                None => r matches Ok(c) && c@ == old(self).outstanding()[token@],
            },
    {
        match self.capabilities.consume_at(token, request, arguments, now) {
            Ok(c) => Ok(c),
            Err(e) => Err(GatewayError::Capability(e)),
        }
    }

    /// Consumes a Tool capability at the current time.
    pub fn consume_tool_capability(&mut self, token: &str, request: &ActionRequest, arguments: &JsonValue) -> (r:
        Result<Capability, GatewayError>)
        ensures
            final(self).policies() == old(self).policies(),
            final(self).audit_sink() == old(self).audit_sink(),
            final(self).outstanding() == old(self).outstanding().remove(token@),
            !old(self).outstanding().contains_key(token@) ==> r == Err::<Capability, GatewayError>(
                GatewayError::Capability(CapabilityError::NotFound),
            ),
            r matches Ok(c) ==> c@ == old(self).outstanding()[token@] && c.request_id@
                == request@.request_id && c.subject@ == request@.subject && c.action@
                == request@.action && c.resource@ == request@.resource && c.arguments_hash@
                == arguments_hash_spec(*arguments),
            old(self).outstanding().contains_key(token@) ==> exists|now: i64| match #[trigger] consume_failure(
                old(self).outstanding()[token@],
                request@,
                *arguments,
                now,
            ) {
                Some(e) => r == Err::<Capability, GatewayError>(GatewayError::Capability(e)),
                None => r matches Ok(c) && c@ == old(self).outstanding()[token@],
            },
    {
        let now = now_millis();
        self.consume_tool_capability_at(token, request, arguments, now)
    }
}

} // verus!
