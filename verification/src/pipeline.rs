//! Ordered, composable security enforcement for one normalized gateway request.
//!
//! Identity controls run first, authorization is mandatory and independent, then action
//! controls run. Capability issuance is opt-in. Every outcome is sent to the audit sink.
use vstd::prelude::*;

use crate::adapter::{
    issued, consume_failure, Capability, CapabilityBroker, CapabilityError, CapabilityView,
};
use crate::audit::{event_from_decision_at, event_records, AuditSink};
use crate::contracts::{
    opt_view, ActionRequest, ActionRequestView, ActionType, Decision, DecisionEffect,
    DecisionView, ResourceType,
};
use crate::engine::{decide, decide_spec};
use crate::ext::{new_uuid_string, now_millis};
use crate::json::{json_has_value, JsonValue};
use crate::policy::Policy;
use crate::text::{cat, cat3, join, join_strings, views};

verus! {

/// A normalized authorization decision provider. It can be backed by local policies, an
/// external PDP, or a signed policy cache without changing the pipeline.
pub trait Authorizer {
    /// The decision this authorizer gives a request.
    spec fn decision_for(&self, request: ActionRequestView) -> DecisionView;

    fn decide(&self, request: &ActionRequest) -> (d: Decision)
        ensures
            d@ == self.decision_for(request@),
    ;
}

/// The default authorizer: local policy evaluation with deny-by-default semantics.
pub struct PolicyAuthorizer {
    policies: Vec<Policy>,
}

impl PolicyAuthorizer {
    pub closed spec fn policies(&self) -> Seq<Policy> {
        self.policies@
    }

    pub fn new(policies: Vec<Policy>) -> (a: Self)
        ensures
            a.policies() == policies@,
    {
        PolicyAuthorizer { policies }
    }
}

impl Authorizer for PolicyAuthorizer {
    open spec fn decision_for(&self, request: ActionRequestView) -> DecisionView {
        decide_spec(self.policies(), request)
    }

    fn decide(&self, request: &ActionRequest) -> (d: Decision) {
        decide(self.policies.as_slice(), request)
    }
}

/// Why a security control refused a request.
#[derive(Debug, PartialEq, Eq)]
pub struct ControlDenial {
    pub control_id: String,
    pub reason: String,
}

/// The arguments a control sees, by value.
pub open spec fn args_view(arguments: Option<&JsonValue>) -> Option<JsonValue> {
    match arguments {
        Some(a) => Some(*a),
        None => None,
    }
}

/// A composable policy-enforcement stage. Controls are deterministic: they operate on
/// normalized identity, action, resource, optional Tool arguments and the time of the check.
pub trait SecurityControl {
    spec fn control_id(&self) -> Seq<char>;

    /// The reason this control refuses a request at time `now`, if it does.
    spec fn refusal(&self, request: ActionRequestView, arguments: Option<JsonValue>, now: i64) -> Option<
        Seq<char>,
    >;

    fn id(&self) -> (r: &str)
        ensures
            r@ == self.control_id(),
    ;

    /// Checks a request as of time `now` (milliseconds since the UNIX epoch).
    fn check_at(&self, request: &ActionRequest, arguments: Option<&JsonValue>, now: i64) -> (r:
        Result<(), ControlDenial>)
        ensures
            match self.refusal(request@, args_view(arguments), now) {
                None => r is Ok,
                Some(reason) => r matches Err(d) && d.control_id@ == self.control_id()
                    && d.reason@ == reason,
            },
    ;

    /// Checks a request as of the current time.
    fn check(&self, request: &ActionRequest, arguments: Option<&JsonValue>) -> (r: Result<
        (),
        ControlDenial,
    >)
        ensures
            exists|now: i64|
                match #[trigger] self.refusal(request@, args_view(arguments), now) {
                    None => r is Ok,
                    Some(reason) => r matches Err(d) && d.control_id@ == self.control_id()
                        && d.reason@ == reason,
                },
    {
        let now = now_millis();
        self.check_at(request, arguments, now)
    }
}

fn denial(control_id: &str, reason: String) -> (d: ControlDenial)
    ensures
        d.control_id@ == control_id@,
        d.reason@ == reason@,
{
    ControlDenial { control_id: control_id.to_owned(), reason }
}

/// Whether a request is a call of the Tool `tool_name`.
pub open spec fn calls_tool(request: ActionRequestView, tool_name: Seq<char>) -> bool {
    request.action.action_type == ActionType::ToolInvoke && request.action.name == tool_name
}

fn is_tool_call(request: &ActionRequest, tool_name: &String) -> (b: bool)
    ensures
        b == calls_tool(request@, tool_name@),
{
    request.action.action_type == ActionType::ToolInvoke && request.action.name == *tool_name
}

// ---------------------------------------------------------------------------------------------
// Required identity
// ---------------------------------------------------------------------------------------------
/// Ensures that the AI request retains the identities required by the deployment.
#[derive(Debug, Clone, Copy, PartialEq, Eq, Structural)]
pub struct RequiredIdentity {
    pub user: bool,
    pub agent: bool,
    pub tenant: bool,
}

/// The names of the required identity attributes a request lacks, in a fixed order.
pub open spec fn missing_identity(c: RequiredIdentity, r: ActionRequestView) -> Seq<Seq<char>> {
    (if c.user && r.subject.user_id is None { seq!["userId"@] } else { Seq::empty() }) + (if c.agent
        && r.subject.agent_id is None {
        seq!["agentId"@]
    } else {
        Seq::empty()
    }) + (if c.tenant && r.subject.tenant_id is None { seq!["tenantId"@] } else { Seq::empty() })
}

impl RequiredIdentity {
    pub fn user_agent_tenant() -> (r: Self)
        ensures
            r == (RequiredIdentity { user: true, agent: true, tenant: true }),
    {
        RequiredIdentity { user: true, agent: true, tenant: true }
    }
}

impl SecurityControl for RequiredIdentity {
    open spec fn control_id(&self) -> Seq<char> {
        "required-identity"@
    }

    open spec fn refusal(&self, request: ActionRequestView, arguments: Option<JsonValue>, now: i64) -> Option<
        Seq<char>,
    > {
        let missing = missing_identity(*self, request);
        if missing.len() == 0 {
            None
        } else {
            Some("missing required identity attributes: "@ + join(missing, ", "@))
        }
    }

    fn id(&self) -> (r: &str) {
        "required-identity"
    }

    fn check_at(&self, request: &ActionRequest, arguments: Option<&JsonValue>, now: i64) -> (r:
        Result<(), ControlDenial>) {
        let mut missing: Vec<String> = Vec::new();
        if self.user && request.subject.user_id.is_none() {
            missing.push("userId".to_owned());
        }
        if self.agent && request.subject.agent_id.is_none() {
            missing.push("agentId".to_owned());
        }
        if self.tenant && request.subject.tenant_id.is_none() {
            missing.push("tenantId".to_owned());
        }
        assert(views(missing@) =~= missing_identity(*self, request@));
        if missing.len() == 0 {
            Ok(())
        } else {
            let list = join_strings(&missing, ", ");
            Err(denial(self.id(), cat("missing required identity attributes: ", list.as_str())))
        }
    }
}

// ---------------------------------------------------------------------------------------------
// Agent delegation
// ---------------------------------------------------------------------------------------------
/// One permitted operation inside a delegation grant. Omitted match fields are wildcards;
/// a grant still needs at least one scope to permit anything.
#[derive(Debug, Default, PartialEq, Eq)]
pub struct DelegationScope {
    pub action_type: Option<ActionType>,
    pub action_name: Option<String>,
    pub resource_id: Option<String>,
    pub resource_type: Option<ResourceType>,
}

pub struct DelegationScopeView {
    pub action_type: Option<ActionType>,
    pub action_name: Option<Seq<char>>,
    pub resource_id: Option<Seq<char>>,
    pub resource_type: Option<ResourceType>,
}

impl View for DelegationScope {
    type V = DelegationScopeView;

    open spec fn view(&self) -> DelegationScopeView {
        DelegationScopeView {
            action_type: self.action_type,
            action_name: opt_view(self.action_name),
            resource_id: opt_view(self.resource_id),
            resource_type: self.resource_type,
        }
    }
}

pub open spec fn scope_matches(s: DelegationScopeView, r: ActionRequestView) -> bool {
    &&& (s.action_type is None || s.action_type == Some(r.action.action_type))
    &&& (s.action_name is None || s.action_name == Some(r.action.name))
    &&& (s.resource_id is None || s.resource_id == Some(r.resource.id))
    &&& (s.resource_type is None || s.resource_type == Some(r.resource.resource_type))
}

impl DelegationScope {
    fn matches(&self, request: &ActionRequest) -> (b: bool)
        ensures
            b == scope_matches(self@, request@),
    {
        let type_ok = match self.action_type {
            Some(t) => t == request.action.action_type,
            None => true,
        };
        let name_ok = match &self.action_name {
            Some(n) => *n == request.action.name,
            None => true,
        };
        let id_ok = match &self.resource_id {
            Some(id) => *id == request.resource.id,
            None => true,
        };
        let rtype_ok = match self.resource_type {
            Some(t) => t == request.resource.resource_type,
            None => true,
        };
        type_ok && name_ok && id_ok && rtype_ok
    }

    fn copy(&self) -> (r: Self)
        ensures
            r == *self,
    {
        DelegationScope {
            action_type: self.action_type,
            action_name: crate::contracts::clone_opt_string(&self.action_name),
            resource_id: crate::contracts::clone_opt_string(&self.resource_id),
            resource_type: self.resource_type,
        }
    }
}

/// A direct, user-to-Agent delegation grant. Its identifier must be present in verified
/// request identity, so a caller cannot select a broader configured grant by itself.
/// `not_before` and `expires_at` are in milliseconds since the UNIX epoch.
#[derive(Debug, PartialEq, Eq)]
pub struct AgentDelegationConfig {
    pub id: String,
    pub user_id: String,
    pub agent_id: String,
    pub tenant_id: Option<String>,
    /// An empty list grants no operations.
    pub scopes: Vec<DelegationScope>,
    pub not_before: Option<i64>,
    pub expires_at: Option<i64>,
}

pub struct AgentDelegationView {
    pub id: Seq<char>,
    pub user_id: Seq<char>,
    pub agent_id: Seq<char>,
    pub tenant_id: Option<Seq<char>>,
    pub scopes: Seq<DelegationScopeView>,
    pub not_before: Option<i64>,
    pub expires_at: Option<i64>,
}

impl View for AgentDelegationConfig {
    type V = AgentDelegationView;

    open spec fn view(&self) -> AgentDelegationView {
        AgentDelegationView {
            id: self.id@,
            user_id: self.user_id@,
            agent_id: self.agent_id@,
            tenant_id: opt_view(self.tenant_id),
            scopes: self.scopes@.map_values(|s: DelegationScope| s@),
            not_before: self.not_before,
            expires_at: self.expires_at,
        }
    }
}

impl Clone for AgentDelegationConfig {
    fn clone(&self) -> (r: Self)
        ensures
            r@ == self@,
    {
        let mut scopes: Vec<DelegationScope> = Vec::new();
        let mut i: usize = 0;
        while i < self.scopes.len()
            invariant
                i <= self.scopes@.len(),
                scopes@ == self.scopes@.take(i as int),
            decreases self.scopes@.len() - i,
        {
            scopes.push(self.scopes[i].copy());
            assert(scopes@ =~= self.scopes@.take(i + 1));
            i += 1;
        }
        assert(scopes@ =~= self.scopes@);
        let r = AgentDelegationConfig {
            id: self.id.clone(),
            user_id: self.user_id.clone(),
            agent_id: self.agent_id.clone(),
            tenant_id: crate::contracts::clone_opt_string(&self.tenant_id),
            scopes,
            not_before: self.not_before,
            expires_at: self.expires_at,
        };
        assert(r@.scopes =~= self@.scopes);
        r
    }
}

/// An optional identity, with the empty string for an absent one.
pub open spec fn or_empty(o: Option<Seq<char>>) -> Seq<char> {
    match o {
        Some(s) => s,
        None => Seq::empty(),
    }
}

/// A grant permits a request at time `now`.
pub open spec fn grant_permits(g: AgentDelegationView, r: ActionRequestView, now: i64) -> bool {
    &&& g.id == or_empty(r.subject.delegation_id)
    &&& g.user_id == or_empty(r.subject.user_id)
    &&& g.agent_id == or_empty(r.subject.agent_id)
    &&& (g.tenant_id is None || r.subject.tenant_id == g.tenant_id)
    &&& (g.not_before matches Some(t) ==> now >= t)
    &&& (g.expires_at matches Some(t) ==> now < t)
    &&& exists|i: int| 0 <= i < g.scopes.len() && scope_matches(#[trigger] g.scopes[i], r)
}

fn opt_or_empty_eq(value: &String, o: &Option<String>) -> (b: bool)
    ensures
        b == (value@ == or_empty(opt_view(*o))),
{
    match o {
        Some(s) => {
            let b = *value == *s;
            assert(opt_view(*o) == Some(s@));
            b
        },
        None => {
            let b = value.unicode_len() == 0;
            assert(b ==> value@ =~= Seq::<char>::empty());
            b
        },
    }
}

/// Validates a direct delegation from the authenticated user to the authenticated Agent.
/// Authorization remains a separate mandatory stage: a delegation only narrows the
/// operations an already-authorized Agent may perform for that user.
#[derive(Debug)]
pub struct AgentDelegation {
    delegations: Vec<AgentDelegationConfig>,
}

impl AgentDelegation {
    pub closed spec fn grants(&self) -> Seq<AgentDelegationView> {
        self.delegations@.map_values(|g: AgentDelegationConfig| g@)
    }

    pub fn new(delegations: Vec<AgentDelegationConfig>) -> (d: Self)
        ensures
            d.grants() == delegations@.map_values(|g: AgentDelegationConfig| g@),
    {
        AgentDelegation { delegations }
    }

    fn matches_grant(grant: &AgentDelegationConfig, request: &ActionRequest, now: i64) -> (b: bool)
        ensures
            b == grant_permits(grant@, request@, now),
    {
        let subject = &request.subject;
        if !opt_or_empty_eq(&grant.id, &subject.delegation_id) {
            return false;
        }
        if !opt_or_empty_eq(&grant.user_id, &subject.user_id) {
            return false;
        }
        if !opt_or_empty_eq(&grant.agent_id, &subject.agent_id) {
            return false;
        }
        match &grant.tenant_id {
            Some(t) => {
                if !crate::contracts::opt_string_is(&subject.tenant_id, t) {
                    return false;
                }
            },
            None => {},
        }
        match grant.not_before {
            Some(t) => {
                if now < t {
                    return false;
                }
            },
            None => {},
        }
        match grant.expires_at {
            Some(t) => {
                if now >= t {
                    return false;
                }
            },
            None => {},
        }
        let any = any_scope_matches(&grant.scopes, request);
        assert(any == exists|i: int|
            0 <= i < grant@.scopes.len() && scope_matches(#[trigger] grant@.scopes[i], request@)) by {
            if any {
                let i = choose|i: int|
                    0 <= i < grant.scopes@.len() && scope_matches(#[trigger] grant.scopes@[i]@, request@);
                assert(grant@.scopes[i] == grant.scopes@[i]@);
            }
            if exists|i: int|
                0 <= i < grant@.scopes.len() && scope_matches(#[trigger] grant@.scopes[i], request@) {
                let i = choose|i: int|
                    0 <= i < grant@.scopes.len() && scope_matches(#[trigger] grant@.scopes[i], request@);
                assert(grant@.scopes[i] == grant.scopes@[i]@);
            }
        }
        any
    }
}

fn any_scope_matches(scopes: &Vec<DelegationScope>, request: &ActionRequest) -> (b: bool)
    ensures
        b == exists|i: int| 0 <= i < scopes@.len() && scope_matches(#[trigger] scopes@[i]@, request@),
{
    let mut i: usize = 0;
    while i < scopes.len()
        invariant
            i <= scopes@.len(),
            forall|j: int| 0 <= j < i ==> !scope_matches(#[trigger] scopes@[j]@, request@),
        decreases scopes@.len() - i,
    {
        if scopes[i].matches(request) {
            assert(scope_matches(scopes@[i as int]@, request@));
            return true;
        }
        i += 1;
    }
    false
}

/// The reason an Agent delegation control refuses a request at `now`, if it does.
pub open spec fn delegation_refusal(
    grants: Seq<AgentDelegationView>,
    r: ActionRequestView,
    now: i64,
) -> Option<Seq<char>> {
    if r.subject.agent_id is None {
        None
    } else if r.subject.user_id is None {
        Some("an Agent action requires a delegating user identity"@)
    } else if r.subject.delegation_id is None {
        Some("an Agent action requires a verified delegationId"@)
    } else if exists|i: int| 0 <= i < grants.len() && grant_permits(#[trigger] grants[i], r, now) {
        None
    } else {
        Some("no active delegation grant permits this Agent operation"@)
    }
}

/// An Agent request with a user and a delegation id is refused once every grant under that
/// id has expired: a grant lets nothing through from its `expires_at` on.
pub proof fn lemma_expired_grants_permit_nothing(grants: Seq<AgentDelegationView>, r: ActionRequestView, now: i64)
    requires
        r.subject.agent_id is Some,
        r.subject.user_id is Some,
        r.subject.delegation_id is Some,
        forall|i: int|
            0 <= i < grants.len() && #[trigger] grants[i].id == r.subject.delegation_id->0 ==> (
            grants[i].expires_at matches Some(e) && now >= e),
    ensures
        delegation_refusal(grants, r, now) == Some("no active delegation grant permits this Agent operation"@),
{
    assert forall|i: int| 0 <= i < grants.len() implies !grant_permits(#[trigger] grants[i], r, now) by {
        if grants[i].id == r.subject.delegation_id->0 {
        }
    }
}

impl SecurityControl for AgentDelegation {
    open spec fn control_id(&self) -> Seq<char> {
        "agent-delegation"@
    }

    open spec fn refusal(&self, request: ActionRequestView, arguments: Option<JsonValue>, now: i64) -> Option<
        Seq<char>,
    > {
        delegation_refusal(self.grants(), request, now)
    }

    fn id(&self) -> (r: &str) {
        "agent-delegation"
    }

    fn check_at(&self, request: &ActionRequest, arguments: Option<&JsonValue>, now: i64) -> (r:
        Result<(), ControlDenial>) {
        if request.subject.agent_id.is_none() {
            return Ok(());
        }
        if request.subject.user_id.is_none() {
            return Err(
                denial(self.id(), "an Agent action requires a delegating user identity".to_owned()),
            );
        }
        if request.subject.delegation_id.is_none() {
            return Err(
                denial(self.id(), "an Agent action requires a verified delegationId".to_owned()),
            );
        }
        let mut i: usize = 0;
        while i < self.delegations.len()
            invariant
                request.subject.agent_id is Some,
                request.subject.user_id is Some,
                request.subject.delegation_id is Some,
                i <= self.delegations@.len(),
                forall|j: int|
                    0 <= j < i ==> !grant_permits(#[trigger] self.delegations@[j]@, request@, now),
            decreases self.delegations@.len() - i,
        {
            if Self::matches_grant(&self.delegations[i], request, now) {
                assert(grant_permits(self.delegations@[i as int]@, request@, now));
                assert(self.grants()[i as int] == self.delegations@[i as int]@);
                return Ok(());
            }
            i += 1;
        }
        assert forall|j: int| 0 <= j < self.grants().len() implies !grant_permits(
            #[trigger] self.grants()[j],
            request@,
            now,
        ) by {
            assert(self.grants()[j] == self.delegations@[j]@);
        }
        Err(
            denial(
                self.id(),
                "no active delegation grant permits this Agent operation".to_owned(),
            ),
        )
    }
}

// ---------------------------------------------------------------------------------------------
// Required Tool arguments
// ---------------------------------------------------------------------------------------------
/// The required fields that an argument object lacks (absent or `null`), in order.
pub open spec fn missing_fields(fields: Seq<Seq<char>>, arguments: JsonValue) -> Seq<Seq<char>>
    decreases fields.len(),
{
    if fields.len() == 0 {
        Seq::empty()
    } else {
        let rest = missing_fields(fields.drop_last(), arguments);
        if json_has_value(arguments, fields.last()) {
            rest
        } else {
            rest.push(fields.last())
        }
    }
}

/// Requires named arguments for a particular Tool.
#[derive(Debug, PartialEq, Eq)]
pub struct RequiredToolArguments {
    tool_name: String,
    required_fields: Vec<String>,
}

impl RequiredToolArguments {
    pub closed spec fn tool(&self) -> Seq<char> {
        self.tool_name@
    }

    pub closed spec fn fields(&self) -> Seq<Seq<char>> {
        views(self.required_fields@)
    }

    pub fn new(tool_name: &str, required_fields: Vec<String>) -> (c: Self)
        ensures
            c.tool() == tool_name@,
            c.fields() == views(required_fields@),
    {
        RequiredToolArguments { tool_name: tool_name.to_owned(), required_fields }
    }
}

/// The reason a required-arguments control for `tool` refuses a request, if it does.
pub open spec fn arguments_refusal(
    tool: Seq<char>,
    fields: Seq<Seq<char>>,
    r: ActionRequestView,
    arguments: Option<JsonValue>,
) -> Option<Seq<char>> {
    if !calls_tool(r, tool) {
        None
    } else if !(arguments matches Some(a) && a is Object) {
        Some("tool '"@ + tool + "' requires an object argument payload"@)
    } else {
        let missing = missing_fields(fields, arguments.unwrap());
        if missing.len() == 0 {
            None
        } else {
            Some("tool '"@ + tool + "' is missing required arguments: "@ + join(missing, ", "@))
        }
    }
}

impl SecurityControl for RequiredToolArguments {
    open spec fn control_id(&self) -> Seq<char> {
        "required-tool-arguments"@
    }

    open spec fn refusal(&self, request: ActionRequestView, arguments: Option<JsonValue>, now: i64) -> Option<
        Seq<char>,
    > {
        arguments_refusal(self.tool(), self.fields(), request, arguments)
    }

    fn id(&self) -> (r: &str) {
        "required-tool-arguments"
    }

    fn check_at(&self, request: &ActionRequest, arguments: Option<&JsonValue>, now: i64) -> (r:
        Result<(), ControlDenial>) {
        if !is_tool_call(request, &self.tool_name) {
            return Ok(());
        }
        let args = match arguments {
            Some(a) => {
                if !a.is_object() {
                    return Err(
                        denial(
                            self.id(),
                            cat3("tool '", self.tool_name.as_str(), "' requires an object argument payload"),
                        ),
                    );
                }
                a
            },
            None => {
                return Err(
                    denial(
                        self.id(),
                        cat3("tool '", self.tool_name.as_str(), "' requires an object argument payload"),
                    ),
                );
            },
        };
        let mut missing: Vec<String> = Vec::new();
        let mut i: usize = 0;
        while i < self.required_fields.len()
            invariant
                i <= self.required_fields@.len(),
                views(missing@) == missing_fields(views(self.required_fields@).take(i as int), *args),
            decreases self.required_fields@.len() - i,
        {
            assert(views(self.required_fields@).take(i + 1).drop_last() == views(
                self.required_fields@,
            ).take(i as int));
            assert(views(self.required_fields@).take(i + 1).last() == self.required_fields@[i as int]@);
            let field = &self.required_fields[i];
            if !args.has_value(field) {
                let ghost before = missing@;
                missing.push(field.clone());
                assert(views(missing@) =~= views(before).push(field@));
            }
            i += 1;
        }
        assert(views(self.required_fields@).take(self.required_fields@.len() as int) == views(
            self.required_fields@,
        ));
        if missing.len() == 0 {
            Ok(())
        } else {
            let head = cat3("tool '", self.tool_name.as_str(), "' is missing required arguments: ");
            let list = join_strings(&missing, ", ");
            Err(denial(self.id(), cat(head.as_str(), list.as_str())))
        }
    }
}


// ---------------------------------------------------------------------------------------------
// High-risk Tool gates
// ---------------------------------------------------------------------------------------------
/// A high-risk Tool gate used when the deployment has not yet connected an approval authority.
///
/// This is intentionally fail-closed: declaring a Tool as high risk must never silently grant
/// permission merely because an approval integration is absent.
#[derive(Debug, PartialEq, Eq)]
pub struct RequiredToolApproval {
    tool_name: String,
}

impl RequiredToolApproval {
    pub closed spec fn tool(&self) -> Seq<char> {
        self.tool_name@
    }

    pub fn new(tool_name: &str) -> (c: Self)
        ensures
            c.tool() == tool_name@,
    {
        RequiredToolApproval { tool_name: tool_name.to_owned() }
    }
}

impl SecurityControl for RequiredToolApproval {
    open spec fn control_id(&self) -> Seq<char> {
        "required-tool-approval"@
    }

    open spec fn refusal(&self, request: ActionRequestView, arguments: Option<JsonValue>, now: i64) -> Option<
        Seq<char>,
    > {
        if calls_tool(request, self.tool()) {
            Some("high-risk tool '"@ + self.tool() + "' requires an external approval grant"@)
        } else {
            None
        }
    }

    fn id(&self) -> (r: &str) {
        "required-tool-approval"
    }

    fn check_at(&self, request: &ActionRequest, arguments: Option<&JsonValue>, now: i64) -> (r:
        Result<(), ControlDenial>) {
        if !is_tool_call(request, &self.tool_name) {
            return Ok(());
        }
        Err(
            denial(
                self.id(),
                cat3("high-risk tool '", self.tool_name.as_str(), "' requires an external approval grant"),
            ),
        )
    }
}

/// External approval is another replaceable brick: an implementation may call a human
/// workflow, a vehicle interlock, or a business transaction service.
pub trait ApprovalProvider {
    /// Whether this provider approves a Tool call with these arguments.
    spec fn approves(&self, request: ActionRequestView, arguments: JsonValue) -> bool;

    fn approved(&self, request: &ActionRequest, arguments: &JsonValue) -> (b: bool)
        ensures
            b == self.approves(request@, *arguments),
    ;
}

/// An approval provider with a fixed answer.
#[derive(Debug, Clone, Copy, PartialEq, Eq)]
pub struct StaticApproval(pub bool);

impl ApprovalProvider for StaticApproval {
    open spec fn approves(&self, request: ActionRequestView, arguments: JsonValue) -> bool {
        self.0
    }

    fn approved(&self, request: &ActionRequest, arguments: &JsonValue) -> (b: bool) {
        self.0
    }
}

impl ApprovalProvider for Box<dyn ApprovalProvider> {
    open spec fn approves(&self, request: ActionRequestView, arguments: JsonValue) -> bool {
        (**self).approves(request, arguments)
    }

    fn approved(&self, request: &ActionRequest, arguments: &JsonValue) -> (b: bool) {
        (**self).approved(request, arguments)
    }
}

/// Gates a Tool on an approval provider.
pub struct ToolApproval<P> {
    tool_name: String,
    provider: P,
}

impl<P> ToolApproval<P> {
    pub closed spec fn tool(&self) -> Seq<char> {
        self.tool_name@
    }

    pub closed spec fn provider(&self) -> P {
        self.provider
    }

    pub fn new(tool_name: &str, provider: P) -> (c: Self)
        ensures
            c.tool() == tool_name@,
            c.provider() == provider,
    {
        ToolApproval { tool_name: tool_name.to_owned(), provider }
    }
}

impl<P: ApprovalProvider> SecurityControl for ToolApproval<P> {
    open spec fn control_id(&self) -> Seq<char> {
        "tool-approval"@
    }

    open spec fn refusal(&self, request: ActionRequestView, arguments: Option<JsonValue>, now: i64) -> Option<
        Seq<char>,
    > {
        if !calls_tool(request, self.tool()) {
            None
        } else {
            match arguments {
                None => Some("tool '"@ + self.tool() + "' requires approval arguments"@),
                Some(a) => if self.provider().approves(request, a) {
                    None
                } else {
                    Some("tool '"@ + self.tool() + "' was not approved"@)
                },
            }
        }
    }

    fn id(&self) -> (r: &str) {
        "tool-approval"
    }

    fn check_at(&self, request: &ActionRequest, arguments: Option<&JsonValue>, now: i64) -> (r:
        Result<(), ControlDenial>) {
        if !is_tool_call(request, &self.tool_name) {
            return Ok(());
        }
        match arguments {
            None => Err(
                denial(self.id(), cat3("tool '", self.tool_name.as_str(), "' requires approval arguments")),
            ),
            Some(a) => {
                if self.provider.approved(request, a) {
                    Ok(())
                } else {
                    Err(denial(self.id(), cat3("tool '", self.tool_name.as_str(), "' was not approved")))
                }
            },
        }
    }
}

// ---------------------------------------------------------------------------------------------
// Controls held by a pipeline
// ---------------------------------------------------------------------------------------------
/// A stage of a pipeline: one of the built-in bricks, or a control of the deployment's own.
pub enum Control {
    RequiredIdentity(RequiredIdentity),
    AgentDelegation(AgentDelegation),
    RequiredToolArguments(RequiredToolArguments),
    RequiredToolApproval(RequiredToolApproval),
    ToolApproval(ToolApproval<Box<dyn ApprovalProvider>>),
    Custom(Box<dyn SecurityControl>),
}

pub open spec fn control_id_of(c: Control) -> Seq<char> {
    match c {
        Control::RequiredIdentity(x) => x.control_id(),
        Control::AgentDelegation(x) => x.control_id(),
        Control::RequiredToolArguments(x) => x.control_id(),
        Control::RequiredToolApproval(x) => x.control_id(),
        Control::ToolApproval(x) => x.control_id(),
        Control::Custom(x) => x.control_id(),
    }
}

pub open spec fn refusal_of(
    c: Control,
    request: ActionRequestView,
    arguments: Option<JsonValue>,
    now: i64,
) -> Option<Seq<char>> {
    match c {
        Control::RequiredIdentity(x) => x.refusal(request, arguments, now),
        Control::AgentDelegation(x) => x.refusal(request, arguments, now),
        Control::RequiredToolArguments(x) => x.refusal(request, arguments, now),
        Control::RequiredToolApproval(x) => x.refusal(request, arguments, now),
        Control::ToolApproval(x) => x.refusal(request, arguments, now),
        Control::Custom(x) => x.refusal(request, arguments, now),
    }
}

impl Control {
    /// Wraps a control of the deployment's own.
    pub fn custom<C: SecurityControl + 'static>(control: C) -> (c: Control)
        ensures
            c is Custom,
    {
        let b: Box<dyn SecurityControl> = Box::new(control);
        Control::Custom(b)
    }

    fn check_at(&self, request: &ActionRequest, arguments: Option<&JsonValue>, now: i64) -> (r:
        Result<(), ControlDenial>)
        ensures
            match refusal_of(*self, request@, args_view(arguments), now) {
                None => r is Ok,
                Some(reason) => r matches Err(d) && d.control_id@ == control_id_of(*self)
                    && d.reason@ == reason,
            },
    {
        match self {
            Control::RequiredIdentity(x) => x.check_at(request, arguments, now),
            Control::AgentDelegation(x) => x.check_at(request, arguments, now),
            Control::RequiredToolArguments(x) => x.check_at(request, arguments, now),
            Control::RequiredToolApproval(x) => x.check_at(request, arguments, now),
            Control::ToolApproval(x) => x.check_at(request, arguments, now),
            Control::Custom(x) => x.check_at(request, arguments, now),
        }
    }
}

/// A brick that a pipeline can hold as a stage.
pub trait IntoControl {
    /// `c` is the stage that this brick becomes.
    spec fn becomes(self, c: Control) -> bool;

    fn into_control(self) -> (c: Control)
        ensures
            self.becomes(c),
    ;
}

impl IntoControl for RequiredIdentity {
    open spec fn becomes(self, c: Control) -> bool {
        c == Control::RequiredIdentity(self)
    }

    fn into_control(self) -> (c: Control) {
        Control::RequiredIdentity(self)
    }
}

impl IntoControl for AgentDelegation {
    open spec fn becomes(self, c: Control) -> bool {
        c == Control::AgentDelegation(self)
    }

    fn into_control(self) -> (c: Control) {
        Control::AgentDelegation(self)
    }
}

impl IntoControl for RequiredToolArguments {
    open spec fn becomes(self, c: Control) -> bool {
        c == Control::RequiredToolArguments(self)
    }

    fn into_control(self) -> (c: Control) {
        Control::RequiredToolArguments(self)
    }
}

impl IntoControl for RequiredToolApproval {
    open spec fn becomes(self, c: Control) -> bool {
        c == Control::RequiredToolApproval(self)
    }

    fn into_control(self) -> (c: Control) {
        Control::RequiredToolApproval(self)
    }
}

impl IntoControl for Control {
    open spec fn becomes(self, c: Control) -> bool {
        c == self
    }

    fn into_control(self) -> (c: Control) {
        self
    }
}

impl<P: ApprovalProvider + 'static> IntoControl for ToolApproval<P> {
    open spec fn becomes(self, c: Control) -> bool {
        c matches Control::ToolApproval(t) && t.tool() == self.tool()
    }

    fn into_control(self) -> (c: Control) {
        let provider: Box<dyn ApprovalProvider> = Box::new(self.provider);
        Control::ToolApproval(ToolApproval { tool_name: self.tool_name, provider })
    }
}


// ---------------------------------------------------------------------------------------------
// The pipeline
// ---------------------------------------------------------------------------------------------
/// The first stage of `cs` that refuses a request, as (control id, reason).
pub open spec fn first_refusal(
    cs: Seq<Control>,
    r: ActionRequestView,
    a: Option<JsonValue>,
    now: i64,
) -> Option<(Seq<char>, Seq<char>)>
    decreases cs.len(),
{
    if cs.len() == 0 {
        None
    } else {
        match refusal_of(cs[0], r, a, now) {
            Some(reason) => Some((control_id_of(cs[0]), reason)),
            None => first_refusal(cs.drop_first(), r, a, now),
        }
    }
}

/// The deny decision recorded when control `control_id` refuses a request.
pub open spec fn control_decision(r: ActionRequestView, control_id: Seq<char>) -> DecisionView {
    DecisionView {
        request_id: r.request_id,
        effect: DecisionEffect::Deny,
        policy_id: Some("control:"@ + control_id),
    }
}

/// The outcome of a pipeline authorization.
pub enum Verdict {
    Allowed(DecisionView),
    Denied(DecisionView),
    Refused { decision: DecisionView, control_id: Seq<char>, reason: Seq<char> },
}

/// Identity controls first; then the mandatory authorization; then, after an allow, the
/// action controls.
pub open spec fn verdict(
    identity: Seq<Control>,
    decision: DecisionView,
    action: Seq<Control>,
    r: ActionRequestView,
    a: Option<JsonValue>,
    now: i64,
) -> Verdict {
    match first_refusal(identity, r, a, now) {
        Some((cid, reason)) => Verdict::Refused {
            decision: control_decision(r, cid),
            control_id: cid,
            reason,
        },
        None => if decision.effect == DecisionEffect::Deny {
            Verdict::Denied(decision)
        } else {
            match first_refusal(action, r, a, now) {
                Some((cid, reason)) => Verdict::Refused {
                    decision: control_decision(r, cid),
                    control_id: cid,
                    reason,
                },
                None => Verdict::Allowed(decision),
            }
        },
    }
}

/// The decision that a verdict records in the audit sink.
pub open spec fn verdict_decision(v: Verdict) -> DecisionView {
    match v {
        Verdict::Allowed(d) => d,
        Verdict::Denied(d) => d,
        Verdict::Refused { decision, .. } => decision,
    }
}

/// `res` is what `authorize` returns for verdict `v`.
pub open spec fn answers(res: Result<Decision, GatewayError>, v: Verdict) -> bool {
    match v {
        Verdict::Allowed(d) => res matches Ok(x) && x@ == d,
        Verdict::Denied(d) => res matches Err(GatewayError::Denied(x)) && x@ == d,
        Verdict::Refused { decision, control_id, reason } => res matches Err(
            GatewayError::DeniedByControl { decision: x, denial },
        ) && x@ == decision && denial.control_id@ == control_id && denial.reason@ == reason,
    }
}

/// Authorization is mandatory: a request is allowed only when no identity control refuses
/// it, the authorizer allows it, and no action control refuses it; the allow then carries the
/// authorizer's decision.
pub proof fn lemma_allowed_needs_every_stage(
    identity: Seq<Control>,
    decision: DecisionView,
    action: Seq<Control>,
    r: ActionRequestView,
    a: Option<JsonValue>,
    now: i64,
)
    ensures
        (verdict(identity, decision, action, r, a, now) is Allowed) <==> (first_refusal(identity, r, a, now) is None
            && decision.effect == DecisionEffect::Allow && first_refusal(action, r, a, now) is None),
        verdict(identity, decision, action, r, a, now) matches Verdict::Allowed(d) ==> d == decision,
{
}

/// Identity controls run first: when one refuses, the request is refused by it whatever the
/// authorizer decides; and an authorizer's deny is returned as it is, before any action
/// control runs.
pub proof fn lemma_stage_order(
    identity: Seq<Control>,
    decision: DecisionView,
    action: Seq<Control>,
    r: ActionRequestView,
    a: Option<JsonValue>,
    now: i64,
)
    ensures
        first_refusal(identity, r, a, now) matches Some((cid, reason)) ==> verdict(identity, decision, action, r, a, now)
            == (Verdict::Refused { decision: control_decision(r, cid), control_id: cid, reason }),
        first_refusal(identity, r, a, now) is None && decision.effect == DecisionEffect::Deny ==> verdict(
            identity,
            decision,
            action,
            r,
            a,
            now,
        ) == Verdict::Denied(decision),
{
}

/// Every verdict but an allow records a deny, and a control's refusal is recorded under the
/// policy id `control:{control id}` for the request.
pub proof fn lemma_refusals_record_denials(
    identity: Seq<Control>,
    decision: DecisionView,
    action: Seq<Control>,
    r: ActionRequestView,
    a: Option<JsonValue>,
    now: i64,
)
    ensures
        !(verdict(identity, decision, action, r, a, now) is Allowed) ==> verdict_decision(
            verdict(identity, decision, action, r, a, now),
        ).effect == DecisionEffect::Deny,
        verdict(identity, decision, action, r, a, now) matches Verdict::Refused { decision: d, control_id, .. }
            ==> d.request_id == r.request_id && d.policy_id == Some("control:"@ + control_id),
{
}

/// `e` is the audit record of decision `d` on request `r`, with event id `id` at `now`.
pub open spec fn recorded_as(
    e: crate::contracts::SecurityEventView,
    r: ActionRequestView,
    d: DecisionView,
    id: Seq<char>,
    now: i64,
) -> bool {
    event_records(e, r, d) && e.event_id == id && e.timestamp == now
}

fn run_controls(
    controls: &Vec<Control>,
    request: &ActionRequest,
    arguments: Option<&JsonValue>,
    now: i64,
) -> (r: Result<(), ControlDenial>)
    ensures
        match first_refusal(controls@, request@, args_view(arguments), now) {
            None => r is Ok,
            Some((cid, reason)) => r matches Err(d) && d.control_id@ == cid && d.reason@ == reason,
        },
{
    let ghost a = args_view(arguments);
    let mut i: usize = 0;
    assert(controls@.skip(0) == controls@);
    while i < controls.len()
        invariant
            i <= controls@.len(),
            a == args_view(arguments),
            first_refusal(controls@, request@, a, now) == first_refusal(
                controls@.skip(i as int),
                request@,
                a,
                now,
            ),
        decreases controls@.len() - i,
    {
        assert(controls@.skip(i as int)[0] == controls@[i as int]);
        assert(controls@.skip(i as int).drop_first() == controls@.skip(i + 1));
        match controls[i].check_at(request, arguments, now) {
            Ok(()) => {},
            Err(d) => {
                return Err(d);
            },
        }
        i += 1;
    }
    assert(controls@.skip(i as int).len() == 0);
    Ok(())
}

/// Ordered, composable security enforcement for one normalized Gateway request.
///
/// Identity controls run first, authorization is mandatory and independent, then action
/// controls run. Capability issuance is opt-in, allowing read-only services to use the
/// same pipeline without introducing a credential broker.
pub struct SecurityPipeline<A, S> {
    identity_controls: Vec<Control>,
    authorizer: A,
    action_controls: Vec<Control>,
    capabilities: Option<CapabilityBroker>,
    audit: S,
}

impl<A: Authorizer, S: AuditSink> SecurityPipeline<A, S> {
    pub closed spec fn identity_controls(&self) -> Seq<Control> {
        self.identity_controls@
    }

    pub closed spec fn action_controls(&self) -> Seq<Control> {
        self.action_controls@
    }

    pub closed spec fn authorizer(&self) -> A {
        self.authorizer
    }

    pub closed spec fn audit_sink(&self) -> S {
        self.audit
    }

    /// The outstanding capabilities, when the pipeline has a broker.
    pub closed spec fn broker(&self) -> Option<Map<Seq<char>, CapabilityView>> {
        match self.capabilities {
            Some(b) => Some(b.outstanding()),
            None => None,
        }
    }

    /// The verdict for a request with these arguments at time `now`.
    pub open spec fn verdict_for(&self, r: ActionRequestView, a: Option<JsonValue>, now: i64) -> Verdict {
        verdict(
            self.identity_controls(),
            self.authorizer().decision_for(r),
            self.action_controls(),
            r,
            a,
            now,
        )
    }

    pub fn new(authorizer: A, audit: S) -> (p: Self)
        ensures
            p.identity_controls() == Seq::<Control>::empty(),
            p.action_controls() == Seq::<Control>::empty(),
            p.authorizer() == authorizer,
            p.audit_sink() == audit,
            p.broker() is None,
    {
        SecurityPipeline {
            identity_controls: Vec::new(),
            authorizer,
            action_controls: Vec::new(),
            capabilities: None,
            audit,
        }
    }

    /// Appends a stage that runs before authorization.
    pub fn add_identity_control<C: IntoControl>(self, control: C) -> (p: Self)
        ensures
            p.identity_controls().len() == self.identity_controls().len() + 1,
            p.identity_controls().drop_last() == self.identity_controls(),
            control.becomes(p.identity_controls().last()),
            p.action_controls() == self.action_controls(),
            p.authorizer() == self.authorizer(),
            p.audit_sink() == self.audit_sink(),
            p.broker() == self.broker(),
    {
        let mut p = self;
        let c = control.into_control();
        p.identity_controls.push(c);
        assert(p.identity_controls@.drop_last() == self.identity_controls@);
        p
    }

    /// Appends a stage that runs after an allow decision.
    pub fn add_action_control<C: IntoControl>(self, control: C) -> (p: Self)
        ensures
            p.action_controls().len() == self.action_controls().len() + 1,
            p.action_controls().drop_last() == self.action_controls(),
            control.becomes(p.action_controls().last()),
            p.identity_controls() == self.identity_controls(),
            p.authorizer() == self.authorizer(),
            p.audit_sink() == self.audit_sink(),
            p.broker() == self.broker(),
    {
        let mut p = self;
        let c = control.into_control();
        p.action_controls.push(c);
        assert(p.action_controls@.drop_last() == self.action_controls@);
        p
    }

    /// Enables capability issuance with an empty broker.
    pub fn with_capability_broker(self) -> (p: Self)
        ensures
            p.broker() == Some(Map::<Seq<char>, CapabilityView>::empty()),
            p.identity_controls() == self.identity_controls(),
            p.action_controls() == self.action_controls(),
            p.authorizer() == self.authorizer(),
            p.audit_sink() == self.audit_sink(),
    {
        let mut p = self;
        p.capabilities = Some(CapabilityBroker::new());
        p
    }

    /// The audit sink this pipeline records to.
    pub fn audit(&self) -> (s: &S)
        ensures
            *s == self.audit_sink(),
    {
        &self.audit
    }

    fn record(&mut self, request: &ActionRequest, decision: &Decision, now: i64, event_id: String)
        ensures
            final(self).identity_controls() == old(self).identity_controls(),
            final(self).action_controls() == old(self).action_controls(),
            final(self).authorizer() == old(self).authorizer(),
            final(self).broker() == old(self).broker(),
            exists|e| #[trigger]
                old(self).audit_sink().records(&final(self).audit_sink(), e) && recorded_as(
                    e,
                    request@,
                    decision@,
                    event_id@,
                    now,
                ),
    {
        let event = event_from_decision_at(event_id, request, decision, now);
        let ghost ev = event@;
        self.audit.record(event);
        assert(old(self).audit_sink().records(&final(self).audit_sink(), ev));
    }

    fn reject_control(
        &mut self,
        request: &ActionRequest,
        denial: ControlDenial,
        now: i64,
        event_id: String,
    ) -> (e: GatewayError)
        ensures
            e matches GatewayError::DeniedByControl { decision, denial: d } && decision@
                == control_decision(request@, denial.control_id@) && d == denial,
            final(self).identity_controls() == old(self).identity_controls(),
            final(self).action_controls() == old(self).action_controls(),
            final(self).authorizer() == old(self).authorizer(),
            final(self).broker() == old(self).broker(),
            exists|ev| #[trigger]
                old(self).audit_sink().records(&final(self).audit_sink(), ev) && recorded_as(
                    ev,
                    request@,
                    control_decision(request@, denial.control_id@),
                    event_id@,
                    now,
                ),
    {
        let decision = Decision {
            request_id: request.request_id.clone(),
            effect: DecisionEffect::Deny,
            policy_id: Some(cat("control:", denial.control_id.as_str())),
        };
        self.record(request, &decision, now, event_id);
        GatewayError::DeniedByControl { decision, denial }
    }

    /// Authorizes a request as of time `now`, recording the outcome as event `event_id`.
    pub fn authorize_at(
        &mut self,
        request: &ActionRequest,
        arguments: Option<&JsonValue>,
        now: i64,
        event_id: String,
    ) -> (r: Result<Decision, GatewayError>)
        ensures
            answers(r, old(self).verdict_for(request@, args_view(arguments), now)),
            exists|e| #[trigger]
                old(self).audit_sink().records(&final(self).audit_sink(), e) && recorded_as(
                    e,
                    request@,
                    verdict_decision(old(self).verdict_for(request@, args_view(arguments), now)),
                    event_id@,
                    now,
                ),
            final(self).identity_controls() == old(self).identity_controls(),
            final(self).action_controls() == old(self).action_controls(),
            final(self).authorizer() == old(self).authorizer(),
            final(self).broker() == old(self).broker(),
    {
        match run_controls(&self.identity_controls, request, arguments, now) {
            Ok(()) => {},
            Err(denial) => {
                return Err(self.reject_control(request, denial, now, event_id));
            },
        }
        let decision = self.authorizer.decide(request);
        if decision.effect == DecisionEffect::Deny {
            self.record(request, &decision, now, event_id);
            return Err(GatewayError::Denied(decision));
        }
        match run_controls(&self.action_controls, request, arguments, now) {
            Ok(()) => {},
            Err(denial) => {
                return Err(self.reject_control(request, denial, now, event_id));
            },
        }
        self.record(request, &decision, now, event_id);
        Ok(decision)
    }

    /// Authorizes a request as of the current time and records the outcome.
    pub fn authorize(&mut self, request: &ActionRequest, arguments: Option<&JsonValue>) -> (r: Result<
        Decision,
        GatewayError,
    >)
        ensures
            exists|now: i64|
                answers(r, #[trigger] old(self).verdict_for(request@, args_view(arguments), now))
                    && exists|e| #[trigger]
                    old(self).audit_sink().records(&final(self).audit_sink(), e) && event_records(
                        e,
                        request@,
                        verdict_decision(old(self).verdict_for(request@, args_view(arguments), now)),
                    ),
            final(self).identity_controls() == old(self).identity_controls(),
            final(self).action_controls() == old(self).action_controls(),
            final(self).authorizer() == old(self).authorizer(),
            final(self).broker() == old(self).broker(),
    {
        let now = now_millis();
        let event_id = new_uuid_string();
        let r = self.authorize_at(request, arguments, now, event_id);
        assert(answers(r, old(self).verdict_for(request@, args_view(arguments), now)));
        r
    }

    /// Authorizes a Tool call as of `now`; when it is allowed and the pipeline has a broker,
    /// issues a capability under `token` bound to the request and its arguments.
    pub fn authorize_tool_at(
        &mut self,
        request: &ActionRequest,
        arguments: &JsonValue,
        ttl_ms: i64,
        now: i64,
        event_id: String,
        token: String,
    ) -> (r: Result<Capability, GatewayError>)
        ensures
            ({
                let v = old(self).verdict_for(request@, Some(*arguments), now);
                &&& !(v is Allowed) ==> answers(
                    match r {
                        Ok(_) => Err(GatewayError::CapabilityUnavailable),
                        Err(e) => Err(e),
                    },
                    v,
                ) && final(self).broker() == old(self).broker()
                &&& (v is Allowed && old(self).broker() is None) ==> r == Err::<
                    Capability,
                    GatewayError,
                >(GatewayError::CapabilityUnavailable) && final(self).broker() is None
                &&& (v is Allowed && old(self).broker() is Some) ==> (r matches Ok(c) && c@
                    == issued(token@, request@, *arguments, ttl_ms, now) && final(self).broker()
                    == Some(old(self).broker().unwrap().insert(token@, c@)))
            }),
            exists|e| #[trigger]
                old(self).audit_sink().records(&final(self).audit_sink(), e) && recorded_as(
                    e,
                    request@,
                    verdict_decision(old(self).verdict_for(request@, Some(*arguments), now)),
                    event_id@,
                    now,
                ),
            final(self).identity_controls() == old(self).identity_controls(),
            final(self).action_controls() == old(self).action_controls(),
            final(self).authorizer() == old(self).authorizer(),
    {
        let ghost v = old(self).verdict_for(request@, Some(*arguments), now);
        let decided = self.authorize_at(request, Some(arguments), now, event_id);
        let ghost mid_audit = self.audit;
        let ghost e = choose|e| #[trigger]
            old(self).audit_sink().records(&mid_audit, e) && recorded_as(
                e,
                request@,
                verdict_decision(v),
                event_id@,
                now,
            );
        match decided {
            Err(err) => {
                return Err(err);
            },
            Ok(_) => {},
        }
        match &mut self.capabilities {
            None => Err(GatewayError::CapabilityUnavailable),
            Some(broker) => {
                let c = broker.issue_at(request, arguments, ttl_ms, now, token);
                assert(old(self).audit_sink().records(&final(self).audit_sink(), e));
                Ok(c)
            },
        }
    }

    /// Authorizes a Tool call as of the current time, recording the decision, and, when
    /// allowed, issues a capability under a random v4 UUID token.
    pub fn authorize_tool(&mut self, request: &ActionRequest, arguments: &JsonValue, ttl_ms: i64) -> (r:
        Result<Capability, GatewayError>)
        ensures
            exists|now: i64| #![trigger old(self).verdict_for(request@, Some(*arguments), now)] {
                let v = old(self).verdict_for(request@, Some(*arguments), now);
                &&& !(v is Allowed) ==> answers(
                    match r {
                        Ok(_) => Err(GatewayError::CapabilityUnavailable),
                        Err(e) => Err(e),
                    },
                    v,
                ) && final(self).broker() == old(self).broker()
                &&& (v is Allowed && old(self).broker() is None) ==> r == Err::<
                    Capability,
                    GatewayError,
                >(GatewayError::CapabilityUnavailable)
                &&& (v is Allowed && old(self).broker() is Some) ==> (r matches Ok(c)
                    && c@ == issued(c.token@, request@, *arguments, ttl_ms, now)
                    && final(self).broker() == Some(old(self).broker().unwrap().insert(c.token@, c@)))
                &&& exists|e| #![trigger old(self).audit_sink().records(&final(self).audit_sink(), e)]
                    old(self).audit_sink().records(&final(self).audit_sink(), e) && event_records(
                        e,
                        request@,
                        verdict_decision(v),
                    )
            },
            final(self).identity_controls() == old(self).identity_controls(),
            final(self).action_controls() == old(self).action_controls(),
            final(self).authorizer() == old(self).authorizer(),
    {
        let now = now_millis();
        let event_id = new_uuid_string();
        let token = new_uuid_string();
        let r = self.authorize_tool_at(request, arguments, ttl_ms, now, event_id, token);
        assert(old(self).verdict_for(request@, Some(*arguments), now) == old(self).verdict_for(
            request@,
            Some(*arguments),
            now,
        ));
        r
    }

    /// Consumes a Tool capability as of `now`.
    pub fn consume_tool_capability_at(
        &mut self,
        token: &str,
        request: &ActionRequest,
        arguments: &JsonValue,
        now: i64,
    ) -> (r: Result<Capability, GatewayError>)
        ensures
            old(self).broker() is None ==> r == Err::<Capability, GatewayError>(
                GatewayError::CapabilityUnavailable,
            ) && final(self).broker() is None,
            old(self).broker() matches Some(m) ==> {
                &&& final(self).broker() == Some(m.remove(token@))
                &&& !m.contains_key(token@) ==> r == Err::<Capability, GatewayError>(
                    GatewayError::Capability(CapabilityError::NotFound),
                )
                &&& m.contains_key(token@) ==> match consume_failure(
                    m[token@],
                    request@,
                    *arguments,
                    now,
                ) {
                    Some(e) => r == Err::<Capability, GatewayError>(GatewayError::Capability(e)),
                    None => r matches Ok(c) && c@ == m[token@],
                }
            },
            final(self).identity_controls() == old(self).identity_controls(),
            final(self).action_controls() == old(self).action_controls(),
            final(self).authorizer() == old(self).authorizer(),
            final(self).audit_sink() == old(self).audit_sink(),
    {
        match &mut self.capabilities {
            None => Err(GatewayError::CapabilityUnavailable),
            Some(broker) => match broker.consume_at(token, request, arguments, now) {
                Ok(c) => Ok(c),
                Err(e) => Err(GatewayError::Capability(e)),
            },
        }
    }

    /// Consumes a Tool capability as of the current time.
    pub fn consume_tool_capability(&mut self, token: &str, request: &ActionRequest, arguments: &JsonValue) -> (r:
        Result<Capability, GatewayError>)
        ensures
            old(self).broker() is None ==> r == Err::<Capability, GatewayError>(
                GatewayError::CapabilityUnavailable,
            ) && final(self).broker() is None,
            old(self).broker() matches Some(m) ==> {
                &&& final(self).broker() == Some(m.remove(token@))
                &&& !m.contains_key(token@) ==> r == Err::<Capability, GatewayError>(
                    GatewayError::Capability(CapabilityError::NotFound),
                )
                &&& m.contains_key(token@) ==> exists|now: i64| match #[trigger] consume_failure(
                    m[token@],
                    request@,
                    *arguments,
                    now,
                ) {
                    Some(e) => r == Err::<Capability, GatewayError>(GatewayError::Capability(e)),
                    None => r matches Ok(c) && c@ == m[token@],
                }
            },
            final(self).identity_controls() == old(self).identity_controls(),
            final(self).action_controls() == old(self).action_controls(),
            final(self).authorizer() == old(self).authorizer(),
            final(self).audit_sink() == old(self).audit_sink(),
    {
        let now = now_millis();
        self.consume_tool_capability_at(token, request, arguments, now)
    }
}


// ---------------------------------------------------------------------------------------------
// Configuration
// ---------------------------------------------------------------------------------------------
#[derive(Debug, PartialEq, Eq)]
pub struct RequiredToolArgumentsConfig {
    pub tool_name: String,
    pub required_fields: Vec<String>,
}

/// Declares a Tool as high risk. Until an external approval provider is installed, this is a
/// fail-closed gate rather than an implicit approval.
#[derive(Debug, PartialEq, Eq)]
pub struct RequiredToolApprovalConfig {
    pub tool_name: String,
}

/// Composition of the built-in bricks. The presence of this configuration enables the
/// pipeline; an empty policy list is intentionally fail-closed.
#[derive(Debug, Default, PartialEq, Eq)]
pub struct SecurityPipelineConfig {
    pub required_identity: Option<RequiredIdentity>,
    pub policies: Vec<Policy>,
    pub required_tool_arguments: Vec<RequiredToolArgumentsConfig>,
    pub required_tool_approvals: Vec<RequiredToolApprovalConfig>,
    /// Enables direct user-to-Agent delegation validation for requests carrying an Agent.
    pub delegations: Vec<AgentDelegationConfig>,
}

fn copy_strings(v: &Vec<String>) -> (r: Vec<String>)
    ensures
        views(r@) == views(v@),
{
    let mut out: Vec<String> = Vec::new();
    let mut i: usize = 0;
    while i < v.len()
        invariant
            i <= v@.len(),
            views(out@) == views(v@).take(i as int),
        decreases v@.len() - i,
    {
        let ghost before = out@;
        let item = v[i].clone();
        out.push(item);
        assert(views(out@) =~= views(before).push(v@[i as int]@));
        assert(views(v@).take(i + 1) =~= views(v@).take(i as int).push(v@[i as int]@));
        i += 1;
    }
    assert(views(v@).take(v@.len() as int) == views(v@));
    out
}

fn copy_policies(v: &Vec<Policy>) -> (r: Vec<Policy>)
    ensures
        r@ == v@,
{
    let mut out: Vec<Policy> = Vec::new();
    let mut i: usize = 0;
    while i < v.len()
        invariant
            i <= v@.len(),
            out@ == v@.take(i as int),
        decreases v@.len() - i,
    {
        out.push(v[i].clone());
        assert(out@ =~= v@.take(i + 1));
        i += 1;
    }
    assert(v@.take(v@.len() as int) == v@);
    out
}

fn copy_grants(v: &Vec<AgentDelegationConfig>) -> (r: Vec<AgentDelegationConfig>)
    ensures
        r@.map_values(|g: AgentDelegationConfig| g@) == v@.map_values(
            |g: AgentDelegationConfig| g@,
        ),
{
    let mut out: Vec<AgentDelegationConfig> = Vec::new();
    let mut i: usize = 0;
    while i < v.len()
        invariant
            i <= v@.len(),
            out@.map_values(|g: AgentDelegationConfig| g@) == v@.map_values(
                |g: AgentDelegationConfig| g@,
            ).take(i as int),
        decreases v@.len() - i,
    {
        let ghost before = out@;
        let item = v[i].clone();
        out.push(item);
        assert(out@.map_values(|g: AgentDelegationConfig| g@) =~= before.map_values(
            |g: AgentDelegationConfig| g@,
        ).push(v@[i as int]@));
        assert(v@.map_values(|g: AgentDelegationConfig| g@).take(i + 1) =~= v@.map_values(
            |g: AgentDelegationConfig| g@,
        ).take(i as int).push(v@[i as int]@));
        i += 1;
    }
    assert(v@.map_values(|g: AgentDelegationConfig| g@).take(v@.len() as int) == v@.map_values(
        |g: AgentDelegationConfig| g@,
    ));
    out
}

/// Two stage lists refuse the same requests, for the same reasons, under the same ids.
pub open spec fn same_stages(a: Seq<Control>, b: Seq<Control>) -> bool {
    &&& a.len() == b.len()
    &&& forall|i: int| 0 <= i < a.len() ==> control_id_of(#[trigger] a[i]) == control_id_of(b[i])
    &&& forall|i: int, r: ActionRequestView, x: Option<JsonValue>, now: i64|
        0 <= i < a.len() ==> #[trigger] refusal_of(a[i], r, x, now) == refusal_of(b[i], r, x, now)
}

pub proof fn lemma_same_stages_same_refusal(
    a: Seq<Control>,
    b: Seq<Control>,
    r: ActionRequestView,
    x: Option<JsonValue>,
    now: i64,
)
    requires
        same_stages(a, b),
    ensures
        first_refusal(a, r, x, now) == first_refusal(b, r, x, now),
    decreases a.len(),
{
    if a.len() > 0 {
        assert(refusal_of(a[0], r, x, now) == refusal_of(b[0], r, x, now));
        assert(control_id_of(a[0]) == control_id_of(b[0]));
        let a1 = a.drop_first();
        let b1 = b.drop_first();
        assert forall|i: int| 0 <= i < a1.len() implies control_id_of(#[trigger] a1[i])
            == control_id_of(b1[i]) by {
            assert(a1[i] == a[i + 1]);
            assert(b1[i] == b[i + 1]);
        }
        assert forall|i: int, r2: ActionRequestView, x2: Option<JsonValue>, n2: i64|
            0 <= i < a1.len() implies #[trigger] refusal_of(a1[i], r2, x2, n2) == refusal_of(
            b1[i],
            r2,
            x2,
            n2,
        ) by {
            assert(a1[i] == a[i + 1]);
            assert(b1[i] == b[i + 1]);
        }
        lemma_same_stages_same_refusal(a1, b1, r, x, now);
    }
}

/// A configuration with no policies and no controls denies every request, with no deciding
/// policy: an empty policy list is fail-closed.
pub proof fn lemma_empty_configuration_denies(
    config: SecurityPipelineConfig,
    r: ActionRequestView,
    a: Option<JsonValue>,
    now: i64,
)
    requires
        config.required_identity is None,
        config.policies@.len() == 0,
        config.required_tool_arguments@.len() == 0,
        config.required_tool_approvals@.len() == 0,
        config.delegations@.len() == 0,
    ensures
        config.verdict_for(r, a, now) == Verdict::Denied(
            DecisionView { request_id: r.request_id, effect: DecisionEffect::Deny, policy_id: None },
        ),
{
    crate::policy::lemma_unmatched_has_no_decider(config.policies@, r);
    assert(config.identity_stages() =~= Seq::<Control>::empty());
    assert(config.action_stages() =~= Seq::<Control>::empty());
}

/// When no stage refuses a request, none of them does.
proof fn lemma_no_stage_refuses(cs: Seq<Control>, r: ActionRequestView, a: Option<JsonValue>, now: i64, k: int)
    requires
        first_refusal(cs, r, a, now) is None,
        0 <= k < cs.len(),
    ensures
        refusal_of(cs[k], r, a, now) is None,
    decreases cs.len(),
{
    if k > 0 {
        lemma_no_stage_refuses(cs.drop_first(), r, a, now, k - 1);
        assert(cs.drop_first()[k - 1] == cs[k]);
    }
}

/// A Tool that the configuration declares high risk is never allowed, whatever the policies
/// say: without an approval provider its gate fails closed.
pub proof fn lemma_high_risk_tool_is_never_allowed(
    config: SecurityPipelineConfig,
    r: ActionRequestView,
    a: Option<JsonValue>,
    now: i64,
    i: int,
)
    requires
        0 <= i < config.required_tool_approvals@.len(),
        calls_tool(r, config.required_tool_approvals@[i].tool_name@),
    ensures
        !(config.verdict_for(r, a, now) is Allowed),
{
    let stages = config.action_stages();
    let k = config.required_tool_arguments@.len() + i;
    assert(stages[k] == Control::RequiredToolApproval(
        RequiredToolApproval { tool_name: config.required_tool_approvals@[i].tool_name },
    ));
    if config.verdict_for(r, a, now) is Allowed {
        lemma_no_stage_refuses(stages, r, a, now, k);
    }
}

impl SecurityPipelineConfig {
    /// The stages that run before authorization: the required identity, then the delegation
    /// check when grants are configured.
    pub closed spec fn identity_stages(&self) -> Seq<Control> {
        (match self.required_identity {
            Some(ri) => seq![Control::RequiredIdentity(ri)],
            None => Seq::empty(),
        }) + (if self.delegations@.len() > 0 {
            seq![Control::AgentDelegation(AgentDelegation { delegations: self.delegations })]
        } else {
            Seq::empty()
        })
    }

    /// The stages that run after an allow: the required Tool arguments, then the high-risk
    /// Tool gates, each in configuration order.
    pub closed spec fn action_stages(&self) -> Seq<Control> {
        self.required_tool_arguments@.map_values(
            |c: RequiredToolArgumentsConfig|
                Control::RequiredToolArguments(
                    RequiredToolArguments { tool_name: c.tool_name, required_fields: c.required_fields },
                ),
        ) + self.required_tool_approvals@.map_values(
            |c: RequiredToolApprovalConfig|
                Control::RequiredToolApproval(RequiredToolApproval { tool_name: c.tool_name }),
        )
    }

    /// The stages a configuration builds: the required identity (when set), then the
    /// delegation check (when grants are configured); after authorization, one argument check
    /// per required-arguments entry, then one fail-closed gate per high-risk Tool, each in
    /// configuration order.
    pub proof fn lemma_configured_stages(&self)
        ensures
            self.identity_stages().len() == (if self.required_identity is Some { 1int } else { 0int }) + (
            if self.delegations@.len() > 0 {
                1int
            } else {
                0int
            }),
            self.required_identity matches Some(ri) ==> self.identity_stages()[0] == Control::RequiredIdentity(ri),
            self.delegations@.len() > 0 ==> (self.identity_stages().last() matches Control::AgentDelegation(d)
                && d.grants() == self.delegations@.map_values(|g: AgentDelegationConfig| g@)),
            self.action_stages().len() == self.required_tool_arguments@.len() + self.required_tool_approvals@.len(),
            forall|i: int|
                0 <= i < self.required_tool_arguments@.len() ==> (#[trigger] self.action_stages()[i] matches Control::RequiredToolArguments(
                    c,
                ) && c.tool() == self.required_tool_arguments@[i].tool_name@ && c.fields() == views(
                    self.required_tool_arguments@[i].required_fields@,
                )),
            forall|j: int|
                0 <= j < self.required_tool_approvals@.len() ==> (#[trigger] self.action_stages()[self.required_tool_arguments@.len()
                    + j] matches Control::RequiredToolApproval(c) && c.tool()
                    == self.required_tool_approvals@[j].tool_name@),
    {
        let acts = self.action_stages();
        let n = self.required_tool_arguments@.len() as int;
        assert forall|j: int| 0 <= j < self.required_tool_approvals@.len() implies (#[trigger] acts[n + j] matches Control::RequiredToolApproval(
            c,
        ) && c.tool() == self.required_tool_approvals@[j].tool_name@) by {
            assert(acts[n + j] == Control::RequiredToolApproval(
                RequiredToolApproval { tool_name: self.required_tool_approvals@[j].tool_name },
            ));
        }
    }

    /// The verdict that the configured pipeline gives a request.
    pub open spec fn verdict_for(&self, r: ActionRequestView, a: Option<JsonValue>, now: i64) -> Verdict {
        verdict(
            self.identity_stages(),
            decide_spec(self.policies@, r),
            self.action_stages(),
            r,
            a,
            now,
        )
    }

    pub fn build<S: AuditSink>(&self, audit: S) -> (p: SecurityPipeline<PolicyAuthorizer, S>)
        ensures
            forall|r: ActionRequestView, a: Option<JsonValue>, now: i64| #[trigger]
                p.verdict_for(r, a, now) == self.verdict_for(r, a, now),
            p.audit_sink() == audit,
            p.broker() is None,
    {
        let mut pipeline = SecurityPipeline::new(
            PolicyAuthorizer::new(copy_policies(&self.policies)),
            audit,
        );
        match self.required_identity {
            Some(identity) => {
                pipeline = pipeline.add_identity_control(identity);
            },
            None => {},
        }
        let ghost before_args = pipeline.action_controls();
        let mut i: usize = 0;
        while i < self.required_tool_arguments.len()
            invariant
                i <= self.required_tool_arguments@.len(),
                pipeline.action_controls().len() == i,
                forall|j: int|
                    0 <= j < i ==> (#[trigger] pipeline.action_controls()[j] matches Control::RequiredToolArguments(
                        x,
                    ) && x.tool() == self.required_tool_arguments@[j].tool_name@ && x.fields()
                        == views(self.required_tool_arguments@[j].required_fields@)),
                pipeline.identity_controls() == (match self.required_identity {
                    Some(ri) => seq![Control::RequiredIdentity(ri)],
                    None => Seq::<Control>::empty(),
                }),
                pipeline.authorizer().policies() == self.policies@,
                pipeline.audit_sink() == audit,
                pipeline.broker() is None,
            decreases self.required_tool_arguments@.len() - i,
        {
            let requirement = &self.required_tool_arguments[i];
            let control = RequiredToolArguments::new(
                requirement.tool_name.as_str(),
                copy_strings(&requirement.required_fields),
            );
            let ghost prev = pipeline.action_controls();
            pipeline = pipeline.add_action_control(control);
            assert forall|j: int| 0 <= j < i implies (#[trigger] pipeline.action_controls()[j] matches Control::RequiredToolArguments(
                x,
            ) && x.tool() == self.required_tool_arguments@[j].tool_name@ && x.fields() == views(
                self.required_tool_arguments@[j].required_fields@,
            )) by {
                assert(pipeline.action_controls()[j] == prev[j]);
            }
            i += 1;
        }
        let mut k: usize = 0;
        let n = self.required_tool_arguments.len();
        while k < self.required_tool_approvals.len()
            invariant
                n == self.required_tool_arguments@.len(),
                k <= self.required_tool_approvals@.len(),
                pipeline.action_controls().len() == n + k,
                forall|j: int|
                    0 <= j < n ==> (#[trigger] pipeline.action_controls()[j] matches Control::RequiredToolArguments(
                        x,
                    ) && x.tool() == self.required_tool_arguments@[j].tool_name@ && x.fields()
                        == views(self.required_tool_arguments@[j].required_fields@)),
                forall|j: int|
                    0 <= j < k ==> (#[trigger] pipeline.action_controls()[n + j] matches Control::RequiredToolApproval(
                        x,
                    ) && x.tool() == self.required_tool_approvals@[j].tool_name@),
                pipeline.identity_controls() == (match self.required_identity {
                    Some(ri) => seq![Control::RequiredIdentity(ri)],
                    None => Seq::<Control>::empty(),
                }),
                pipeline.authorizer().policies() == self.policies@,
                pipeline.audit_sink() == audit,
                pipeline.broker() is None,
            decreases self.required_tool_approvals@.len() - k,
        {
            let requirement = &self.required_tool_approvals[k];
            let control = RequiredToolApproval::new(requirement.tool_name.as_str());
            let ghost prev = pipeline.action_controls();
            pipeline = pipeline.add_action_control(control);
            assert forall|j: int| 0 <= j < n implies (#[trigger] pipeline.action_controls()[j] matches Control::RequiredToolArguments(
                x,
            ) && x.tool() == self.required_tool_arguments@[j].tool_name@ && x.fields() == views(
                self.required_tool_arguments@[j].required_fields@,
            )) by {
                assert(pipeline.action_controls()[j] == prev[j]);
            }
            assert forall|j: int| 0 <= j < k + 1 implies (#[trigger] pipeline.action_controls()[n
                + j] matches Control::RequiredToolApproval(x) && x.tool()
                == self.required_tool_approvals@[j].tool_name@) by {
                if j < k {
                    assert(pipeline.action_controls()[n + j] == prev[n + j]);
                }
            }
            k += 1;
        }
        if self.delegations.len() != 0 {
            pipeline = pipeline.add_identity_control(AgentDelegation::new(copy_grants(&self.delegations)));
        }
        proof {
            let ideal_identity = self.identity_stages();
            let ideal_action = self.action_stages();
            assert(same_stages(pipeline.identity_controls(), ideal_identity)) by {
                if self.delegations@.len() > 0 {
                    let last = pipeline.identity_controls().last();
                    assert(last matches Control::AgentDelegation(_));
                }
            }
            assert(same_stages(pipeline.action_controls(), ideal_action)) by {
                assert forall|i: int| 0 <= i < pipeline.action_controls().len() implies control_id_of(
                    #[trigger] pipeline.action_controls()[i],
                ) == control_id_of(ideal_action[i]) by {
                    if i < n {
                        assert(pipeline.action_controls()[i] matches Control::RequiredToolArguments(_));
                    } else {
                        assert(pipeline.action_controls()[n + (i - n)] matches Control::RequiredToolApproval(_));
                    }
                }
                assert forall|i: int, r: ActionRequestView, x: Option<JsonValue>, now: i64|
                    0 <= i < pipeline.action_controls().len() implies #[trigger] refusal_of(
                    pipeline.action_controls()[i],
                    r,
                    x,
                    now,
                ) == refusal_of(ideal_action[i], r, x, now) by {
                    if i < n {
                        assert(pipeline.action_controls()[i] matches Control::RequiredToolArguments(_));
                    } else {
                        assert(pipeline.action_controls()[n + (i - n)] matches Control::RequiredToolApproval(_));
                    }
                }
            }
            assert forall|r: ActionRequestView, a: Option<JsonValue>, now: i64| #[trigger]
                pipeline.verdict_for(r, a, now) == self.verdict_for(r, a, now) by {
                lemma_same_stages_same_refusal(pipeline.identity_controls(), ideal_identity, r, a, now);
                lemma_same_stages_same_refusal(pipeline.action_controls(), ideal_action, r, a, now);
            }
        }
        pipeline
    }
}

#[derive(Debug, PartialEq, Eq)]
pub enum GatewayError {
    Denied(Decision),
    DeniedByControl { decision: Decision, denial: ControlDenial },
    Capability(CapabilityError),
    CapabilityUnavailable,
}

} // verus!
