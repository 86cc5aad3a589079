//! The normalized vocabulary shared by policy evaluation, the security engine and audit.
//!
//! Every value has a mathematical view in which strings are `Seq<char>`, so that contracts
//! compare contents rather than allocations.
use vstd::prelude::*;

verus! {

/// The view of an optional string.
pub open spec fn opt_view(o: Option<String>) -> Option<Seq<char>> {
    match o {
        Some(s) => Some(s@),
        None => None,
    }
}

/// Copies an optional string.
pub fn clone_opt_string(s: &Option<String>) -> (r: Option<String>)
    ensures
        r == *s,
{
    match s {
        Some(v) => Some(v.clone()),
        None => None,
    }
}

/// Compares two optional strings by content.
pub fn opt_string_eq(a: &Option<String>, b: &Option<String>) -> (r: bool)
    ensures
        r == (opt_view(*a) == opt_view(*b)),
{
    match (a, b) {
        (Some(x), Some(y)) => *x == *y,
        (None, None) => true,
        _ => false,
    }
}

/// Compares an optional string with a present string by content.
pub fn opt_string_is(a: &Option<String>, b: &String) -> (r: bool)
    ensures
        r == (opt_view(*a) == Some(b@)),
{
    match a {
        Some(x) => *x == *b,
        None => false,
    }
}

/// The identities carried end-to-end with an AI action request.
#[derive(Debug, PartialEq, Eq)]
pub struct Subject {
    pub user_id: Option<String>,
    pub agent_id: Option<String>,
    /// Tenant boundary carried end-to-end with an AI action request.
    pub tenant_id: Option<String>,
    /// Identifier of the verified grant that lets `agent_id` act for `user_id`.
    /// It is a correlation value, not a downstream credential.
    pub delegation_id: Option<String>,
}

pub struct SubjectView {
    pub user_id: Option<Seq<char>>,
    pub agent_id: Option<Seq<char>>,
    pub tenant_id: Option<Seq<char>>,
    pub delegation_id: Option<Seq<char>>,
}

impl View for Subject {
    type V = SubjectView;

    open spec fn view(&self) -> SubjectView {
        SubjectView {
            user_id: opt_view(self.user_id),
            agent_id: opt_view(self.agent_id),
            tenant_id: opt_view(self.tenant_id),
            delegation_id: opt_view(self.delegation_id),
        }
    }
}

impl Clone for Subject {
    fn clone(&self) -> (r: Self)
        ensures
            r == *self,
    {
        Subject {
            user_id: clone_opt_string(&self.user_id),
            agent_id: clone_opt_string(&self.agent_id),
            tenant_id: clone_opt_string(&self.tenant_id),
            delegation_id: clone_opt_string(&self.delegation_id),
        }
    }
}

impl Subject {
    /// Compares two subjects by content.
    pub fn same_as(&self, other: &Subject) -> (r: bool)
        ensures
            r == (self@ == other@),
    {
        opt_string_eq(&self.user_id, &other.user_id) && opt_string_eq(&self.agent_id, &other.agent_id)
            && opt_string_eq(&self.tenant_id, &other.tenant_id) && opt_string_eq(
            &self.delegation_id,
            &other.delegation_id,
        )
    }
}

/// The kind of operation an AI request performs.
#[derive(Debug, Clone, Copy, PartialEq, Eq, Structural)]
pub enum ActionType {
    ModelInvoke,
    InferenceRoute,
    AgentInvoke,
    ToolList,
    ToolInvoke,
}

#[derive(Debug, PartialEq, Eq)]
pub struct Action {
    pub action_type: ActionType,
    pub name: String,
}

pub struct ActionView {
    pub action_type: ActionType,
    pub name: Seq<char>,
}

impl View for Action {
    type V = ActionView;

    open spec fn view(&self) -> ActionView {
        ActionView { action_type: self.action_type, name: self.name@ }
    }
}

impl Clone for Action {
    fn clone(&self) -> (r: Self)
        ensures
            r == *self,
    {
        Action { action_type: self.action_type, name: self.name.clone() }
    }
}

impl Action {
    /// Compares two actions by content.
    pub fn same_as(&self, other: &Action) -> (r: bool)
        ensures
            r == (self@ == other@),
    {
        self.action_type == other.action_type && self.name == other.name
    }
}

/// The kind of resource an AI request addresses.
#[derive(Debug, Clone, Copy, PartialEq, Eq, Structural)]
pub enum ResourceType {
    Model,
    InferenceEndpoint,
    Agent,
    McpServer,
    Tool,
}

#[derive(Debug, PartialEq, Eq)]
pub struct Resource {
    pub id: String,
    pub resource_type: ResourceType,
}

pub struct ResourceView {
    pub id: Seq<char>,
    pub resource_type: ResourceType,
}

impl View for Resource {
    type V = ResourceView;

    open spec fn view(&self) -> ResourceView {
        ResourceView { id: self.id@, resource_type: self.resource_type }
    }
}

impl Clone for Resource {
    fn clone(&self) -> (r: Self)
        ensures
            r == *self,
    {
        Resource { id: self.id.clone(), resource_type: self.resource_type }
    }
}

impl Resource {
    /// Compares two resources by content.
    pub fn same_as(&self, other: &Resource) -> (r: bool)
        ensures
            r == (self@ == other@),
    {
        self.id == other.id && self.resource_type == other.resource_type
    }
}

/// One normalized request: who asks to do what to which resource.
#[derive(Debug, PartialEq, Eq)]
pub struct ActionRequest {
    pub request_id: String,
    pub subject: Subject,
    pub action: Action,
    pub resource: Resource,
}

pub struct ActionRequestView {
    pub request_id: Seq<char>,
    pub subject: SubjectView,
    pub action: ActionView,
    pub resource: ResourceView,
}

impl View for ActionRequest {
    type V = ActionRequestView;

    open spec fn view(&self) -> ActionRequestView {
        ActionRequestView {
            request_id: self.request_id@,
            subject: self.subject@,
            action: self.action@,
            resource: self.resource@,
        }
    }
}

impl Clone for ActionRequest {
    fn clone(&self) -> (r: Self)
        ensures
            r == *self,
    {
        ActionRequest {
            request_id: self.request_id.clone(),
            subject: self.subject.clone(),
            action: self.action.clone(),
            resource: self.resource.clone(),
        }
    }
}

/// The outcome of an authorization.
#[derive(Debug, Clone, Copy, PartialEq, Eq, Structural)]
pub enum DecisionEffect {
    Allow,
    Deny,
}

#[derive(Debug, PartialEq, Eq)]
pub struct Decision {
    pub request_id: String,
    pub effect: DecisionEffect,
    pub policy_id: Option<String>,
}

pub struct DecisionView {
    pub request_id: Seq<char>,
    pub effect: DecisionEffect,
    pub policy_id: Option<Seq<char>>,
}

impl View for Decision {
    type V = DecisionView;

    open spec fn view(&self) -> DecisionView {
        DecisionView {
            request_id: self.request_id@,
            effect: self.effect,
            policy_id: opt_view(self.policy_id),
        }
    }
}

impl Clone for Decision {
    fn clone(&self) -> (r: Self)
        ensures
            r == *self,
    {
        Decision {
            request_id: self.request_id.clone(),
            effect: self.effect,
            policy_id: clone_opt_string(&self.policy_id),
        }
    }
}

/// An audit record of one security decision. `timestamp` is in milliseconds since the
/// UNIX epoch (UTC).
#[derive(Debug, PartialEq, Eq)]
pub struct SecurityEvent {
    pub event_id: String,
    pub request_id: String,
    pub subject: Subject,
    pub action: Action,
    pub resource: Resource,
    pub decision: DecisionEffect,
    pub policy_id: Option<String>,
    pub timestamp: i64,
}

pub struct SecurityEventView {
    pub event_id: Seq<char>,
    pub request_id: Seq<char>,
    pub subject: SubjectView,
    pub action: ActionView,
    pub resource: ResourceView,
    pub decision: DecisionEffect,
    pub policy_id: Option<Seq<char>>,
    pub timestamp: i64,
}

impl View for SecurityEvent {
    type V = SecurityEventView;

    open spec fn view(&self) -> SecurityEventView {
        SecurityEventView {
            event_id: self.event_id@,
            request_id: self.request_id@,
            subject: self.subject@,
            action: self.action@,
            resource: self.resource@,
            decision: self.decision,
            policy_id: opt_view(self.policy_id),
            timestamp: self.timestamp,
        }
    }
}

impl Clone for SecurityEvent {
    fn clone(&self) -> (r: Self)
        ensures
            r == *self,
    {
        SecurityEvent {
            event_id: self.event_id.clone(),
            request_id: self.request_id.clone(),
            subject: self.subject.clone(),
            action: self.action.clone(),
            resource: self.resource.clone(),
            decision: self.decision,
            policy_id: clone_opt_string(&self.policy_id),
            timestamp: self.timestamp,
        }
    }
}

} // verus!
