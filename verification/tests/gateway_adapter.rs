use ai_gateway::adapter::{tool_invoke_for_identity, CapabilityError, GatewayIdentity, SecurityGateway};
use ai_gateway::audit::InMemoryAuditSink;
use ai_gateway::contracts::{Action, ActionRequest, ActionType, DecisionEffect, Resource, ResourceType};
use ai_gateway::json::JsonValue;
use ai_gateway::pipeline::GatewayError;
use ai_gateway::policy::Policy;

fn allow_delete_policy() -> Policy {
    Policy {
        id: "allow-maintenance-delete".into(),
        priority: 0,
        tenant_id: Some("tenant-a".into()),
        user_id: Some("alice".into()),
        agent_id: Some("maintenance-agent".into()),
        action_type: Some(ActionType::ToolInvoke),
        action_name: Some("db.delete".into()),
        resource_id: Some("prod-db".into()),
        resource_type: Some(ResourceType::Tool),
        effect: DecisionEffect::Allow,
        enabled: true,
    }
}

fn delete_request() -> ActionRequest {
    ActionRequest {
        request_id: "request-1".into(),
        subject: GatewayIdentity {
            user_id: Some("alice".into()),
            agent_id: Some("maintenance-agent".into()),
            tenant_id: Some("tenant-a".into()),
            delegation_id: None,
        }
        .into(),
        action: Action { action_type: ActionType::ToolInvoke, name: "db.delete".into() },
        resource: Resource { id: "prod-db".into(), resource_type: ResourceType::Tool },
    }
}

fn record_arguments(id: &str) -> JsonValue {
    JsonValue::Object(vec![("recordId".into(), JsonValue::String(id.into()))])
}

const THIRTY_SECONDS_MS: i64 = 30_000;

#[test]
fn capability_is_bound_to_the_authorized_tool_call_and_audited() {
    let audit = InMemoryAuditSink::default();
    let mut gateway = SecurityGateway::new(vec![allow_delete_policy()], audit);
    let request = delete_request();
    let arguments = record_arguments("42");

    let capability = gateway.authorize_tool(&request, &arguments, THIRTY_SECONDS_MS).unwrap();
    assert!(gateway.consume_tool_capability(&capability.token, &request, &arguments).is_ok());
    assert_eq!(
        gateway.consume_tool_capability(&capability.token, &request, &arguments),
        Err(GatewayError::Capability(CapabilityError::NotFound))
    );

    let events = gateway.audit().events();
    assert_eq!(events.len(), 1);
    assert_eq!(events[0].decision, DecisionEffect::Allow);
    assert_eq!(events[0].subject.tenant_id.as_deref(), Some("tenant-a"));
}

#[test]
fn changed_arguments_cannot_consume_a_capability() {
    let audit = InMemoryAuditSink::default();
    let mut gateway = SecurityGateway::new(vec![allow_delete_policy()], audit);
    let request = delete_request();
    let capability = gateway.authorize_tool(&request, &record_arguments("42"), THIRTY_SECONDS_MS).unwrap();

    assert_eq!(
        gateway.consume_tool_capability(&capability.token, &request, &record_arguments("43")),
        Err(GatewayError::Capability(CapabilityError::ArgumentsMismatch))
    );
}

#[test]
fn unmatched_tool_request_is_denied_and_audited() {
    let audit = InMemoryAuditSink::default();
    let mut gateway = SecurityGateway::new(vec![allow_delete_policy()], audit);
    let mut request = delete_request();
    request.subject.tenant_id = Some("tenant-b".into());

    assert!(matches!(
        gateway.authorize_tool(&request, &JsonValue::Object(vec![]), THIRTY_SECONDS_MS),
        Err(GatewayError::Denied(_))
    ));
    assert_eq!(gateway.audit().events()[0].decision, DecisionEffect::Deny);
}

#[test]
fn capability_is_single_use_expires_and_is_bound_to_its_request() {
    let mut gateway = SecurityGateway::new(vec![allow_delete_policy()], InMemoryAuditSink::default());
    let request = delete_request();
    let arguments = record_arguments("42");
    let capability = gateway
        .authorize_tool_at(&request, &arguments, 100, 1_000, "event-1".into(), "token-1".into())
        .unwrap();
    assert_eq!(capability.token, "token-1");
    assert_eq!(capability.expires_at, 1_100);
    let mut other = delete_request();
    other.request_id = "request-2".into();
    assert_eq!(
        gateway.consume_tool_capability_at("token-1", &other, &arguments, 1_050),
        Err(GatewayError::Capability(CapabilityError::RequestMismatch))
    );
    // A failed attempt still uses the capability up.
    assert_eq!(
        gateway.consume_tool_capability_at("token-1", &request, &arguments, 1_050),
        Err(GatewayError::Capability(CapabilityError::NotFound))
    );
    gateway
        .authorize_tool_at(&request, &arguments, 100, 1_000, "event-2".into(), "token-2".into())
        .unwrap();
    assert_eq!(
        gateway.consume_tool_capability_at("token-2", &request, &arguments, 1_100),
        Err(GatewayError::Capability(CapabilityError::Expired))
    );
}

#[test]
fn arguments_hash_is_the_sha256_of_the_json_text() {
    let mut gateway = SecurityGateway::new(vec![allow_delete_policy()], InMemoryAuditSink::default());
    let capability = gateway
        .authorize_tool_at(&delete_request(), &JsonValue::Object(vec![]), 10, 0, "e".into(), "t".into())
        .unwrap();
    // SHA-256 of the two bytes `{}`.
    assert_eq!(capability.arguments_hash, "44136fa355b3678a1146ad16f7e8649e94fb4fc21fe77e8310c060f61caaff8a");
}

#[test]
fn identity_becomes_the_request_subject() {
    let request = tool_invoke_for_identity(
        "r",
        GatewayIdentity { user_id: Some("u".into()), agent_id: None, tenant_id: Some("t".into()), delegation_id: None },
        "tickets.create",
    );
    assert_eq!(request.subject.user_id.as_deref(), Some("u"));
    assert_eq!(request.subject.tenant_id.as_deref(), Some("t"));
    assert_eq!(request.action.name, "tickets.create");
    assert_eq!(request.resource.id, "tickets.create");
    assert_eq!(request.resource.resource_type, ResourceType::Tool);
}

#[test]
fn decimal_arguments_hash_as_their_json_text() {
    let mut gateway = SecurityGateway::new(vec![allow_delete_policy()], InMemoryAuditSink::default());
    let arguments = JsonValue::Object(vec![("torque".into(), JsonValue::Decimal("0.1".into()))]);
    let capability = gateway
        .authorize_tool_at(&delete_request(), &arguments, 10, 0, "e".into(), "t".into())
        .unwrap();
    // SHA-256 of `{"torque":0.1}`.
    assert_eq!(capability.arguments_hash, "ef77e729eebc826415523de431fc9854ea501c62499b071e330bf7d5c359d1c3");
}
