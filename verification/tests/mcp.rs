use ai_gateway::contracts::{ActionType, DecisionEffect, ResourceType};
use ai_gateway::integration::{SecurityConfig, SecurityMode};
use ai_gateway::json::JsonValue;
use ai_gateway::mcp::{
    audit_request, audit_request_at, enforce_tool_call, enforce_tool_call_at, error_message, identity_from_claims, McpRequest, McpRequestKind, UpstreamError,
};
use ai_gateway::pipeline::{ControlDenial, GatewayError, RequiredToolArgumentsConfig, SecurityPipelineConfig};
use ai_gateway::adapter::CapabilityError;
use ai_gateway::contracts::Decision;
use ai_gateway::policy::Policy;

fn claims() -> Vec<(String, JsonValue)> {
    vec![
        ("user_id".into(), JsonValue::String("alice".into())),
        ("sub".into(), JsonValue::Number(7)),
        ("agentId".into(), JsonValue::String("helper".into())),
        ("tenant_id".into(), JsonValue::String("tenant-a".into())),
        ("tenantId".into(), JsonValue::String("tenant-z".into())),
    ]
}

#[test]
fn identity_comes_from_string_claims_in_order_of_preference() {
    let identity = identity_from_claims(Some(&claims()));
    assert_eq!(identity.user_id.as_deref(), Some("alice"));
    assert_eq!(identity.agent_id.as_deref(), Some("helper"));
    assert_eq!(identity.tenant_id.as_deref(), Some("tenant-a"));
    assert_eq!(identity.delegation_id, None);
    let anonymous = identity_from_claims(None);
    assert_eq!(anonymous.user_id, None);
    assert_eq!(anonymous.tenant_id, None);
}

fn ticket_policy() -> Policy {
    Policy {
        id: "allow-ticket-tool".into(),
        priority: 0,
        tenant_id: None,
        user_id: None,
        agent_id: None,
        action_type: Some(ActionType::ToolInvoke),
        action_name: Some("tickets.create".into()),
        resource_id: Some("tickets.create".into()),
        resource_type: Some(ResourceType::Tool),
        effect: DecisionEffect::Allow,
        enabled: true,
    }
}

fn call(name: &str, arguments: Option<JsonValue>) -> McpRequest {
    McpRequest { id: "7".into(), kind: McpRequestKind::CallTool { name: name.into(), arguments } }
}

#[test]
fn tool_calls_are_enforced_and_other_requests_pass() {
    let config = SecurityPipelineConfig {
        policies: vec![ticket_policy()],
        required_tool_arguments: vec![RequiredToolArgumentsConfig {
            tool_name: "tickets.create".into(),
            required_fields: vec!["customerId".into()],
        }],
        ..Default::default()
    };
    let customer = JsonValue::Object(vec![("customerId".into(), JsonValue::String("c-1".into()))]);
    assert_eq!(enforce_tool_call(&config, &call("tickets.create", Some(customer)), None), Ok(()));
    assert_eq!(
        enforce_tool_call(&config, &call("tickets.create", None), None),
        Err(UpstreamError::InvalidRequest(
            "security control 'required-tool-arguments' denied request: tool 'tickets.create' is missing required arguments: customerId".into()
        ))
    );
    assert_eq!(
        enforce_tool_call(&config, &call("records.delete", None), None),
        Err(UpstreamError::InvalidRequest("security policy denied request".into()))
    );
    let list = McpRequest { id: "8".into(), kind: McpRequestKind::ListTools };
    assert_eq!(enforce_tool_call(&config, &list, None), Ok(()));
}

#[test]
fn audit_request_only_interrupts_in_enforce_mode() {
    let pipeline = || SecurityPipelineConfig { policies: vec![ticket_policy()], ..Default::default() };
    let list = McpRequest { id: "9".into(), kind: McpRequestKind::ListTools };
    let audit = SecurityConfig { mode: SecurityMode::Audit, pipeline: pipeline() };
    assert_eq!(audit_request(&audit, &list, None, "server-1"), Ok(()));
    let enforce = SecurityConfig { mode: SecurityMode::Enforce, pipeline: pipeline() };
    assert!(audit_request(&enforce, &list, None, "server-1").is_err());
    assert_eq!(audit_request(&enforce, &call("tickets.create", None), None, "server-1"), Ok(()));
    let other = McpRequest { id: "10".into(), kind: McpRequestKind::Other };
    assert_eq!(audit_request(&enforce, &other, None, "server-1"), Ok(()));
}

#[test]
fn error_messages() {
    let by_policy = GatewayError::Denied(Decision {
        request_id: "r".into(),
        effect: DecisionEffect::Deny,
        policy_id: Some("deny-all".into()),
    });
    assert_eq!(error_message(by_policy), "security policy denied request by 'deny-all'");
    let by_control = GatewayError::DeniedByControl {
        decision: Decision { request_id: "r".into(), effect: DecisionEffect::Deny, policy_id: None },
        denial: ControlDenial { control_id: "tool-approval".into(), reason: "no".into() },
    };
    assert_eq!(error_message(by_control), "security control 'tool-approval' denied request: no");
    assert_eq!(
        error_message(GatewayError::Capability(CapabilityError::Expired)),
        "capability validation failed: Expired"
    );
    assert_eq!(error_message(GatewayError::CapabilityUnavailable), "capability broker is not configured");
}

#[test]
fn tool_call_decisions_are_recorded() {
    let config = SecurityPipelineConfig { policies: vec![ticket_policy()], ..Default::default() };
    let (result, event) = enforce_tool_call_at(&config, &call("tickets.create", None), None, 50, "ev-1".into());
    assert_eq!(result, Ok(()));
    let event = event.unwrap();
    assert_eq!((event.event_id.as_str(), event.timestamp, event.decision), ("ev-1", 50, DecisionEffect::Allow));
    assert_eq!(event.policy_id.as_deref(), Some("allow-ticket-tool"));
    let list = McpRequest { id: "8".into(), kind: McpRequestKind::ListTools };
    let (result, event) = enforce_tool_call_at(&config, &list, None, 50, "ev-2".into());
    assert_eq!(result, Ok(()));
    assert!(event.is_none());
    let shadow = SecurityConfig { mode: SecurityMode::Shadow, pipeline: SecurityPipelineConfig { policies: vec![ticket_policy()], ..Default::default() } };
    let (result, ev) = audit_request_at(&shadow, &list, None, "server-1", 60, "ev-3".into());
    assert_eq!(result, Ok(()));
    let ev = ev.unwrap();
    assert!(ev.answer.is_err());
    assert_eq!(ev.event.decision, DecisionEffect::Deny);
    assert_eq!(ev.event.resource.id, "server-1");
}
