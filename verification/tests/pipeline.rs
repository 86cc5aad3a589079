use ai_gateway::audit::{InMemoryAuditSink, TracingAuditSink};
use ai_gateway::contracts::{Action, ActionRequest, ActionType, DecisionEffect, Resource, ResourceType, Subject};
use ai_gateway::json::JsonValue;
use ai_gateway::pipeline::{
    AgentDelegation, AgentDelegationConfig, DelegationScope, GatewayError, PolicyAuthorizer, RequiredIdentity,
    RequiredToolApproval, RequiredToolArguments, RequiredToolArgumentsConfig, SecurityPipeline,
    SecurityPipelineConfig, StaticApproval, ToolApproval,
};
use ai_gateway::policy::Policy;

fn request() -> ActionRequest {
    ActionRequest {
        request_id: "request-1".into(),
        subject: Subject {
            user_id: Some("alice".into()),
            agent_id: Some("maintenance-agent".into()),
            tenant_id: Some("tenant-a".into()),
            delegation_id: None,
        },
        action: Action { action_type: ActionType::ToolInvoke, name: "db.delete".into() },
        resource: Resource { id: "prod-db".into(), resource_type: ResourceType::Tool },
    }
}

fn allow_policy() -> Policy {
    Policy {
        id: "allow-maintenance-delete".into(),
        priority: 0,
        tenant_id: Some("tenant-a".into()),
        user_id: Some("alice".into()),
        agent_id: Some("maintenance-agent".into()),
        action_type: Some(ActionType::ToolInvoke),
        action_name: Some("db.delete".into()),
        resource_id: Some("prod-db".into()),
        resource_type: Some(ResourceType::Tool),
        effect: DecisionEffect::Allow,
        enabled: true,
    }
}

fn record_arguments() -> JsonValue {
    JsonValue::Object(vec![("recordId".into(), JsonValue::String("42".into()))])
}

#[test]
fn pipeline_composes_identity_validation_authorization_and_capabilities() {
    let audit = InMemoryAuditSink::default();
    let mut pipeline = SecurityPipeline::new(PolicyAuthorizer::new(vec![allow_policy()]), audit)
        .add_identity_control(RequiredIdentity::user_agent_tenant())
        .add_action_control(RequiredToolArguments::new("db.delete", vec!["recordId".into()]))
        .add_action_control(ToolApproval::new("db.delete", StaticApproval(true)))
        .with_capability_broker();
    let request = request();
    let arguments = record_arguments();

    let capability = pipeline.authorize_tool(&request, &arguments, 30_000).unwrap();
    assert!(pipeline.consume_tool_capability(&capability.token, &request, &arguments).is_ok());
    assert_eq!(pipeline.audit().events()[0].decision, DecisionEffect::Allow);
}

#[test]
fn pipeline_audits_an_action_control_denial() {
    let audit = InMemoryAuditSink::default();
    let mut pipeline = SecurityPipeline::new(PolicyAuthorizer::new(vec![allow_policy()]), audit)
        .add_identity_control(RequiredIdentity::user_agent_tenant())
        .add_action_control(RequiredToolArguments::new("db.delete", vec!["recordId".into()]));
    let request = request();

    let error = pipeline.authorize(&request, Some(&JsonValue::Object(vec![]))).unwrap_err();
    assert!(matches!(
        error,
        GatewayError::DeniedByControl { ref denial, .. }
            if denial.control_id == "required-tool-arguments"
    ));
    let event = pipeline.audit().events().pop().unwrap();
    assert_eq!(event.decision, DecisionEffect::Deny);
    assert_eq!(event.policy_id.as_deref(), Some("control:required-tool-arguments"));
}

#[test]
fn yaml_facing_config_builds_the_expected_security_bricks() {
    // The same configuration as the YAML document
    // `{requiredIdentity: {user, agent, tenant}, policies: [allow-maintenance-delete],
    //   requiredToolArguments: [{toolName: db.delete, requiredFields: [recordId]}]}`.
    let config = SecurityPipelineConfig {
        required_identity: Some(RequiredIdentity { user: true, agent: true, tenant: true }),
        policies: vec![allow_policy()],
        required_tool_arguments: vec![RequiredToolArgumentsConfig {
            tool_name: "db.delete".into(),
            required_fields: vec!["recordId".into()],
        }],
        ..Default::default()
    };
    let audit = InMemoryAuditSink::default();
    let mut pipeline = config.build(audit);

    assert!(pipeline.authorize(&request(), Some(&record_arguments())).is_ok());
}

#[test]
fn missing_identity_is_refused_before_authorization() {
    let mut pipeline = SecurityPipeline::new(PolicyAuthorizer::new(vec![allow_policy()]), InMemoryAuditSink::default())
        .add_identity_control(RequiredIdentity::user_agent_tenant());
    let mut anonymous = request();
    anonymous.subject.user_id = None;
    anonymous.subject.tenant_id = None;
    match pipeline.authorize_at(&anonymous, None, 5, "event-1".into()) {
        Err(GatewayError::DeniedByControl { decision, denial }) => {
            assert_eq!(denial.control_id, "required-identity");
            assert_eq!(denial.reason, "missing required identity attributes: userId, tenantId");
            assert_eq!(decision.effect, DecisionEffect::Deny);
            assert_eq!(decision.policy_id.as_deref(), Some("control:required-identity"));
        },
        other => panic!("expected a control denial, got {other:?}"),
    }
    let events = pipeline.audit().events();
    assert_eq!(events.len(), 1);
    assert_eq!(events[0].event_id, "event-1");
    assert_eq!(events[0].timestamp, 5);
}

#[test]
fn missing_argument_reason_lists_the_fields() {
    let mut pipeline = SecurityPipeline::new(PolicyAuthorizer::new(vec![allow_policy()]), InMemoryAuditSink::default())
        .add_action_control(RequiredToolArguments::new("db.delete", vec!["recordId".into(), "reason".into()]));
    let partial = JsonValue::Object(vec![("recordId".into(), JsonValue::Null)]);
    match pipeline.authorize(&request(), Some(&partial)) {
        Err(GatewayError::DeniedByControl { denial, .. }) => {
            assert_eq!(denial.reason, "tool 'db.delete' is missing required arguments: recordId, reason");
        },
        other => panic!("expected a control denial, got {other:?}"),
    }
    match pipeline.authorize(&request(), None) {
        Err(GatewayError::DeniedByControl { denial, .. }) => {
            assert_eq!(denial.reason, "tool 'db.delete' requires an object argument payload");
        },
        other => panic!("expected a control denial, got {other:?}"),
    }
}

#[test]
fn policy_denial_is_returned_as_denied() {
    let mut pipeline = SecurityPipeline::new(PolicyAuthorizer::new(vec![]), InMemoryAuditSink::default());
    assert!(matches!(pipeline.authorize(&request(), None), Err(GatewayError::Denied(_))));
}

#[test]
fn refused_approval_denies_the_tool() {
    let mut pipeline = SecurityPipeline::new(PolicyAuthorizer::new(vec![allow_policy()]), InMemoryAuditSink::default())
        .add_action_control(ToolApproval::new("db.delete", StaticApproval(false)));
    match pipeline.authorize(&request(), Some(&record_arguments())) {
        Err(GatewayError::DeniedByControl { denial, .. }) => assert_eq!(denial.control_id, "tool-approval"),
        other => panic!("expected a control denial, got {other:?}"),
    }
}

#[test]
fn required_approval_fails_closed() {
    let mut pipeline = SecurityPipeline::new(PolicyAuthorizer::new(vec![allow_policy()]), InMemoryAuditSink::default())
        .add_action_control(RequiredToolApproval::new("db.delete"));
    assert!(matches!(pipeline.authorize(&request(), None), Err(GatewayError::DeniedByControl { .. })));
}

#[test]
fn capability_needs_a_broker() {
    let mut pipeline = SecurityPipeline::new(PolicyAuthorizer::new(vec![allow_policy()]), InMemoryAuditSink::default());
    assert_eq!(
        pipeline.authorize_tool(&request(), &record_arguments(), 30_000),
        Err(GatewayError::CapabilityUnavailable)
    );
}

#[test]
fn delegation_must_be_named_by_the_request() {
    let grant = AgentDelegationConfig {
        id: "grant-1".into(),
        user_id: "alice".into(),
        agent_id: "maintenance-agent".into(),
        tenant_id: Some("tenant-a".into()),
        scopes: vec![DelegationScope {
            action_type: Some(ActionType::ToolInvoke),
            action_name: Some("db.delete".into()),
            resource_id: None,
            resource_type: None,
        }],
        not_before: None,
        expires_at: None,
    };
    let mut pipeline = SecurityPipeline::new(PolicyAuthorizer::new(vec![allow_policy()]), InMemoryAuditSink::default())
        .add_identity_control(AgentDelegation::new(vec![grant]));
    assert!(matches!(pipeline.authorize(&request(), None), Err(GatewayError::DeniedByControl { .. })));
    let mut delegated = request();
    delegated.subject.delegation_id = Some("grant-1".into());
    assert!(pipeline.authorize(&delegated, None).is_ok());
}

#[test]
fn tracing_sink_holds_records_until_taken() {
    let mut pipeline = SecurityPipeline::new(PolicyAuthorizer::new(vec![allow_policy()]), TracingAuditSink::new());
    assert!(pipeline.authorize(&request(), None).is_ok());
    assert!(pipeline.authorize(&ActionRequest { request_id: "request-2".into(), ..request() }, None).is_ok());
    let pending = pipeline.audit().pending_events();
    assert_eq!(pending.len(), 2);
    assert_eq!((pending[0].request_id.as_str(), pending[1].request_id.as_str()), ("request-1", "request-2"));
    let mut sink = TracingAuditSink::default();
    let event = pending[0].clone();
    ai_gateway::audit::AuditSink::record(&mut sink, event);
    assert_eq!(sink.take_pending().len(), 1);
    assert!(sink.take_pending().is_empty());
}
