use ai_gateway::adapter::{
    agent_action_for_identity, model_invoke, model_invoke_for_identity, tool_invoke_for_identity, GatewayIdentity,
};
use ai_gateway::contracts::{ActionType, DecisionEffect, ResourceType};
use ai_gateway::integration::{evaluate, evaluate_with_arguments, evaluation_at, SecurityConfig, SecurityMode};
use ai_gateway::json::JsonValue;
use ai_gateway::pipeline::{
    AgentDelegationConfig, DelegationScope, RequiredIdentity, RequiredToolApprovalConfig, RequiredToolArgumentsConfig,
    SecurityPipelineConfig,
};
use ai_gateway::policy::Policy;

#[test]
fn audit_and_shadow_do_not_interrupt_but_enforce_does() {
    let action = model_invoke("request", None, None, "model");
    assert!(evaluate(&SecurityConfig::default(), &action).is_ok());
    assert!(evaluate(&SecurityConfig { mode: SecurityMode::Shadow, ..Default::default() }, &action).is_ok());
    assert!(evaluate(&SecurityConfig { mode: SecurityMode::Enforce, ..Default::default() }, &action).is_err());
}

#[test]
fn enforce_applies_tenant_scoped_least_privilege() {
    let config = SecurityConfig {
        mode: SecurityMode::Enforce,
        pipeline: SecurityPipelineConfig {
            required_identity: Some(RequiredIdentity::user_agent_tenant()),
            policies: vec![Policy {
                id: "tenant-a-support-chat".into(),
                priority: 0,
                tenant_id: Some("tenant-a".into()),
                user_id: Some("alice".into()),
                agent_id: Some("support-agent".into()),
                action_type: Some(ActionType::ModelInvoke),
                action_name: Some("invoke".into()),
                resource_id: Some("support-chat".into()),
                resource_type: Some(ResourceType::Model),
                effect: DecisionEffect::Allow,
                enabled: true,
            }],
            ..Default::default()
        },
    };
    let allowed_identity = GatewayIdentity {
        user_id: Some("alice".into()),
        agent_id: Some("support-agent".into()),
        tenant_id: Some("tenant-a".into()),
        delegation_id: None,
    };
    let allowed = model_invoke_for_identity("request-allowed", allowed_identity, "support-chat");
    assert!(evaluate(&config, &allowed).is_ok());

    let other_tenant = model_invoke_for_identity(
        "request-other-tenant",
        GatewayIdentity {
            user_id: Some("alice".into()),
            agent_id: Some("support-agent".into()),
            tenant_id: Some("tenant-b".into()),
            delegation_id: None,
        },
        "support-chat",
    );
    assert!(evaluate(&config, &other_tenant).is_err());
}

#[test]
fn enforce_distinguishes_protocol_actions_and_applies_tool_arguments() {
    let config = SecurityConfig {
        mode: SecurityMode::Enforce,
        pipeline: SecurityPipelineConfig {
            policies: vec![
                Policy {
                    id: "allow-task-send".into(),
                    priority: 0,
                    tenant_id: None,
                    user_id: None,
                    agent_id: None,
                    action_type: Some(ActionType::AgentInvoke),
                    action_name: Some("tasks/send".into()),
                    resource_id: Some("support-agent".into()),
                    resource_type: Some(ResourceType::Agent),
                    effect: DecisionEffect::Allow,
                    enabled: true,
                },
                Policy {
                    id: "allow-ticket-tool".into(),
                    priority: 0,
                    tenant_id: None,
                    user_id: None,
                    agent_id: None,
                    action_type: Some(ActionType::ToolInvoke),
                    action_name: Some("tickets.create".into()),
                    resource_id: Some("tickets.create".into()),
                    resource_type: Some(ResourceType::Tool),
                    effect: DecisionEffect::Allow,
                    enabled: true,
                },
            ],
            required_tool_arguments: vec![RequiredToolArgumentsConfig {
                tool_name: "tickets.create".into(),
                required_fields: vec!["customerId".into()],
            }],
            ..Default::default()
        },
    };
    assert!(evaluate(
        &config,
        &agent_action_for_identity("a2a-send", GatewayIdentity::default(), "support-agent", "tasks/send"),
    )
    .is_ok());
    assert!(evaluate(
        &config,
        &agent_action_for_identity("a2a-cancel", GatewayIdentity::default(), "support-agent", "tasks/cancel"),
    )
    .is_err());

    let tool = tool_invoke_for_identity("tool-create", GatewayIdentity::default(), "tickets.create");
    let customer = JsonValue::Object(vec![("customerId".into(), JsonValue::String("c-1".into()))]);
    assert!(evaluate_with_arguments(&config, &tool, Some(&customer)).is_ok());
    assert!(evaluate_with_arguments(&config, &tool, Some(&JsonValue::Object(vec![]))).is_err());
}

fn delete_pipeline() -> SecurityPipelineConfig {
    SecurityPipelineConfig {
        policies: vec![Policy {
            id: "allow-delete".into(),
            priority: 0,
            tenant_id: None,
            user_id: None,
            agent_id: None,
            action_type: Some(ActionType::ToolInvoke),
            action_name: Some("records.delete".into()),
            resource_id: Some("records.delete".into()),
            resource_type: Some(ResourceType::Tool),
            effect: DecisionEffect::Allow,
            enabled: true,
        }],
        required_tool_approvals: vec![RequiredToolApprovalConfig { tool_name: "records.delete".into() }],
        ..Default::default()
    }
}

#[test]
fn high_risk_tool_is_fail_closed_until_an_approval_provider_is_installed() {
    let tool = tool_invoke_for_identity("tool-delete", GatewayIdentity::default(), "records.delete");
    assert!(evaluate(&SecurityConfig { mode: SecurityMode::Enforce, pipeline: delete_pipeline() }, &tool).is_err());
    assert!(evaluate(&SecurityConfig { mode: SecurityMode::Shadow, pipeline: delete_pipeline() }, &tool).is_ok());
}

#[test]
fn enforce_requires_a_verified_scoped_agent_delegation() {
    let now = chrono::Utc::now();
    let config = SecurityConfig {
        mode: SecurityMode::Enforce,
        pipeline: SecurityPipelineConfig {
            policies: vec![Policy {
                id: "allow-support-agent".into(),
                priority: 0,
                tenant_id: Some("tenant-a".into()),
                user_id: Some("alice".into()),
                agent_id: Some("support-agent".into()),
                action_type: None,
                action_name: None,
                resource_id: None,
                resource_type: None,
                effect: DecisionEffect::Allow,
                enabled: true,
            }],
            delegations: vec![AgentDelegationConfig {
                id: "delegation-alice-support-01".into(),
                user_id: "alice".into(),
                agent_id: "support-agent".into(),
                tenant_id: Some("tenant-a".into()),
                scopes: vec![DelegationScope {
                    action_type: Some(ActionType::ToolInvoke),
                    action_name: Some("tickets.create".into()),
                    resource_id: Some("tickets.create".into()),
                    resource_type: Some(ResourceType::Tool),
                }],
                not_before: Some((now - chrono::Duration::minutes(1)).timestamp_millis()),
                expires_at: Some((now + chrono::Duration::minutes(30)).timestamp_millis()),
            }],
            ..Default::default()
        },
    };
    let delegated = GatewayIdentity {
        user_id: Some("alice".into()),
        agent_id: Some("support-agent".into()),
        tenant_id: Some("tenant-a".into()),
        delegation_id: Some("delegation-alice-support-01".into()),
    };
    let customer = JsonValue::Object(vec![("customerId".into(), JsonValue::String("c-1".into()))]);
    assert!(evaluate_with_arguments(
        &config,
        &tool_invoke_for_identity("delegated-tool", delegated.clone(), "tickets.create"),
        Some(&customer),
    )
    .is_ok());

    let without_grant = GatewayIdentity { delegation_id: None, ..delegated.clone() };
    assert!(evaluate(&config, &tool_invoke_for_identity("missing-grant", without_grant, "tickets.create")).is_err());
    assert!(evaluate(&config, &model_invoke_for_identity("out-of-scope", delegated, "support-chat")).is_err());
}

#[test]
fn every_evaluation_carries_its_audit_record() {
    let action = model_invoke("request-9", Some("alice".into()), None, "model");
    let audit = SecurityConfig::default();
    let ev = evaluation_at(&audit, &action, None, 1_234, "event-9".into());
    assert_eq!(ev.mode, SecurityMode::Audit);
    assert_eq!(ev.event.event_id, "event-9");
    assert_eq!(ev.event.request_id, "request-9");
    assert_eq!(ev.event.timestamp, 1_234);
    assert_eq!(ev.event.decision, DecisionEffect::Deny);
    assert_eq!(ev.event.subject.user_id.as_deref(), Some("alice"));
    assert!(ev.answer.is_err());
    assert!(ev.shadow_warning().is_none());
    assert!(ev.outcome().is_ok());
    let shadow = SecurityConfig { mode: SecurityMode::Shadow, ..Default::default() };
    let ev = evaluation_at(&shadow, &action, None, 1_234, "event-11".into());
    assert_eq!(ev.shadow_warning(), ev.answer.as_ref().err());
    assert!(ev.shadow_warning().is_some());
    assert!(ev.outcome().is_ok());
    let enforce = SecurityConfig { mode: SecurityMode::Enforce, ..Default::default() };
    assert!(evaluation_at(&enforce, &action, None, 1_234, "event-10".into()).outcome().is_err());
}
