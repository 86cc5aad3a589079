use ai_gateway::contracts::{Action, ActionRequest, ActionType, DecisionEffect, Resource, ResourceType, Subject};
use ai_gateway::engine::decide;
use ai_gateway::policy::{evaluate, Policy};

#[test]
fn deny_matching_tool_call() {
    let request = ActionRequest {
        request_id: "req-1".into(),
        subject: Subject {
            user_id: Some("alice".into()),
            agent_id: None,
            tenant_id: Some("tenant-a".into()),
            delegation_id: None,
        },
        action: Action { action_type: ActionType::ToolInvoke, name: "db.delete".into() },
        resource: Resource { id: "prod-db".into(), resource_type: ResourceType::Tool },
    };
    let policies = vec![Policy {
        id: "deny-prod-delete".into(),
        priority: 0,
        tenant_id: Some("tenant-a".into()),
        user_id: Some("alice".into()),
        agent_id: None,
        action_type: Some(ActionType::ToolInvoke),
        action_name: Some("db.delete".into()),
        resource_id: Some("prod-db".into()),
        resource_type: Some(ResourceType::Tool),
        effect: DecisionEffect::Deny,
        enabled: true,
    }];
    assert_eq!(decide(&policies, &request).effect, DecisionEffect::Deny);
}

fn alice_delete(request_id: &str) -> ActionRequest {
    ActionRequest {
        request_id: request_id.into(),
        subject: Subject { user_id: Some("alice".into()), agent_id: None, tenant_id: None, delegation_id: None },
        action: Action { action_type: ActionType::ToolInvoke, name: "db.delete".into() },
        resource: Resource { id: "prod-db".into(), resource_type: ResourceType::Tool },
    }
}

fn allow_tools(priority: i32) -> Policy {
    Policy {
        id: "allow-tools".into(),
        priority,
        tenant_id: None,
        user_id: Some("alice".into()),
        agent_id: None,
        action_type: Some(ActionType::ToolInvoke),
        action_name: None,
        resource_id: None,
        resource_type: Some(ResourceType::Tool),
        effect: DecisionEffect::Allow,
        enabled: true,
    }
}

#[test]
fn deny_wins_over_a_matching_allow() {
    let request = alice_delete("req-2");
    let policies = vec![
        allow_tools(100),
        Policy {
            id: "deny-delete".into(),
            priority: 1,
            tenant_id: None,
            user_id: Some("alice".into()),
            agent_id: None,
            action_type: Some(ActionType::ToolInvoke),
            action_name: Some("db.delete".into()),
            resource_id: None,
            resource_type: Some(ResourceType::Tool),
            effect: DecisionEffect::Deny,
            enabled: true,
        },
    ];

    let decision = decide(&policies, &request);
    assert_eq!(decision.effect, DecisionEffect::Deny);
    assert_eq!(decision.policy_id.as_deref(), Some("deny-delete"));
}

#[test]
fn unmatched_requests_are_denied() {
    let request = ActionRequest {
        request_id: "req-3".into(),
        subject: Subject { user_id: None, agent_id: None, tenant_id: None, delegation_id: None },
        action: Action { action_type: ActionType::ModelInvoke, name: "invoke".into() },
        resource: Resource { id: "model-a".into(), resource_type: ResourceType::Model },
    };

    assert_eq!(decide(&[], &request).effect, DecisionEffect::Deny);
}

#[test]
fn matching_allow_names_its_policy_and_keeps_the_request_id() {
    let decision = decide(&[allow_tools(3)], &alice_delete("req-4"));
    assert_eq!(decision.effect, DecisionEffect::Allow);
    assert_eq!(decision.policy_id.as_deref(), Some("allow-tools"));
    assert_eq!(decision.request_id, "req-4");
}

#[test]
fn disabled_policies_never_match() {
    let mut disabled = allow_tools(3);
    disabled.enabled = false;
    assert!(!disabled.matches(&alice_delete("req-5")));
    assert!(evaluate(&[disabled], &alice_delete("req-5")).is_none());
}

#[test]
fn higher_priority_allow_is_selected() {
    let mut low = allow_tools(1);
    low.id = "low".into();
    let mut high = allow_tools(9);
    high.id = "high".into();
    let policies = [low, high];
    let selected = evaluate(&policies, &alice_delete("req-6")).unwrap();
    assert_eq!(selected.id, "high");
}
