use ai_gateway::composition::{compiled_profile, CompiledGatewayProfile, GatewayCapability, GatewayProfile, GatewayProfileProvider};

#[test]
fn profile_matches_feature_selection() {
    // This build selects none of the optional gateways.
    let profile = CompiledGatewayProfile::gateway_profile();
    assert_eq!(profile.supports(GatewayCapability::Llm), false);
    assert_eq!(profile.supports(GatewayCapability::A2a), false);
    assert_eq!(profile.supports(GatewayCapability::Mcp), false);
    assert_eq!(profile.supports(GatewayCapability::InferenceRouting), false);
    assert_eq!(profile.supports(GatewayCapability::SecurityS1), false);
}

#[test]
fn explicit_profile_supports_what_it_selects() {
    let profile = GatewayProfile::new(true, false, true, false, true);
    assert!(profile.supports(GatewayCapability::Llm));
    assert!(!profile.supports(GatewayCapability::A2a));
    assert!(profile.supports(GatewayCapability::Mcp));
    assert!(!profile.supports(GatewayCapability::InferenceRouting));
    assert!(profile.supports(GatewayCapability::SecurityS1));
    assert_eq!(compiled_profile(), CompiledGatewayProfile::gateway_profile());
}

#[test]
fn capability_display_names() {
    assert_eq!(GatewayCapability::Llm.display_name(), "LLM Gateway");
    assert_eq!(GatewayCapability::A2a.display_name(), "A2A Gateway");
    assert_eq!(GatewayCapability::Mcp.display_name(), "MCP Gateway");
    assert_eq!(GatewayCapability::InferenceRouting.display_name(), "Inference Routing");
    assert_eq!(GatewayCapability::SecurityS1.display_name(), "S1 common security controls");
}
