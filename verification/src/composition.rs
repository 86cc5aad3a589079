//! Gateway capability profiles: which gateways and common controls a build includes.
//!
//! This module holds no protocol implementation; it is the boundary between build profiles
//! and the gateway runtime.
use vstd::prelude::*;

verus! {

/// An independently selectable gateway or common security capability.
#[derive(Debug, Clone, Copy, PartialEq, Eq, Structural)]
pub enum GatewayCapability {
    Llm,
    A2a,
    Mcp,
    InferenceRouting,
    SecurityS1,
}

impl GatewayCapability {
    /// The name the capability is shown under.
    pub fn display_name(self) -> (r: &'static str)
        ensures
            r@ == match self {
                GatewayCapability::Llm => "LLM Gateway"@,
                GatewayCapability::A2a => "A2A Gateway"@,
                GatewayCapability::Mcp => "MCP Gateway"@,
                GatewayCapability::InferenceRouting => "Inference Routing"@,
                GatewayCapability::SecurityS1 => "S1 common security controls"@,
            },
    {
        match self {
            GatewayCapability::Llm => "LLM Gateway",
            GatewayCapability::A2a => "A2A Gateway",
            GatewayCapability::Mcp => "MCP Gateway",
            GatewayCapability::InferenceRouting => "Inference Routing",
            GatewayCapability::SecurityS1 => "S1 common security controls",
        }
    }
}

/// Capabilities compiled into one gateway build.
#[derive(Debug, Clone, Copy, PartialEq, Eq, Structural)]
pub struct GatewayProfile {
    llm: bool,
    a2a: bool,
    mcp: bool,
    inference_routing: bool,
    security_s1: bool,
}

impl GatewayProfile {
    /// Whether the profile includes `capability`.
    pub closed spec fn includes(self, capability: GatewayCapability) -> bool {
        match capability {
            GatewayCapability::Llm => self.llm,
            GatewayCapability::A2a => self.a2a,
            GatewayCapability::Mcp => self.mcp,
            GatewayCapability::InferenceRouting => self.inference_routing,
            GatewayCapability::SecurityS1 => self.security_s1,
        }
    }

    /// Builds a profile explicitly, for embedders and configuration validation.
    pub fn new(llm: bool, a2a: bool, mcp: bool, inference_routing: bool, security_s1: bool) -> (p: Self)
        ensures
            p.includes(GatewayCapability::Llm) == llm,
            p.includes(GatewayCapability::A2a) == a2a,
            p.includes(GatewayCapability::Mcp) == mcp,
            p.includes(GatewayCapability::InferenceRouting) == inference_routing,
            p.includes(GatewayCapability::SecurityS1) == security_s1,
    {
        GatewayProfile { llm, a2a, mcp, inference_routing, security_s1 }
    }

    /// Whether the profile includes `capability`.
    pub fn supports(self, capability: GatewayCapability) -> (r: bool)
        ensures
            r == self.includes(capability),
    {
        match capability {
            GatewayCapability::Llm => self.llm,
            GatewayCapability::A2a => self.a2a,
            GatewayCapability::Mcp => self.mcp,
            GatewayCapability::InferenceRouting => self.inference_routing,
            GatewayCapability::SecurityS1 => self.security_s1,
        }
    }
}

/// Implemented by an application or runtime that exposes the profile it was built with.
pub trait GatewayProfileProvider {
    fn gateway_profile() -> GatewayProfile;
}

/// The profile of this library build. The library is built with no optional gateway
/// selected, so it includes none of them.
pub struct CompiledGatewayProfile;

impl GatewayProfileProvider for CompiledGatewayProfile {
    fn gateway_profile() -> (p: GatewayProfile)
        ensures
            forall|c: GatewayCapability| !p.includes(c),
    {
        GatewayProfile::new(false, false, false, false, false)
    }
}

/// The profile compiled into this build.
pub fn compiled_profile() -> (p: GatewayProfile)
    ensures
        forall|c: GatewayCapability| !p.includes(c),
{
    CompiledGatewayProfile::gateway_profile()
}

} // verus!
