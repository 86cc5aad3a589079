//! Guardrail rules: patterns for requests and responses, and per-Tool rules.
use vstd::prelude::*;

use crate::guardrails::api::SafetyLevel;

verus! {

#[derive(Debug, PartialEq, Eq)]
pub struct GuardrailsConfig {
    pub enabled: bool,
    pub request_rules: Vec<RequestRule>,
    pub tool_rules: Vec<ToolRule>,
    pub response_rules: Vec<ResponseRule>,
}

impl Default for GuardrailsConfig {
    fn default() -> (c: Self)
        ensures
            c.enabled,
            c.request_rules@ == Seq::<RequestRule>::empty(),
            c.tool_rules@ == Seq::<ToolRule>::empty(),
            c.response_rules@ == Seq::<ResponseRule>::empty(),
    {
        GuardrailsConfig {
            enabled: true,
            request_rules: Vec::new(),
            tool_rules: Vec::new(),
            response_rules: Vec::new(),
        }
    }
}

/// A request prompt matching `pattern` (a regular expression) is rejected.
#[derive(Debug, PartialEq, Eq)]
pub struct RequestRule {
    pub name: String,
    pub pattern: String,
    pub level: SafetyLevel,
}

/// A response content matching `pattern` (a regular expression) is rejected.
#[derive(Debug, PartialEq, Eq)]
pub struct ResponseRule {
    pub name: String,
    pub pattern: String,
    pub level: SafetyLevel,
}

/// The rule for one Tool: whether it may be called at all, and the speed (in thousandths of a
/// km/h) above which a call needs approval or fails safe.
#[derive(Debug, PartialEq, Eq)]
pub struct ToolRule {
    pub name: String,
    pub allowed: bool,
    pub max_speed_milli_kmh: Option<i64>,
    pub level: SafetyLevel,
}

/// A rule that rejects the text its pattern matches.
pub trait PatternRule {
    /// The rule's name.
    spec fn name_view(&self) -> Seq<char>;

    /// The rule's pattern.
    spec fn pattern_view(&self) -> Seq<char>;

    /// Copies of the rule's name and pattern.
    fn name_and_pattern(&self) -> (r: (String, String))
        ensures
            r.0@ == self.name_view(),
            r.1@ == self.pattern_view(),
    ;
}

impl PatternRule for RequestRule {
    open spec fn name_view(&self) -> Seq<char> {
        self.name@
    }

    open spec fn pattern_view(&self) -> Seq<char> {
        self.pattern@
    }

    fn name_and_pattern(&self) -> (r: (String, String)) {
        (self.name.clone(), self.pattern.clone())
    }
}

impl PatternRule for ResponseRule {
    open spec fn name_view(&self) -> Seq<char> {
        self.name@
    }

    open spec fn pattern_view(&self) -> Seq<char> {
        self.pattern@
    }

    fn name_and_pattern(&self) -> (r: (String, String)) {
        (self.name.clone(), self.pattern.clone())
    }
}

} // verus!
