//! Guardrails built from a configuration: regular-expression rules on prompts and responses,
//! and per-Tool rules that depend on the vehicle's speed and safety mode.
use vstd::prelude::*;

use crate::ext::{regex_compiles, regex_matches, CompiledPattern};
use crate::guardrails::api::{
    GuardrailDecision, GuardrailDecisionView, RequestContext, RequestContextView, ResponseContext,
    ResponseContextView, SafetyAction, SafetyActionView, SafetyLevel, ToolCallContext,
    ToolCallContextView, VehicleGuardrails,
};
use crate::guardrails::policy::{GuardrailsConfig, PatternRule, ToolRule};
use crate::guardrails::vehicle::{SafetyMode, VehicleState};
use crate::text::{milli_decimal, milli_decimal_text, str_eq};

verus! {

/// The (name, pattern) pairs of pattern rules.
pub open spec fn rule_pairs<R: PatternRule>(rules: Seq<R>) -> Seq<(Seq<char>, Seq<char>)> {
    rules.map_values(|r: R| (r.name_view(), r.pattern_view()))
}

/// The decision of pattern rules on `text`, looking from rule `i` on: the first rule whose
/// pattern matches rejects, naming itself after `subject`; none matching allows.
pub open spec fn pattern_decision(
    rules: Seq<(Seq<char>, Seq<char>)>,
    text: Seq<char>,
    subject: Seq<char>,
    i: int,
) -> GuardrailDecisionView
    decreases rules.len() - i,
{
    if i < 0 || i >= rules.len() {
        GuardrailDecisionView::Allow
    } else if regex_matches(rules[i].1, text) {
        GuardrailDecisionView::Reject {
            reason: subject + " matched guardrail rule '"@ + rules[i].0 + "'"@,
            action: SafetyActionView::Block,
        }
    } else {
        pattern_decision(rules, text, subject, i + 1)
    }
}

/// The name of the first rule, from `i` on, whose pattern does not compile.
pub open spec fn first_invalid(rules: Seq<(Seq<char>, Seq<char>)>, i: int) -> Option<Seq<char>>
    decreases rules.len() - i,
{
    if i < 0 || i >= rules.len() {
        None
    } else if !regex_compiles(rules[i].1) {
        Some(rules[i].0)
    } else {
        first_invalid(rules, i + 1)
    }
}

/// The first rule of a configuration whose pattern does not compile: request rules are
/// compiled before response rules.
pub open spec fn invalid_rule(config: GuardrailsConfig) -> Option<Seq<char>> {
    match first_invalid(rule_pairs(config.request_rules@), 0) {
        Some(name) => Some(name),
        None => first_invalid(rule_pairs(config.response_rules@), 0),
    }
}

/// The index of the first Tool rule, from `i` on, for the Tool `name`.
pub open spec fn first_tool_rule(rules: Seq<ToolRule>, name: Seq<char>, i: int) -> Option<int>
    decreases rules.len() - i,
{
    if i < 0 || i >= rules.len() {
        None
    } else if rules[i].name@ == name {
        Some(i)
    } else {
        first_tool_rule(rules, name, i + 1)
    }
}

/// The decision on a call of the Tool `name` in `vehicle` under Tool rules. Unknown Tools are
/// denied; so are Tools that their rule denies. Above its speed limit a Tool needs approval,
/// or fails safe when its rule is at `L4` or the vehicle is in emergency mode.
pub open spec fn tool_call_decision(rules: Seq<ToolRule>, name: Seq<char>, vehicle: VehicleState) -> GuardrailDecisionView {
    match first_tool_rule(rules, name, 0) {
        None => GuardrailDecisionView::Reject {
            reason: "tool '"@ + name + "' is not declared in guardrail policy"@,
            action: SafetyActionView::Block,
        },
        Some(i) => {
            let rule = rules[i];
            if !rule.allowed {
                GuardrailDecisionView::Reject {
                    reason: "tool '"@ + name + "' is denied by guardrail policy"@,
                    action: SafetyActionView::Block,
                }
            } else if rule.max_speed_milli_kmh is Some && vehicle.speed_milli_kmh > rule.max_speed_milli_kmh->0 {
                let max = rule.max_speed_milli_kmh->0;
                let level = if vehicle.safety_mode == SafetyMode::Emergency {
                    SafetyLevel::L4
                } else {
                    rule.level
                };
                if level == SafetyLevel::L4 {
                    GuardrailDecisionView::FailSafe {
                        reason: "tool '"@ + name + "' is not allowed above "@ + milli_decimal(max as int)
                            + " km/h; current speed "@ + milli_decimal(vehicle.speed_milli_kmh as int) + " km/h"@,
                    }
                } else {
                    GuardrailDecisionView::RequireApproval {
                        reason: "tool '"@ + name + "' requires approval above "@ + milli_decimal(max as int)
                            + " km/h; current speed "@ + milli_decimal(vehicle.speed_milli_kmh as int) + " km/h"@,
                    }
                }
            } else {
                GuardrailDecisionView::Allow
            }
        },
    }
}

/// The views of (name, pattern) pairs.
spec fn pair_views(pairs: Seq<(String, String)>) -> Seq<(Seq<char>, Seq<char>)> {
    pairs.map_values(|p: (String, String)| (p.0@, p.1@))
}

/// A rule pattern compiled once, with the rule's name.
struct CompiledRule {
    name: String,
    pattern: CompiledPattern,
}

spec fn compiled_pairs(rules: Seq<CompiledRule>) -> Seq<(Seq<char>, Seq<char>)> {
    rules.map_values(|r: CompiledRule| (r.name@, r.pattern.source()))
}

/// Why guardrails could not be built from a configuration.
#[derive(Debug)]
pub enum GuardrailsError {
    /// The pattern of the rule named `rule` is not a valid regular expression.
    InvalidPattern { rule: String, error: regex::Error },
}

/// Guardrails built from a `GuardrailsConfig`, with every rule pattern compiled.
pub struct HybridGuardrails {
    config: GuardrailsConfig,
    request_rules: Vec<CompiledRule>,
    response_rules: Vec<CompiledRule>,
}

/// Compiles the pattern of each rule, in order; stops at the first that does not compile.
fn compile_rules(rules: Vec<(String, String)>) -> (r: Result<Vec<CompiledRule>, GuardrailsError>)
    ensures
        match r {
            Ok(compiled) => first_invalid(pair_views(rules@), 0) is None
                && compiled_pairs(compiled@) == pair_views(rules@),
            Err(GuardrailsError::InvalidPattern { rule, .. }) => first_invalid(
                pair_views(rules@),
                0,
            ) == Some(rule@),
        },
{
    let ghost pairs = pair_views(rules@);
    let mut compiled: Vec<CompiledRule> = Vec::new();
    let mut i: usize = 0;
    while i < rules.len()
        invariant
            pairs == pair_views(rules@),
            i <= rules@.len(),
            first_invalid(pairs, 0) == first_invalid(pairs, i as int),
            compiled@.len() == i,
            compiled_pairs(compiled@) == pairs.take(i as int),
        decreases rules@.len() - i,
    {
        let name = &rules[i].0;
        let pattern = &rules[i].1;
        match CompiledPattern::compile(pattern) {
            Ok(p) => {
                let ghost before = compiled@;
                compiled.push(CompiledRule { name: name.clone(), pattern: p });
                assert forall|j: int| 0 <= j <= i implies #[trigger] compiled_pairs(compiled@)[j]
                    == pairs.take(i + 1)[j] by {
                    if j < i {
                        assert(compiled@[j] == before[j]);
                        assert(compiled_pairs(before)[j] == pairs.take(i as int)[j]);
                    }
                }
                assert(compiled_pairs(compiled@) =~= pairs.take(i + 1));
            },
            Err(error) => {
                return Err(GuardrailsError::InvalidPattern { rule: name.clone(), error });
            },
        }
        i += 1;
    }
    assert(pairs.take(i as int) =~= pairs);
    Ok(compiled)
}

/// The first rule of `rules` whose pattern matches `text` rejects, naming itself after
/// `subject`; none matching allows.
fn first_match(rules: &Vec<CompiledRule>, text: &str, subject: &str) -> (d: GuardrailDecision)
    ensures
        d@ == pattern_decision(compiled_pairs(rules@), text@, subject@, 0),
{
    let ghost pairs = compiled_pairs(rules@);
    let mut i: usize = 0;
    while i < rules.len()
        invariant
            pairs == compiled_pairs(rules@),
            i <= rules@.len(),
            pattern_decision(pairs, text@, subject@, 0) == pattern_decision(pairs, text@, subject@, i as int),
        decreases rules@.len() - i,
    {
        if rules[i].pattern.is_match(text) {
            let mut reason = subject.to_owned();
            reason.append(" matched guardrail rule '");
            reason.append(rules[i].name.as_str());
            reason.append("'");
            return GuardrailDecision::Reject { reason, action: SafetyAction::Block };
        }
        i += 1;
    }
    GuardrailDecision::Allow
}

/// Copies the (name, pattern) pairs of pattern rules.
fn pairs_of<R: PatternRule>(rules: &Vec<R>) -> (r: Vec<(String, String)>)
    ensures
        pair_views(r@) == rule_pairs(rules@),
{
    let mut out: Vec<(String, String)> = Vec::new();
    let mut i: usize = 0;
    while i < rules.len()
        invariant
            i <= rules@.len(),
            out@.len() == i,
            pair_views(out@) == rule_pairs(rules@).take(i as int),
        decreases rules@.len() - i,
    {
        let ghost before = out@;
        out.push(rules[i].name_and_pattern());
        assert forall|j: int| 0 <= j <= i implies #[trigger] pair_views(out@)[j] == rule_pairs(rules@).take(i + 1)[j] by {
            if j < i {
                assert(out@[j] == before[j]);
                assert(pair_views(before)[j] == rule_pairs(rules@).take(i as int)[j]);
            }
        }
        assert(pair_views(out@) =~= rule_pairs(rules@).take(i + 1));
        i += 1;
    }
    assert(rule_pairs(rules@).take(i as int) =~= rule_pairs(rules@));
    out
}

impl HybridGuardrails {
    #[verifier::type_invariant]
    spec fn compiled_from_config(self) -> bool {
        &&& compiled_pairs(self.request_rules@) == rule_pairs(self.config.request_rules@)
        &&& compiled_pairs(self.response_rules@) == rule_pairs(self.config.response_rules@)
    }

    /// The configuration these guardrails were built from.
    pub closed spec fn config(&self) -> GuardrailsConfig {
        self.config
    }

    /// Builds guardrails from a configuration, compiling every request and response rule
    /// pattern; fails on the first pattern that is not a valid regular expression.
    pub fn new(config: GuardrailsConfig) -> (r: Result<Self, GuardrailsError>)
        ensures
            r is Ok <==> invalid_rule(config) is None,
            r matches Ok(g) ==> g.config() == config,
            r matches Err(GuardrailsError::InvalidPattern { rule, .. }) ==> invalid_rule(config) == Some(rule@),
    {
        let request_rules = match compile_rules(pairs_of(&config.request_rules)) {
            Ok(rules) => rules,
            Err(e) => return Err(e),
        };
        let response_rules = match compile_rules(pairs_of(&config.response_rules)) {
            Ok(rules) => rules,
            Err(e) => return Err(e),
        };
        Ok(HybridGuardrails { config, request_rules, response_rules })
    }

    /// The first Tool rule for `tool_name`.
    fn tool_rule(&self, tool_name: &str) -> (r: Option<&ToolRule>)
        ensures
            match first_tool_rule(self.config.tool_rules@, tool_name@, 0) {
                None => r is None,
                Some(i) => r == Some(&self.config.tool_rules@[i]),
            },
    {
        let rules = &self.config.tool_rules;
        let mut i: usize = 0;
        while i < rules.len()
            invariant
                rules@ == self.config.tool_rules@,
                i <= rules@.len(),
                first_tool_rule(rules@, tool_name@, 0) == first_tool_rule(rules@, tool_name@, i as int),
            decreases rules@.len() - i,
        {
            if str_eq(rules[i].name.as_str(), tool_name) {
                return Some(&rules[i]);
            }
            i += 1;
        }
        None
    }
}

impl VehicleGuardrails for HybridGuardrails {
    open spec fn request_verdict(&self, ctx: RequestContextView, vehicle: VehicleState) -> GuardrailDecisionView {
        pattern_decision(rule_pairs(self.config().request_rules@), ctx.prompt, "request"@, 0)
    }

    open spec fn tool_call_verdict(&self, ctx: ToolCallContextView, vehicle: VehicleState) -> GuardrailDecisionView {
        tool_call_decision(self.config().tool_rules@, ctx.name, vehicle)
    }

    open spec fn response_verdict(&self, ctx: ResponseContextView, vehicle: VehicleState) -> GuardrailDecisionView {
        pattern_decision(rule_pairs(self.config().response_rules@), ctx.content, "response"@, 0)
    }

    fn check_request(&self, ctx: &RequestContext, vehicle: &VehicleState) -> (d: GuardrailDecision) {
        proof {
            use_type_invariant(self);
        }
        first_match(&self.request_rules, ctx.prompt.as_str(), "request")
    }

    fn check_tool_call(&self, ctx: &ToolCallContext, vehicle: &VehicleState) -> (d: GuardrailDecision) {
        let name = ctx.name.as_str();
        let rule = match self.tool_rule(name) {
            None => {
                let mut reason = "tool '".to_owned();
                reason.append(name);
                reason.append("' is not declared in guardrail policy");
                return GuardrailDecision::Reject { reason, action: SafetyAction::Block };
            },
            Some(rule) => rule,
        };
        if !rule.allowed {
            let mut reason = "tool '".to_owned();
            reason.append(name);
            reason.append("' is denied by guardrail policy");
            return GuardrailDecision::Reject { reason, action: SafetyAction::Block };
        }
        match rule.max_speed_milli_kmh {
            Some(max_speed) => {
                if vehicle.speed_milli_kmh > max_speed {
                    let level = if vehicle.safety_mode == SafetyMode::Emergency {
                        SafetyLevel::L4
                    } else {
                        rule.level
                    };
                    let max_text = milli_decimal_text(max_speed);
                    let speed_text = milli_decimal_text(vehicle.speed_milli_kmh);
                    let mut reason = "tool '".to_owned();
                    reason.append(name);
                    if level == SafetyLevel::L4 {
                        reason.append("' is not allowed above ");
                    } else {
                        reason.append("' requires approval above ");
                    }
                    reason.append(max_text.as_str());
                    reason.append(" km/h; current speed ");
                    reason.append(speed_text.as_str());
                    reason.append(" km/h");
                    if level == SafetyLevel::L4 {
                        return GuardrailDecision::FailSafe { reason };
                    } else {
                        return GuardrailDecision::RequireApproval { reason };
                    }
                }
            },
            None => {},
        }
        GuardrailDecision::Allow
    }

    fn check_response(&self, ctx: &ResponseContext, vehicle: &VehicleState) -> (d: GuardrailDecision) {
        proof {
            use_type_invariant(self);
        }
        first_match(&self.response_rules, ctx.content.as_str(), "response")
    }
}

proof fn lemma_pattern_allow_from(
    rules: Seq<(Seq<char>, Seq<char>)>,
    text: Seq<char>,
    subject: Seq<char>,
    i: int,
)
    requires
        0 <= i,
    ensures
        (pattern_decision(rules, text, subject, i) is Allow) <==> (forall|j: int|
            i <= j < rules.len() ==> !#[trigger] regex_matches(rules[j].1, text)),
    decreases rules.len() - i,
{
    if i < rules.len() {
        lemma_pattern_allow_from(rules, text, subject, i + 1);
        if !regex_matches(rules[i].1, text) {
            assert forall|j: int| i <= j < rules.len() && (forall|k: int|
                i + 1 <= k < rules.len() ==> !#[trigger] regex_matches(rules[k].1, text)) implies
                !#[trigger] regex_matches(rules[j].1, text) by {
                if j > i {
                }
            }
        }
    }
}

/// Pattern rules allow a text exactly when none of their patterns matches it.
proof fn lemma_rules_allow_iff_none_matches<R: PatternRule>(rules: Seq<R>, text: Seq<char>, subject: Seq<char>)
    ensures
        (pattern_decision(rule_pairs(rules), text, subject, 0) is Allow) <==> (forall|j: int|
            0 <= j < rules.len() ==> !#[trigger] regex_matches(rules[j].pattern_view(), text)),
{
    let pairs = rule_pairs(rules);
    lemma_pattern_allow_from(pairs, text, subject, 0);
    assert(pairs.len() == rules.len());
    if forall|j: int| 0 <= j < pairs.len() ==> !#[trigger] regex_matches(pairs[j].1, text) {
        assert forall|j: int| 0 <= j < rules.len() implies !#[trigger] regex_matches(
            rules[j].pattern_view(),
            text,
        ) by {
            assert(pairs[j].1 == rules[j].pattern_view());
        }
    }
    if forall|j: int| 0 <= j < rules.len() ==> !#[trigger] regex_matches(rules[j].pattern_view(), text) {
        assert forall|j: int| 0 <= j < pairs.len() implies !#[trigger] regex_matches(pairs[j].1, text) by {
            assert(pairs[j].1 == rules[j].pattern_view());
        }
    }
}

/// A request is allowed exactly when no request rule's pattern matches its prompt, whatever
/// the vehicle state.
pub proof fn lemma_request_allowed_iff_no_rule_matches(
    g: &HybridGuardrails,
    ctx: RequestContextView,
    vehicle: VehicleState,
)
    ensures
        (g.request_verdict(ctx, vehicle) is Allow) <==> (forall|j: int|
            0 <= j < g.config().request_rules@.len() ==> !#[trigger] regex_matches(
                g.config().request_rules@[j].pattern@,
                ctx.prompt,
            )),
{
    let rules = g.config().request_rules@;
    lemma_rules_allow_iff_none_matches(rules, ctx.prompt, "request"@);
    assert forall|j: int| 0 <= j < rules.len() implies regex_matches(rules[j].pattern_view(), ctx.prompt)
        == #[trigger] regex_matches(rules[j].pattern@, ctx.prompt) by {}
}

/// A response is allowed exactly when no response rule's pattern matches its content,
/// whatever the vehicle state.
pub proof fn lemma_response_allowed_iff_no_rule_matches(
    g: &HybridGuardrails,
    ctx: ResponseContextView,
    vehicle: VehicleState,
)
    ensures
        (g.response_verdict(ctx, vehicle) is Allow) <==> (forall|j: int|
            0 <= j < g.config().response_rules@.len() ==> !#[trigger] regex_matches(
                g.config().response_rules@[j].pattern@,
                ctx.content,
            )),
{
    let rules = g.config().response_rules@;
    lemma_rules_allow_iff_none_matches(rules, ctx.content, "response"@);
    assert forall|j: int| 0 <= j < rules.len() implies regex_matches(rules[j].pattern_view(), ctx.content)
        == #[trigger] regex_matches(rules[j].pattern@, ctx.content) by {}
}

proof fn lemma_no_tool_rule_from(rules: Seq<ToolRule>, name: Seq<char>, i: int)
    requires
        0 <= i,
        forall|j: int| 0 <= j < rules.len() ==> #[trigger] rules[j].name@ != name,
    ensures
        first_tool_rule(rules, name, i) is None,
    decreases rules.len() - i,
{
    if i < rules.len() {
        lemma_no_tool_rule_from(rules, name, i + 1);
    }
}

proof fn lemma_tool_rule_found_from(rules: Seq<ToolRule>, name: Seq<char>, i: int)
    requires
        0 <= i,
    ensures
        first_tool_rule(rules, name, i) matches Some(k) ==> i <= k < rules.len() && rules[k].name@
            == name,
    decreases rules.len() - i,
{
    if i < rules.len() {
        lemma_tool_rule_found_from(rules, name, i + 1);
    }
}

/// A Tool that no rule declares is rejected, whatever the vehicle state: unknown Tools are
/// denied by default.
pub proof fn lemma_undeclared_tool_is_rejected(
    rules: Seq<ToolRule>,
    name: Seq<char>,
    vehicle: VehicleState,
)
    requires
        forall|j: int| 0 <= j < rules.len() ==> #[trigger] rules[j].name@ != name,
    ensures
        tool_call_decision(rules, name, vehicle) matches GuardrailDecisionView::Reject { action, .. }
            && action is Block,
{
    lemma_no_tool_rule_from(rules, name, 0);
}

/// A Tool call is allowed only when a rule declares the Tool; and a declared, allowed Tool is
/// allowed exactly when the vehicle is at or below the rule's speed limit (or the rule has
/// none).
pub proof fn lemma_allowed_tool_calls(rules: Seq<ToolRule>, name: Seq<char>, vehicle: VehicleState)
    ensures
        tool_call_decision(rules, name, vehicle) is Allow ==> exists|k: int|
            0 <= k < rules.len() && #[trigger] rules[k].name@ == name && rules[k].allowed,
        first_tool_rule(rules, name, 0) matches Some(k) ==> (rules[k].allowed ==> ((tool_call_decision(
            rules,
            name,
            vehicle,
        ) is Allow) <==> (rules[k].max_speed_milli_kmh is None || vehicle.speed_milli_kmh
            <= rules[k].max_speed_milli_kmh->0))),
{
    lemma_tool_rule_found_from(rules, name, 0);
}

/// Above its speed limit, a declared and allowed Tool fails safe when the vehicle is in
/// emergency mode, and otherwise needs approval unless its rule is at `L4`.
pub proof fn lemma_over_speed_limit(rules: Seq<ToolRule>, name: Seq<char>, vehicle: VehicleState)
    requires
        first_tool_rule(rules, name, 0) is Some,
        rules[first_tool_rule(rules, name, 0)->0].allowed,
        rules[first_tool_rule(rules, name, 0)->0].max_speed_milli_kmh is Some,
        vehicle.speed_milli_kmh > rules[first_tool_rule(rules, name, 0)->0].max_speed_milli_kmh->0,
    ensures
        vehicle.safety_mode == SafetyMode::Emergency ==> tool_call_decision(rules, name, vehicle) is FailSafe,
        vehicle.safety_mode != SafetyMode::Emergency ==> (tool_call_decision(rules, name, vehicle) is FailSafe
            <==> rules[first_tool_rule(rules, name, 0)->0].level == SafetyLevel::L4),
        tool_call_decision(rules, name, vehicle) is FailSafe || tool_call_decision(rules, name, vehicle) is RequireApproval,
{
}

/// Slowing down never makes a Tool call less permitted: a call allowed at some speed is
/// allowed at every lower speed, all else being equal.
pub proof fn lemma_slower_is_no_stricter(
    rules: Seq<ToolRule>,
    name: Seq<char>,
    vehicle: VehicleState,
    slower: i64,
)
    requires
        slower <= vehicle.speed_milli_kmh,
        tool_call_decision(rules, name, vehicle) is Allow,
    ensures
        tool_call_decision(rules, name, VehicleState { speed_milli_kmh: slower, ..vehicle }) is Allow,
{
}

} // verus!
