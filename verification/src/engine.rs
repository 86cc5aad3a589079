//! The security engine: fail-closed ALLOW / DENY decisions from local policies.
use vstd::prelude::*;

use crate::contracts::{ActionRequest, ActionRequestView, Decision, DecisionEffect, DecisionView};
use crate::policy::{evaluate, evaluate_spec, has_candidate, Policy};

verus! {

/// The decision for a request: the deciding policy's effect and id, or a fail-closed deny
/// with no policy when none matches.
pub open spec fn decide_spec(ps: Seq<Policy>, r: ActionRequestView) -> DecisionView {
    match evaluate_spec(ps, r) {
        Some(k) => DecisionView {
            request_id: r.request_id,
            effect: ps[k].effect,
            policy_id: Some(ps[k].id@),
        },
        None => DecisionView { request_id: r.request_id, effect: DecisionEffect::Deny, policy_id: None },
    }
}

pub fn decide(policies: &[Policy], request: &ActionRequest) -> (d: Decision)
    ensures
        d@ == decide_spec(policies@, request@),
{
    match evaluate(policies, request) {
        Some(policy) => Decision {
            request_id: request.request_id.clone(),
            effect: policy.effect,
            policy_id: Some(policy.id.clone()),
        },
        None => Decision {
            request_id: request.request_id.clone(),
            // Protected resources are fail-closed unless a policy explicitly allows them.
            effect: DecisionEffect::Deny,
            policy_id: None,
        },
    }
}

/// Fail-closed: a request is allowed exactly when some enabled allow policy matches it and no
/// enabled deny policy does.
pub proof fn lemma_allow_iff_matching_allow_and_no_deny(ps: Seq<Policy>, r: ActionRequestView)
    ensures
        decide_spec(ps, r).effect == DecisionEffect::Allow <==> (has_candidate(
            ps,
            r,
            DecisionEffect::Allow,
        ) && !has_candidate(ps, r, DecisionEffect::Deny)),
{
    if has_candidate(ps, r, DecisionEffect::Deny) {
        crate::policy::lemma_deny_overrides(ps, r);
    } else if has_candidate(ps, r, DecisionEffect::Allow) {
        crate::policy::lemma_decider_has_highest_priority(ps, r);
    }
}

/// Every decision answers the request it was made for.
pub proof fn lemma_decision_keeps_request_id(ps: Seq<Policy>, r: ActionRequestView)
    ensures
        decide_spec(ps, r).request_id == r.request_id,
{
}

/// A deny without a policy id is the fail-closed default: it comes exactly when no policy
/// decides the request.
pub proof fn lemma_default_deny_has_no_policy(ps: Seq<Policy>, r: ActionRequestView)
    ensures
        decide_spec(ps, r).policy_id is None <==> evaluate_spec(ps, r) is None,
        evaluate_spec(ps, r) is None ==> decide_spec(ps, r).effect == DecisionEffect::Deny,
{
}

} // verus!
