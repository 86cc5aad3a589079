//! Tenant/user/agent/action/resource policy matching with deny override and priority.
use vstd::prelude::*;

use crate::contracts::{
    clone_opt_string, opt_string_is, opt_view, ActionRequest, ActionRequestView, ActionType,
    DecisionEffect, ResourceType,
};

verus! {

/// One authorization rule. Every `Some` field constrains the request; `None` is a wildcard.
#[derive(Debug, PartialEq, Eq)]
pub struct Policy {
    pub id: String,
    pub priority: i32,
    pub tenant_id: Option<String>,
    pub user_id: Option<String>,
    pub agent_id: Option<String>,
    pub action_type: Option<ActionType>,
    pub action_name: Option<String>,
    pub resource_id: Option<String>,
    pub resource_type: Option<ResourceType>,
    pub effect: DecisionEffect,
    pub enabled: bool,
}

pub struct PolicyView {
    pub id: Seq<char>,
    pub priority: i32,
    pub tenant_id: Option<Seq<char>>,
    pub user_id: Option<Seq<char>>,
    pub agent_id: Option<Seq<char>>,
    pub action_type: Option<ActionType>,
    pub action_name: Option<Seq<char>>,
    pub resource_id: Option<Seq<char>>,
    pub resource_type: Option<ResourceType>,
    pub effect: DecisionEffect,
    pub enabled: bool,
}

impl View for Policy {
    type V = PolicyView;

    open spec fn view(&self) -> PolicyView {
        PolicyView {
            id: self.id@,
            priority: self.priority,
            tenant_id: opt_view(self.tenant_id),
            user_id: opt_view(self.user_id),
            agent_id: opt_view(self.agent_id),
            action_type: self.action_type,
            action_name: opt_view(self.action_name),
            resource_id: opt_view(self.resource_id),
            resource_type: self.resource_type,
            effect: self.effect,
            enabled: self.enabled,
        }
    }
}

impl Clone for Policy {
    fn clone(&self) -> (r: Self)
        ensures
            r == *self,
    {
        Policy {
            id: self.id.clone(),
            priority: self.priority,
            tenant_id: clone_opt_string(&self.tenant_id),
            user_id: clone_opt_string(&self.user_id),
            agent_id: clone_opt_string(&self.agent_id),
            action_type: self.action_type,
            action_name: clone_opt_string(&self.action_name),
            resource_id: clone_opt_string(&self.resource_id),
            resource_type: self.resource_type,
            effect: self.effect,
            enabled: self.enabled,
        }
    }
}

/// A present constraint must equal the request's value; an absent constraint matches anything.
pub open spec fn constraint_holds<T>(constraint: Option<T>, value: Option<T>) -> bool {
    constraint is None || value == constraint
}

/// When an enabled policy applies to a request.
pub open spec fn policy_matches(p: PolicyView, r: ActionRequestView) -> bool {
    &&& p.enabled
    &&& constraint_holds(p.tenant_id, r.subject.tenant_id)
    &&& constraint_holds(p.user_id, r.subject.user_id)
    &&& constraint_holds(p.agent_id, r.subject.agent_id)
    &&& constraint_holds(p.action_type, Some(r.action.action_type))
    &&& constraint_holds(p.action_name, Some(r.action.name))
    &&& constraint_holds(p.resource_id, Some(r.resource.id))
    &&& constraint_holds(p.resource_type, Some(r.resource.resource_type))
}

fn string_constraint_holds(constraint: &Option<String>, value: &Option<String>) -> (r: bool)
    ensures
        r == constraint_holds(opt_view(*constraint), opt_view(*value)),
{
    match constraint {
        Some(c) => opt_string_is(value, c),
        None => true,
    }
}

impl Policy {
    pub fn matches(&self, request: &ActionRequest) -> (b: bool)
        ensures
            b == policy_matches(self@, request@),
    {
        if !self.enabled {
            return false;
        }
        if !string_constraint_holds(&self.tenant_id, &request.subject.tenant_id) {
            return false;
        }
        if !string_constraint_holds(&self.user_id, &request.subject.user_id) {
            return false;
        }
        if !string_constraint_holds(&self.agent_id, &request.subject.agent_id) {
            return false;
        }
        match self.action_type {
            Some(t) => {
                if request.action.action_type != t {
                    return false;
                }
            },
            None => {},
        }
        match &self.action_name {
            Some(n) => {
                if request.action.name != *n {
                    return false;
                }
            },
            None => {},
        }
        match &self.resource_id {
            Some(id) => {
                if request.resource.id != *id {
                    return false;
                }
            },
            None => {},
        }
        match self.resource_type {
            Some(t) => {
                if request.resource.resource_type != t {
                    return false;
                }
            },
            None => {},
        }
        true
    }
}

/// A policy that competes for a request under a given effect.
pub open spec fn is_candidate(p: Policy, r: ActionRequestView, effect: DecisionEffect) -> bool {
    p.effect == effect && policy_matches(p@, r)
}

pub open spec fn has_candidate(
    ps: Seq<Policy>,
    r: ActionRequestView,
    effect: DecisionEffect,
) -> bool {
    exists|i: int| 0 <= i < ps.len() && #[trigger] is_candidate(ps[i], r, effect)
}

/// Index `k` holds the highest-priority candidate of `effect`, and no earlier candidate has
/// that priority (declaration order breaks ties).
pub open spec fn is_selected(
    ps: Seq<Policy>,
    r: ActionRequestView,
    effect: DecisionEffect,
    k: int,
) -> bool {
    &&& 0 <= k < ps.len()
    &&& is_candidate(ps[k], r, effect)
    &&& forall|j: int|
        0 <= j < ps.len() && #[trigger] is_candidate(ps[j], r, effect) ==> ps[j].priority
            <= ps[k].priority
    &&& forall|j: int|
        0 <= j < k && #[trigger] is_candidate(ps[j], r, effect) ==> ps[j].priority
            < ps[k].priority
}

pub open spec fn selected_index(
    ps: Seq<Policy>,
    r: ActionRequestView,
    effect: DecisionEffect,
) -> Option<int> {
    if has_candidate(ps, r, effect) {
        Some(choose|k: int| is_selected(ps, r, effect, k))
    } else {
        None
    }
}

/// The policy that decides a request: the selected deny if any deny matches, else the
/// selected allow, else none.
pub open spec fn evaluate_spec(ps: Seq<Policy>, r: ActionRequestView) -> Option<int> {
    if has_candidate(ps, r, DecisionEffect::Deny) {
        selected_index(ps, r, DecisionEffect::Deny)
    } else {
        selected_index(ps, r, DecisionEffect::Allow)
    }
}

/// At most one index is selected for an effect.
pub proof fn lemma_selected_unique(
    ps: Seq<Policy>,
    r: ActionRequestView,
    effect: DecisionEffect,
    k1: int,
    k2: int,
)
    requires
        is_selected(ps, r, effect, k1),
        is_selected(ps, r, effect, k2),
    ensures
        k1 == k2,
{
    assert(is_candidate(ps[k1], r, effect));
    assert(is_candidate(ps[k2], r, effect));
    if k1 < k2 {
        assert(ps[k1].priority < ps[k2].priority);
        assert(ps[k1].priority >= ps[k2].priority);
    } else if k2 < k1 {
        assert(ps[k2].priority < ps[k1].priority);
        assert(ps[k2].priority >= ps[k1].priority);
    }
}

/// Whenever some policy of an effect matches, one of them is selected.
pub proof fn lemma_selected_exists(ps: Seq<Policy>, r: ActionRequestView, effect: DecisionEffect)
    requires
        has_candidate(ps, r, effect),
    ensures
        selected_index(ps, r, effect) matches Some(k) && is_selected(ps, r, effect, k),
    decreases ps.len(),
{
    let last = ps.len() - 1;
    let prefix = ps.drop_last();
    if has_candidate(prefix, r, effect) {
        lemma_selected_exists(prefix, r, effect);
        let k = selected_index(prefix, r, effect).unwrap();
        assert(is_selected(prefix, r, effect, k));
        if is_candidate(ps[last], r, effect) && ps[last].priority > ps[k].priority {
            assert(is_selected(ps, r, effect, last)) by {
                assert forall|j: int|
                    0 <= j < ps.len() && #[trigger] is_candidate(ps[j], r, effect) implies ps[j].priority
                    <= ps[last].priority by {
                    if j < last {
                        assert(prefix[j] == ps[j]);
                        assert(is_candidate(prefix[j], r, effect));
                    }
                }
                assert forall|j: int|
                    0 <= j < last && #[trigger] is_candidate(ps[j], r, effect) implies ps[j].priority
                    < ps[last].priority by {
                    assert(prefix[j] == ps[j]);
                    assert(is_candidate(prefix[j], r, effect));
                }
            }
        } else {
            assert(is_selected(ps, r, effect, k)) by {
                assert forall|j: int|
                    0 <= j < ps.len() && #[trigger] is_candidate(ps[j], r, effect) implies ps[j].priority
                    <= ps[k].priority by {
                    if j < last {
                        assert(prefix[j] == ps[j]);
                        assert(is_candidate(prefix[j], r, effect));
                    }
                }
                assert forall|j: int|
                    0 <= j < k && #[trigger] is_candidate(ps[j], r, effect) implies ps[j].priority
                    < ps[k].priority by {
                    assert(prefix[j] == ps[j]);
                    assert(is_candidate(prefix[j], r, effect));
                }
            }
        }
    } else {
        let i = choose|i: int| 0 <= i < ps.len() && #[trigger] is_candidate(ps[i], r, effect);
        if i < last {
            assert(prefix[i] == ps[i]);
            assert(is_candidate(prefix[i], r, effect));
            assert(false);
        }
        assert(is_selected(ps, r, effect, last)) by {
            assert forall|j: int|
                0 <= j < last implies !#[trigger] is_candidate(ps[j], r, effect) by {
                assert(prefix[j] == ps[j]);
                if is_candidate(ps[j], r, effect) {
                    assert(is_candidate(prefix[j], r, effect));
                }
            }
        }
    }
    let k = choose|k: int| is_selected(ps, r, effect, k);
    assert(is_selected(ps, r, effect, k));
}

fn highest_priority(policies: &[Policy], request: &ActionRequest, effect: DecisionEffect) -> (r:
    Option<usize>)
    ensures
        r == (match selected_index(policies@, request@, effect) {
            Some(k) => Some(k as usize),
            None => None::<usize>,
        }),
        r is None <==> !has_candidate(policies@, request@, effect),
        r matches Some(k) ==> k < policies@.len() && is_selected(policies@, request@, effect, k as int),
{
    let ghost ps = policies@;
    let ghost rv = request@;
    let mut selected: Option<usize> = None;
    let mut i: usize = 0;
    while i < policies.len()
        invariant
            ps == policies@,
            rv == request@,
            i <= ps.len(),
            selected is None ==> forall|j: int|
                0 <= j < i ==> !#[trigger] is_candidate(ps[j], rv, effect),
            selected matches Some(k) ==> {
                &&& k < i
                &&& is_candidate(ps[k as int], rv, effect)
                &&& forall|j: int|
                    0 <= j < i && #[trigger] is_candidate(ps[j], rv, effect) ==> ps[j].priority
                        <= ps[k as int].priority
                &&& forall|j: int|
                    0 <= j < k && #[trigger] is_candidate(ps[j], rv, effect) ==> ps[j].priority
                        < ps[k as int].priority
            },
        decreases ps.len() - i,
    {
        let p = &policies[i];
        if p.effect == effect && p.matches(request) {
            assert(is_candidate(ps[i as int], rv, effect));
            match selected {
                Some(c) => {
                    if policies[c].priority >= p.priority {
                    } else {
                        selected = Some(i);
                    }
                },
                None => {
                    selected = Some(i);
                },
            }
        }
        i += 1;
    }
    proof {
        match selected {
            Some(k) => {
                assert(is_selected(ps, rv, effect, k as int));
                assert(has_candidate(ps, rv, effect));
                lemma_selected_exists(ps, rv, effect);
                let c = selected_index(ps, rv, effect).unwrap();
                lemma_selected_unique(ps, rv, effect, c, k as int);
            },
            None => {
                assert(!has_candidate(ps, rv, effect));
            },
        }
    }
    selected
}

/// Selects the policy that decides `request`. A matching deny always wins. Within the same
/// effect, the highest priority wins; declaration order is the deterministic tie-breaker.
pub fn evaluate<'a>(policies: &'a [Policy], request: &ActionRequest) -> (r: Option<&'a Policy>)
    ensures
        r is Some == evaluate_spec(policies@, request@) is Some,
        r matches Some(p) ==> *p == policies@[evaluate_spec(policies@, request@).unwrap()],
{
    match highest_priority(policies, request, DecisionEffect::Deny) {
        Some(k) => Some(&policies[k]),
        None => match highest_priority(policies, request, DecisionEffect::Allow) {
            Some(k) => Some(&policies[k]),
            None => None,
        },
    }
}

/// A matching deny overrides every matching allow, whatever the priorities.
pub proof fn lemma_deny_overrides(ps: Seq<Policy>, r: ActionRequestView)
    requires
        has_candidate(ps, r, DecisionEffect::Deny),
    ensures
        evaluate_spec(ps, r) matches Some(k) && ps[k].effect == DecisionEffect::Deny
            && policy_matches(ps[k]@, r),
{
    lemma_selected_exists(ps, r, DecisionEffect::Deny);
}

/// The deciding policy matches the request and has the highest priority among the matching
/// policies of its effect; no earlier policy of that effect shares its priority.
pub proof fn lemma_decider_has_highest_priority(ps: Seq<Policy>, r: ActionRequestView)
    requires
        evaluate_spec(ps, r) is Some,
    ensures
        is_selected(ps, r, ps[evaluate_spec(ps, r).unwrap()].effect, evaluate_spec(ps, r).unwrap()),
{
    if has_candidate(ps, r, DecisionEffect::Deny) {
        lemma_selected_exists(ps, r, DecisionEffect::Deny);
    } else {
        lemma_selected_exists(ps, r, DecisionEffect::Allow);
    }
}

/// No policy decides a request that no enabled policy matches.
pub proof fn lemma_unmatched_has_no_decider(ps: Seq<Policy>, r: ActionRequestView)
    requires
        forall|i: int| 0 <= i < ps.len() ==> !policy_matches(#[trigger] ps[i]@, r),
    ensures
        evaluate_spec(ps, r) is None,
{
    assert(!has_candidate(ps, r, DecisionEffect::Deny));
    assert(!has_candidate(ps, r, DecisionEffect::Allow));
}

/// A disabled policy never matches.
pub proof fn lemma_disabled_never_matches(p: PolicyView, r: ActionRequestView)
    requires
        !p.enabled,
    ensures
        !policy_matches(p, r),
{
}

} // verus!
