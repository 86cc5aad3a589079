//! Response guardrails applied window by window to a streamed response.
use vstd::prelude::*;

use crate::guardrails::api::{
    GuardrailDecision, GuardrailDecisionView, ResponseContext, ResponseContextView, VehicleGuardrails,
};
use crate::guardrails::vehicle::VehicleState;

verus! {

/// What a streaming evaluator does when evaluation itself fails.
#[derive(Debug, Clone, Copy, PartialEq, Eq, Structural)]
pub enum FailureMode {
    FailOpen,
    FailClosed,
}

/// The outcome of evaluating a window that is not let through: the bytes sent in its place.
#[derive(Debug, PartialEq, Eq)]
pub enum StreamingGuardrailOutcome {
    Blocked(Vec<u8>),
}

/// The reason a non-`Allow` decision carries.
pub open spec fn decision_reason(d: GuardrailDecisionView) -> Seq<char> {
    match d {
        GuardrailDecisionView::Allow => Seq::empty(),
        GuardrailDecisionView::Reject { reason, .. } => reason,
        GuardrailDecisionView::Mask { reason, .. } => reason,
        GuardrailDecisionView::Defer { reason } => reason,
        GuardrailDecisionView::RequireApproval { reason } => reason,
        GuardrailDecisionView::FailSafe { reason } => reason,
    }
}

/// Runs vehicle response guardrails on each window of a streamed response.
pub struct VehicleStreamingResponseEvaluator<G: VehicleGuardrails> {
    guardrails: G,
    model: String,
    vehicle_state: VehicleState,
}

impl<G: VehicleGuardrails> VehicleStreamingResponseEvaluator<G> {
    pub closed spec fn guardrails(&self) -> G {
        self.guardrails
    }

    pub closed spec fn model(&self) -> Seq<char> {
        self.model@
    }

    pub closed spec fn vehicle_state(&self) -> VehicleState {
        self.vehicle_state
    }

    pub fn new(guardrails: G, model: &str, vehicle_state: VehicleState) -> (r: Self)
        ensures
            r.guardrails() == guardrails,
            r.model() == model@,
            r.vehicle_state() == vehicle_state,
    {
        VehicleStreamingResponseEvaluator { guardrails, model: model.to_owned(), vehicle_state }
    }

    /// Vehicle guardrails fail closed.
    pub fn failure_mode(&self) -> (m: FailureMode)
        ensures
            m == FailureMode::FailClosed,
    {
        FailureMode::FailClosed
    }

    /// Checks one window of the response: lets it through when the response guardrails allow
    /// it, and otherwise blocks it with the UTF-8 bytes of the decision's reason.
    pub fn evaluate(&mut self, window: &str) -> (r: Option<StreamingGuardrailOutcome>)
        ensures
            *final(self) == *old(self),
            ({
                let d = old(self).guardrails().response_verdict(
                    ResponseContextView { content: window@, model: old(self).model() },
                    old(self).vehicle_state(),
                );
                match r {
                    None => d is Allow,
                    Some(StreamingGuardrailOutcome::Blocked(bytes)) => !(d is Allow) && bytes@
                        == vstd::utf8::encode_utf8(decision_reason(d)),
                }
            }),
    {
        let ctx = ResponseContext { content: window.to_owned(), model: self.model.clone() };
        let decision = self.guardrails.check_response(&ctx, &self.vehicle_state);
        if decision.is_allowed() {
            return None;
        }
        let reason = match &decision {
            GuardrailDecision::Allow => "",
            GuardrailDecision::Reject { reason, .. } => reason.as_str(),
            GuardrailDecision::Mask { reason, .. } => reason.as_str(),
            GuardrailDecision::Defer { reason } => reason.as_str(),
            GuardrailDecision::RequireApproval { reason } => reason.as_str(),
            GuardrailDecision::FailSafe { reason } => reason.as_str(),
        };
        Some(StreamingGuardrailOutcome::Blocked(reason.as_bytes_vec()))
    }
}

} // verus!
