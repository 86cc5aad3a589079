//! What routing does with a request while a breaker is open.
use vstd::prelude::*;

verus! {

#[derive(Debug, PartialEq, Eq)]
pub enum CircuitAction {
    Block { status: u16, body: String },
    Fallback { target: String },
    Degrade { model: String },
    Reroute { target: String },
    Queue { queue: String },
    RequireApproval { reason: String },
}

impl Clone for CircuitAction {
    fn clone(&self) -> (r: Self)
        ensures
            r == *self,
    {
        match self {
            CircuitAction::Block { status, body } => CircuitAction::Block { status: *status, body: body.clone() },
            CircuitAction::Fallback { target } => CircuitAction::Fallback { target: target.clone() },
            CircuitAction::Degrade { model } => CircuitAction::Degrade { model: model.clone() },
            CircuitAction::Reroute { target } => CircuitAction::Reroute { target: target.clone() },
            CircuitAction::Queue { queue } => CircuitAction::Queue { queue: queue.clone() },
            CircuitAction::RequireApproval { reason } => CircuitAction::RequireApproval { reason: reason.clone() },
        }
    }
}

} // verus!
