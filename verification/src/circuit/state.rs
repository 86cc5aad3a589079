//! The states of a circuit breaker.
use vstd::prelude::*;

use crate::text::cat;

verus! {

#[derive(Debug, Clone, Copy, PartialEq, Eq, Structural)]
pub enum OpenReason {
    ConsecutiveFailures,
    ErrorRate,
    TimeoutRate,
    HalfOpenFailed,
}

pub open spec fn reason_name(r: OpenReason) -> Seq<char> {
    match r {
        OpenReason::ConsecutiveFailures => "ConsecutiveFailures"@,
        OpenReason::ErrorRate => "ErrorRate"@,
        OpenReason::TimeoutRate => "TimeoutRate"@,
        OpenReason::HalfOpenFailed => "HalfOpenFailed"@,
    }
}

impl OpenReason {
    /// The reason's name, as it is displayed.
    pub fn name(&self) -> (s: &'static str)
        ensures
            s@ == reason_name(*self),
    {
        match self {
            OpenReason::ConsecutiveFailures => "ConsecutiveFailures",
            OpenReason::ErrorRate => "ErrorRate",
            OpenReason::TimeoutRate => "TimeoutRate",
            OpenReason::HalfOpenFailed => "HalfOpenFailed",
        }
    }
}

/// The state of a breaker. Times are milliseconds since the UNIX epoch.
#[derive(Debug, PartialEq, Eq)]
pub enum CircuitState {
    Closed,
    Open { opened_at: i64, reason: OpenReason, trigger: String, cooldown_until: i64 },
    HalfOpen {
        entered_at: i64,
        max_probes: usize,
        in_flight_probes: usize,
        completed_probes: usize,
        succeeded_probes: usize,
    },
}

pub enum CircuitStateView {
    Closed,
    Open { opened_at: i64, reason: OpenReason, trigger: Seq<char>, cooldown_until: i64 },
    HalfOpen {
        entered_at: i64,
        max_probes: usize,
        in_flight_probes: usize,
        completed_probes: usize,
        succeeded_probes: usize,
    },
}

impl View for CircuitState {
    type V = CircuitStateView;

    open spec fn view(&self) -> CircuitStateView {
        match *self {
            CircuitState::Closed => CircuitStateView::Closed,
            CircuitState::Open { opened_at, reason, trigger, cooldown_until } => CircuitStateView::Open {
                opened_at,
                reason,
                trigger: trigger@,
                cooldown_until,
            },
            CircuitState::HalfOpen {
                entered_at,
                max_probes,
                in_flight_probes,
                completed_probes,
                succeeded_probes,
            } => CircuitStateView::HalfOpen {
                entered_at,
                max_probes,
                in_flight_probes,
                completed_probes,
                succeeded_probes,
            },
        }
    }
}

impl Clone for CircuitState {
    fn clone(&self) -> (r: Self)
        ensures
            r@ == self@,
    {
        match self {
            CircuitState::Closed => CircuitState::Closed,
            CircuitState::Open { opened_at, reason, trigger, cooldown_until } => CircuitState::Open {
                opened_at: *opened_at,
                reason: *reason,
                trigger: trigger.clone(),
                cooldown_until: *cooldown_until,
            },
            CircuitState::HalfOpen {
                entered_at,
                max_probes,
                in_flight_probes,
                completed_probes,
                succeeded_probes,
            } => CircuitState::HalfOpen {
                entered_at: *entered_at,
                max_probes: *max_probes,
                in_flight_probes: *in_flight_probes,
                completed_probes: *completed_probes,
                succeeded_probes: *succeeded_probes,
            },
        }
    }
}

impl Default for CircuitState {
    fn default() -> (s: Self)
        ensures
            s@ == CircuitStateView::Closed,
    {
        CircuitState::Closed
    }
}

/// Returned by `allow` while the breaker turns requests away.
#[derive(Debug, PartialEq, Eq)]
pub struct CircuitOpenError {
    pub key: String,
    pub reason: OpenReason,
    pub trigger: String,
}

impl CircuitOpenError {
    /// The error's message.
    pub fn message(&self) -> (s: String)
        ensures
            s@ == "circuit breaker is open: key="@ + self.key@ + ", reason="@ + reason_name(self.reason)
                + ", trigger="@ + self.trigger@,
    {
        let a = cat("circuit breaker is open: key=", self.key.as_str());
        let b = cat(a.as_str(), ", reason=");
        let c = cat(b.as_str(), self.reason.name());
        let d = cat(c.as_str(), ", trigger=");
        cat(d.as_str(), self.trigger.as_str())
    }
}

} // verus!
