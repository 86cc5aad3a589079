//! Audit events for security decisions and the sinks that receive them.
use vstd::prelude::*;

use crate::contracts::{
    clone_opt_string, ActionRequest, ActionRequestView, Decision, DecisionView, SecurityEvent,
    SecurityEventView,
};
use crate::ext::now_millis;

verus! {

/// `e` is the audit record of decision `d` on request `r`.
pub open spec fn event_records(e: SecurityEventView, r: ActionRequestView, d: DecisionView) -> bool {
    &&& e.request_id == r.request_id
    &&& e.subject == r.subject
    &&& e.action == r.action
    &&& e.resource == r.resource
    &&& e.decision == d.effect
    &&& e.policy_id == d.policy_id
}

/// Builds the audit record of `decision` on `request`, stamped with `timestamp`
/// (milliseconds since the UNIX epoch).
pub fn event_from_decision_at(
    event_id: String,
    request: &ActionRequest,
    decision: &Decision,
    timestamp: i64,
) -> (e: SecurityEvent)
    ensures
        event_records(e@, request@, decision@),
        e.event_id@ == event_id@,
        e.timestamp == timestamp,
{
    SecurityEvent {
        event_id,
        request_id: request.request_id.clone(),
        subject: request.subject.clone(),
        action: request.action.clone(),
        resource: request.resource.clone(),
        decision: decision.effect,
        policy_id: clone_opt_string(&decision.policy_id),
        timestamp,
    }
}

/// Builds the audit record of `decision` on `request`, stamped with the current time.
pub fn event_from_decision(event_id: String, request: &ActionRequest, decision: &Decision) -> (e:
    SecurityEvent)
    ensures
        event_records(e@, request@, decision@),
        e.event_id@ == event_id@,
{
    event_from_decision_at(event_id, request, decision, now_millis())
}

/// Destination for authorization audit events. Production deployments can implement this
/// for an event stream or durable store; the in-memory implementation below keeps them.
pub trait AuditSink {
    /// How the sink after recording `event` relates to the sink before.
    spec fn records(&self, next: &Self, event: SecurityEventView) -> bool;

    fn record(&mut self, event: SecurityEvent)
        ensures
            old(self).records(&*final(self), event@),
    ;
}

/// The views of a list of events.
pub open spec fn event_views(events: Seq<SecurityEvent>) -> Seq<SecurityEventView> {
    events.map_values(|e: SecurityEvent| e@)
}

/// A copy of a list of events.
fn copy_events(events: &Vec<SecurityEvent>) -> (r: Vec<SecurityEvent>)
    ensures
        event_views(r@) == event_views(events@),
{
    let mut out: Vec<SecurityEvent> = Vec::new();
    let mut i: usize = 0;
    while i < events.len()
        invariant
            i <= events@.len(),
            out@.len() == i,
            forall|j: int| 0 <= j < i ==> #[trigger] out@[j] == events@[j],
        decreases events@.len() - i,
    {
        out.push(events[i].clone());
        i += 1;
    }
    assert(event_views(out@) == event_views(events@));
    out
}

/// Keeps every recorded event, in order.
pub struct InMemoryAuditSink {
    events: Vec<SecurityEvent>,
}

impl InMemoryAuditSink {
    /// The events recorded so far, oldest first.
    pub closed spec fn recorded(&self) -> Seq<SecurityEventView> {
        event_views(self.events@)
    }

    pub fn new() -> (s: Self)
        ensures
            s.recorded() == Seq::<SecurityEventView>::empty(),
    {
        InMemoryAuditSink { events: Vec::new() }
    }

    /// A copy of the events recorded so far, oldest first.
    pub fn events(&self) -> (r: Vec<SecurityEvent>)
        ensures
            event_views(r@) == self.recorded(),
    {
        copy_events(&self.events)
    }
}

impl Default for InMemoryAuditSink {
    fn default() -> (s: Self)
        ensures
            s.recorded() == Seq::<SecurityEventView>::empty(),
    {
        InMemoryAuditSink::new()
    }
}

impl AuditSink for InMemoryAuditSink {
    open spec fn records(&self, next: &Self, event: SecurityEventView) -> bool {
        next.recorded() == self.recorded().push(event)
    }

    fn record(&mut self, event: SecurityEvent) {
        self.events.push(event);
        assert(event_views(self.events@) == event_views(old(self).events@).push(event@));
    }
}

/// A sink for pipelines whose decisions go to the gateway's structured log. Writing the log
/// is the runtime's part, so the sink holds each record until the runtime takes it and
/// logs it.
pub struct TracingAuditSink {
    pending: Vec<SecurityEvent>,
}

impl TracingAuditSink {
    /// The records not yet taken for the log, oldest first.
    pub closed spec fn pending(&self) -> Seq<SecurityEventView> {
        event_views(self.pending@)
    }

    pub fn new() -> (s: Self)
        ensures
            s.pending() == Seq::<SecurityEventView>::empty(),
    {
        TracingAuditSink { pending: Vec::new() }
    }

    /// A copy of the records not yet taken for the log, oldest first.
    pub fn pending_events(&self) -> (r: Vec<SecurityEvent>)
        ensures
            event_views(r@) == self.pending(),
    {
        copy_events(&self.pending)
    }

    /// Takes the records for the log, oldest first, and leaves none.
    pub fn take_pending(&mut self) -> (r: Vec<SecurityEvent>)
        ensures
            event_views(r@) == old(self).pending(),
            final(self).pending() == Seq::<SecurityEventView>::empty(),
    {
        let mut out: Vec<SecurityEvent> = Vec::new();
        std::mem::swap(&mut out, &mut self.pending);
        out
    }
}

impl Default for TracingAuditSink {
    fn default() -> (s: Self)
        ensures
            s.pending() == Seq::<SecurityEventView>::empty(),
    {
        TracingAuditSink::new()
    }
}

impl AuditSink for TracingAuditSink {
    open spec fn records(&self, next: &Self, event: SecurityEventView) -> bool {
        next.pending() == self.pending().push(event)
    }

    fn record(&mut self, event: SecurityEvent) {
        self.pending.push(event);
        assert(event_views(self.pending@) == event_views(old(self).pending@).push(event@));
    }
}

} // verus!
