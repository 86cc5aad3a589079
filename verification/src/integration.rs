//! System-level common security: audit, shadow or enforce the configured pipeline.
use vstd::prelude::*;

use crate::audit::{event_records, AuditSink, TracingAuditSink};
use crate::contracts::{ActionRequest, Decision, SecurityEvent};
use crate::ext::{new_uuid_string, now_millis};
use crate::json::JsonValue;
use crate::pipeline::{
    answers, args_view, recorded_as, verdict_decision, GatewayError, SecurityPipelineConfig, Verdict,
};

verus! {

#[derive(Debug, Clone, Copy, Default, PartialEq, Eq, Structural)]
pub enum SecurityMode {
    /// Record decisions without changing request processing.
    #[default]
    Audit,
    /// Record decisions and warn whenever the same policy would deny in enforce mode.
    Shadow,
    /// Return policy and control denials to the gateway adapter for request rejection.
    Enforce,
}

/// System-level common security configuration. Protocol-specific controls remain separate.
#[derive(Debug, Default, PartialEq, Eq)]
pub struct SecurityConfig {
    pub mode: SecurityMode,
    pub pipeline: SecurityPipelineConfig,
}

/// `r` is what an enforcing evaluation returns for verdict `v`.
pub open spec fn enforces(r: Result<(), GatewayError>, v: Verdict) -> bool {
    match v {
        Verdict::Allowed(_) => r is Ok,
        Verdict::Denied(d) => r matches Err(GatewayError::Denied(x)) && x@ == d,
        Verdict::Refused { decision, control_id, reason } => r matches Err(
            GatewayError::DeniedByControl { decision: x, denial },
        ) && x@ == decision && denial.control_id@ == control_id && denial.reason@ == reason,
    }
}

/// Authorizes `action` with the pipeline `config` as of `now`, and returns the answer with
/// the audit record of the decision, under `event_id`.
pub(crate) fn authorize_recorded_at(
    config: &SecurityPipelineConfig,
    action: &ActionRequest,
    arguments: Option<&JsonValue>,
    now: i64,
    event_id: String,
) -> (r: (Result<Decision, GatewayError>, SecurityEvent))
    ensures
        answers(r.0, config.verdict_for(action@, args_view(arguments), now)),
        recorded_as(
            r.1@,
            action@,
            verdict_decision(config.verdict_for(action@, args_view(arguments), now)),
            event_id@,
            now,
        ),
{
    let sink = TracingAuditSink::new();
    let mut pipeline = config.build(sink);
    let ghost before = pipeline.audit_sink();
    let answer = pipeline.authorize_at(action, arguments, now, event_id);
    let ghost e = choose|e| #[trigger]
        before.records(&pipeline.audit_sink(), e) && recorded_as(
            e,
            action@,
            verdict_decision(config.verdict_for(action@, args_view(arguments), now)),
            event_id@,
            now,
        );
    assert(before == sink);
    assert(before.pending() == Seq::<crate::contracts::SecurityEventView>::empty());
    assert(pipeline.audit_sink().pending() == seq![e]);
    let mut events = pipeline.audit().pending_events();
    assert(crate::audit::event_views(events@) == seq![e]);
    assert(crate::audit::event_views(events@).len() == events@.len());
    assert(crate::audit::event_views(events@)[0] == events@[0]@);
    let event = events.pop().unwrap();
    (answer, event)
}

/// One evaluation under the common security configuration: the mode it ran in, the
/// pipeline's answer, and the audit record of the decision, which the runtime logs.
#[derive(Debug)]
pub struct Evaluation {
    pub mode: SecurityMode,
    pub answer: Result<Decision, GatewayError>,
    pub event: SecurityEvent,
}

impl Evaluation {
    /// What the caller is answered: the pipeline's denial in enforce mode, success otherwise.
    /// In shadow mode a denial in `answer` is what the runtime warns about.
    pub fn outcome(self) -> (r: Result<(), GatewayError>)
        ensures
            self.mode != SecurityMode::Enforce ==> r is Ok,
            self.mode == SecurityMode::Enforce ==> match self.answer {
                Ok(_) => r is Ok,
                Err(e) => r == Err::<(), GatewayError>(e),
            },
    {
        match self.answer {
            Ok(_) => Ok(()),
            Err(error) => match self.mode {
                SecurityMode::Audit => Ok(()),
                SecurityMode::Shadow => Ok(()),
                SecurityMode::Enforce => Err(error),
            },
        }
    }
}

impl Evaluation {
    /// The denial that shadow mode warns about: the pipeline's error when the evaluation ran
    /// in shadow mode and the pipeline refused the request; none otherwise.
    pub fn shadow_warning(&self) -> (w: Option<&GatewayError>)
        ensures
            w is Some <==> (self.mode == SecurityMode::Shadow && self.answer is Err),
            w matches Some(e) ==> self.answer == Err::<Decision, GatewayError>(*e),
    {
        match &self.answer {
            Ok(_) => None,
            Err(error) => if self.mode == SecurityMode::Shadow {
                Some(error)
            } else {
                None
            },
        }
    }
}

/// Evaluates a protocol action as of `now` and returns the evaluation, with the audit record
/// of its decision under `event_id`.
pub fn evaluation_at(
    config: &SecurityConfig,
    action: &ActionRequest,
    arguments: Option<&JsonValue>,
    now: i64,
    event_id: String,
) -> (e: Evaluation)
    ensures
        e.mode == config.mode,
        answers(e.answer, config.pipeline.verdict_for(action@, args_view(arguments), now)),
        recorded_as(
            e.event@,
            action@,
            verdict_decision(config.pipeline.verdict_for(action@, args_view(arguments), now)),
            event_id@,
            now,
        ),
{
    let (answer, event) = authorize_recorded_at(&config.pipeline, action, arguments, now, event_id);
    Evaluation { mode: config.mode, answer, event }
}

/// Evaluates a protocol action now and returns the evaluation, with the audit record of its
/// decision.
pub fn evaluation(config: &SecurityConfig, action: &ActionRequest, arguments: Option<&JsonValue>) -> (e:
    Evaluation)
    ensures
        e.mode == config.mode,
        exists|now: i64|
            answers(e.answer, #[trigger] config.pipeline.verdict_for(action@, args_view(arguments), now))
                && event_records(e.event@, action@, verdict_decision(config.pipeline.verdict_for(action@, args_view(arguments), now))),
{
    let now = now_millis();
    evaluation_at(config, action, arguments, now, new_uuid_string())
}

/// Evaluates a decision as of time `now`. Only enforce mode changes caller control flow; the
/// decision's audit record is what `evaluation_at` returns.
pub fn evaluate_with_arguments_at(
    config: &SecurityConfig,
    action: &ActionRequest,
    arguments: Option<&JsonValue>,
    now: i64,
    event_id: String,
) -> (r: Result<(), GatewayError>)
    ensures
        config.mode != SecurityMode::Enforce ==> r is Ok,
        config.mode == SecurityMode::Enforce ==> enforces(
            r,
            config.pipeline.verdict_for(action@, args_view(arguments), now),
        ),
{
    evaluation_at(config, action, arguments, now, event_id).outcome()
}

/// Evaluates a protocol action with optional structured arguments.
///
/// Tool adapters use this to apply shared argument controls in addition to policy matching.
pub fn evaluate_with_arguments(
    config: &SecurityConfig,
    action: &ActionRequest,
    arguments: Option<&JsonValue>,
) -> (r: Result<(), GatewayError>)
    ensures
        config.mode != SecurityMode::Enforce ==> r is Ok,
        config.mode == SecurityMode::Enforce ==> exists|now: i64|
            enforces(r, #[trigger] config.pipeline.verdict_for(action@, args_view(arguments), now)),
{
    let now = now_millis();
    let r = evaluate_with_arguments_at(config, action, arguments, now, new_uuid_string());
    assert(config.mode == SecurityMode::Enforce ==> enforces(
        r,
        config.pipeline.verdict_for(action@, args_view(arguments), now),
    ));
    r
}

/// Evaluates a decision. Only enforce mode changes caller control flow; the decision's audit
/// record is what `evaluation` returns.
pub fn evaluate(config: &SecurityConfig, action: &ActionRequest) -> (r: Result<(), GatewayError>)
    ensures
        config.mode != SecurityMode::Enforce ==> r is Ok,
        config.mode == SecurityMode::Enforce ==> exists|now: i64|
            enforces(r, #[trigger] config.pipeline.verdict_for(action@, None, now)),
{
    evaluate_with_arguments(config, action, None)
}

} // verus!
