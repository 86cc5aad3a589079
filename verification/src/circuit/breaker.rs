//! The breaker state machine: closed -> open -> half-open -> closed.
//!
//! Every operation comes in two forms: `op_at(now)`, which takes the time as an argument and
//! whose contract gives the exact next state, and `op()`, which reads the clock.
use vstd::prelude::*;

use crate::circuit::action::CircuitAction;
use crate::circuit::config::{CircuitConfig, CircuitTriggerConfig, HalfOpenConfig, TriggerKind, PPM};
use crate::circuit::state::{CircuitOpenError, CircuitState, CircuitStateView, OpenReason};
use crate::circuit::window::{
    after_record, clamp_millis, pruned, wall_clock_millis, sum_totals, Bucket, SlidingWindow, WindowEvent, WindowTotals,
};

verus! {

/// What a breaker knows about one of its triggers.
pub struct TriggerView {
    pub name: Seq<char>,
    pub kind: TriggerKind,
    pub threshold_ppm: u64,
    pub window_ms: u64,
    pub bucket_ms: u64,
    pub buckets: Seq<Bucket>,
    pub consecutive_failures: u64,
}

/// `now` plus a cooldown, held to the range of `i64`.
pub open spec fn cooldown_end(now: i64, cooldown_ms: u64) -> i64 {
    if now + cooldown_ms > i64::MAX {
        i64::MAX
    } else {
        (now + cooldown_ms) as i64
    }
}

/// The state of a breaker opened at `now` by `trigger` for `reason`.
pub open spec fn opened(reason: OpenReason, trigger: Seq<char>, now: i64, cooldown_ms: u64) -> CircuitStateView {
    CircuitStateView::Open { opened_at: now, reason, trigger, cooldown_until: cooldown_end(now, cooldown_ms) }
}

/// `succeeded / completed` reaches the rate `rate_ppm` (in parts per million).
pub open spec fn rate_met(succeeded: int, completed: int, rate_ppm: int) -> bool {
    succeeded * PPM >= rate_ppm * completed
}

/// The state once the last half-open probe completed: closed when enough probes succeeded,
/// open again otherwise.
pub open spec fn probes_done(h: HalfOpenConfig, completed: int, succeeded: int, now: i64, cooldown_ms: u64) -> CircuitStateView {
    if rate_met(succeeded, completed, h.success_rate_ppm as int) {
        CircuitStateView::Closed
    } else {
        opened(OpenReason::HalfOpenFailed, "halfOpen"@, now, cooldown_ms)
    }
}

/// A half-open breaker admits a probe while fewer than the concurrent limit run.
pub open spec fn probe(st: CircuitStateView, h: HalfOpenConfig) -> (CircuitStateView, Option<(OpenReason, Seq<char>)>) {
    match st {
        CircuitStateView::HalfOpen { entered_at, max_probes, in_flight_probes, completed_probes, succeeded_probes } =>
            if in_flight_probes >= h.max_concurrent_probes {
                (st, Some((OpenReason::HalfOpenFailed, "halfOpen"@)))
            } else {
                (CircuitStateView::HalfOpen {
                    entered_at,
                    max_probes,
                    in_flight_probes: (in_flight_probes + 1) as usize,
                    completed_probes,
                    succeeded_probes,
                }, None)
            },
        _ => (st, None),
    }
}

/// The next state of `allow` at `now`, and the refusal it answers with, if any.
pub open spec fn allow_spec(st: CircuitStateView, h: HalfOpenConfig, now: i64) -> (CircuitStateView, Option<(OpenReason, Seq<char>)>) {
    match st {
        CircuitStateView::Closed => (st, None),
        CircuitStateView::Open { reason, trigger, cooldown_until, .. } =>
            if now < cooldown_until {
                (st, Some((reason, trigger)))
            } else {
                probe(CircuitStateView::HalfOpen {
                    entered_at: now,
                    max_probes: h.max_probes,
                    in_flight_probes: 0,
                    completed_probes: 0,
                    succeeded_probes: 0,
                }, h)
            },
        CircuitStateView::HalfOpen { .. } => probe(st, h),
    }
}

/// A trigger after one event was recorded in its window at `now`.
pub open spec fn recorded(t: TriggerView, e: WindowEvent, now: i64) -> TriggerView {
    TriggerView { buckets: after_record(t.buckets, now, e, t.window_ms, t.bucket_ms), ..t }
}

/// A trigger after a success: a consecutive-failure count restarts, and every window
/// records the success.
pub open spec fn after_success(t: TriggerView, now: i64) -> TriggerView {
    TriggerView {
        consecutive_failures: if t.kind == TriggerKind::ConsecutiveFailures { 0 } else { t.consecutive_failures },
        ..recorded(t, WindowEvent::Success, now)
    }
}

/// Whether a rate trigger trips on its window totals.
pub open spec fn trips(kind: TriggerKind, threshold_ppm: u64, t: WindowTotals) -> Option<OpenReason> {
    if kind == TriggerKind::ErrorRate && t.requests > 0 && t.failures * PPM >= threshold_ppm * t.requests {
        Some(OpenReason::ErrorRate)
    } else if kind == TriggerKind::TimeoutRate && t.requests > 0 && t.timeouts * PPM >= threshold_ppm * t.requests {
        Some(OpenReason::TimeoutRate)
    } else {
        None
    }
}

/// Evaluates the rate triggers from index `i` on, in order: each window is pruned to `now`,
/// and the first trigger whose rate reaches its threshold stops the evaluation.
pub open spec fn passive_from(ts: Seq<TriggerView>, now: i64, i: int) -> (Seq<TriggerView>, Option<(OpenReason, Seq<char>)>)
    decreases ts.len() - i,
{
    if i < 0 || i >= ts.len() {
        (ts, None)
    } else {
        let t = ts[i];
        let p = pruned(t.buckets, now, t.window_ms);
        let ts2 = ts.update(i, TriggerView { buckets: p, ..t });
        match trips(t.kind, t.threshold_ppm, sum_totals(p)) {
            Some(reason) => (ts2, Some((reason, t.name))),
            None => passive_from(ts2, now, i + 1),
        }
    }
}

/// A failure outside half-open, from trigger `i` on: a consecutive-failure trigger counts it
/// and trips once the count reaches its threshold; other triggers record it in their window.
/// When none trips this way, the rate triggers are evaluated.
pub open spec fn failure_from(ts: Seq<TriggerView>, now: i64, i: int) -> (Seq<TriggerView>, Option<(OpenReason, Seq<char>)>)
    decreases ts.len() - i,
{
    if i < 0 || i >= ts.len() {
        passive_from(ts, now, 0)
    } else {
        let t = ts[i];
        if t.kind == TriggerKind::ConsecutiveFailures {
            let f = t.consecutive_failures.saturating_add(1);
            let ts2 = ts.update(i, TriggerView { consecutive_failures: f, ..t });
            if f * PPM >= t.threshold_ppm {
                (ts2, Some((OpenReason::ConsecutiveFailures, t.name)))
            } else {
                failure_from(ts2, now, i + 1)
            }
        } else {
            failure_from(ts.update(i, recorded(t, WindowEvent::Failure, now)), now, i + 1)
        }
    }
}

/// The state and triggers after a success at `now`, with the windows at `wnow`.
pub open spec fn success_spec(st: CircuitStateView, ts: Seq<TriggerView>, h: HalfOpenConfig, cooldown_ms: u64, now: i64, wnow: i64) -> (CircuitStateView, Seq<TriggerView>) {
    let ts2 = ts.map_values(|t: TriggerView| after_success(t, wnow));
    match st {
        CircuitStateView::HalfOpen { entered_at, max_probes, in_flight_probes, completed_probes, succeeded_probes } => {
            let c = completed_probes + 1;
            let s = succeeded_probes + 1;
            if c >= h.max_probes {
                (probes_done(h, c, s, now, cooldown_ms), ts)
            } else {
                (CircuitStateView::HalfOpen {
                    entered_at,
                    max_probes,
                    in_flight_probes: if in_flight_probes > 0 { (in_flight_probes - 1) as usize } else { 0 },
                    completed_probes: c as usize,
                    succeeded_probes: s as usize,
                }, ts2)
            }
        },
        _ => (st, ts2),
    }
}

/// The state and triggers after a failure at `now`, with the windows at `wnow`. A failed
/// half-open probe sends the breaker straight back to open.
pub open spec fn failure_spec(st: CircuitStateView, ts: Seq<TriggerView>, h: HalfOpenConfig, cooldown_ms: u64, now: i64, wnow: i64) -> (CircuitStateView, Seq<TriggerView>) {
    match st {
        CircuitStateView::HalfOpen { .. } => (opened(OpenReason::HalfOpenFailed, "halfOpen"@, now, cooldown_ms), ts),
        _ => {
            let (ts2, trip) = failure_from(ts, wnow, 0);
            match trip {
                Some((reason, name)) => (opened(reason, name, now, cooldown_ms), ts2),
                None => (st, ts2),
            }
        },
    }
}

/// The state and triggers after a timeout at `now`, with the windows at `wnow`: every window
/// records it, then the rate triggers are evaluated.
pub open spec fn timeout_spec(st: CircuitStateView, ts: Seq<TriggerView>, cooldown_ms: u64, now: i64, wnow: i64) -> (CircuitStateView, Seq<TriggerView>) {
    let ts1 = ts.map_values(|t: TriggerView| recorded(t, WindowEvent::Timeout, wnow));
    let (ts2, trip) = passive_from(ts1, wnow, 0);
    match trip {
        Some((reason, name)) => (opened(reason, name, now, cooldown_ms), ts2),
        None => (st, ts2),
    }
}

struct ActiveTrigger {
    config: CircuitTriggerConfig,
    window: SlidingWindow,
    consecutive_failures: u64,
}

impl ActiveTrigger {
    spec fn tv(&self) -> TriggerView {
        TriggerView {
            name: self.config.name@,
            kind: self.config.kind,
            threshold_ppm: self.config.threshold_ppm,
            window_ms: self.window.window_ms(),
            bucket_ms: self.window.bucket_ms(),
            buckets: self.window.buckets(),
            consecutive_failures: self.consecutive_failures,
        }
    }
}

/// A circuit breaker for one routing key. Its clock-reading forms take the state's times
/// from the wall clock, in milliseconds since the UNIX epoch, and the windows' times from the
/// monotonic clock, in milliseconds since the breaker was made.
pub struct CircuitBreaker {
    pub key: String,
    config: CircuitConfig,
    state: CircuitState,
    triggers: Vec<ActiveTrigger>,
    origin: std::time::Instant,
}

impl CircuitBreaker {
    /// The breaker's routing key.
    pub closed spec fn key_view(&self) -> Seq<char> {
        self.key@
    }

    /// The breaker's state.
    pub closed spec fn current(&self) -> CircuitStateView {
        self.state@
    }

    /// The breaker's triggers, in configuration order.
    pub closed spec fn trigger_views(&self) -> Seq<TriggerView> {
        self.triggers@.map_values(|t: ActiveTrigger| t.tv())
    }

    /// The half-open settings of the breaker's configuration.
    pub open spec fn half_open(&self) -> HalfOpenConfig {
        self.configuration().half_open
    }

    /// The cooldown of the breaker's configuration, in milliseconds.
    pub open spec fn cooldown_ms(&self) -> u64 {
        self.configuration().cooldown_ms
    }

    /// The breaker's configuration.
    pub closed spec fn configuration(&self) -> CircuitConfig {
        self.config
    }

    /// The breaker's invariant: a half-open breaker has fewer completed probes than it needs
    /// (or none), and no more successes than completed probes.
    pub closed spec fn wf(&self) -> bool {
        self.state@ matches CircuitStateView::HalfOpen { completed_probes, succeeded_probes, .. } ==> {
            &&& (completed_probes == 0 || completed_probes < self.config.half_open.max_probes)
            &&& succeeded_probes <= completed_probes
        }
    }

    pub fn new(key: &str, config: CircuitConfig) -> (b: Self)
        requires
            forall|i: int| 0 <= i < config.triggers@.len() ==> #[trigger] config.triggers@[i].window_ms > 0,
        ensures
            b.wf(),
            b.key_view() == key@,
            b.current() == CircuitStateView::Closed,
            b.configuration() == config,
            b.trigger_views().len() == config.triggers@.len(),
            forall|i: int| 0 <= i < config.triggers@.len() ==> {
                let t = #[trigger] b.trigger_views()[i];
                &&& t.name == config.triggers@[i].name@
                &&& t.kind == config.triggers@[i].kind
                &&& t.threshold_ppm == config.triggers@[i].threshold_ppm
                &&& t.window_ms == config.triggers@[i].window_ms
                &&& t.bucket_ms == 1000
                &&& t.buckets == Seq::<Bucket>::empty()
                &&& t.consecutive_failures == 0
            },
    {
        let mut triggers: Vec<ActiveTrigger> = Vec::new();
        let mut i: usize = 0;
        while i < config.triggers.len()
            invariant
                i <= config.triggers@.len(),
                forall|j: int| 0 <= j < config.triggers@.len() ==> #[trigger] config.triggers@[j].window_ms > 0,
                triggers@.len() == i,
                forall|j: int| 0 <= j < i ==> {
                    let t = #[trigger] triggers@[j].tv();
                    &&& t.name == config.triggers@[j].name@
                    &&& t.kind == config.triggers@[j].kind
                    &&& t.threshold_ppm == config.triggers@[j].threshold_ppm
                    &&& t.window_ms == config.triggers@[j].window_ms
                    &&& t.bucket_ms == 1000
                    &&& t.buckets == Seq::<Bucket>::empty()
                    &&& t.consecutive_failures == 0
                },
            decreases config.triggers@.len() - i,
        {
            let cfg = &config.triggers[i];
            assert(cfg.window_ms > 0);
            let trigger = ActiveTrigger {
                config: CircuitTriggerConfig {
                    name: cfg.name.clone(),
                    kind: cfg.kind,
                    window_ms: cfg.window_ms,
                    threshold_ppm: cfg.threshold_ppm,
                },
                window: SlidingWindow::new(cfg.window_ms),
                consecutive_failures: 0,
            };
            triggers.push(trigger);
            i += 1;
        }
        let b = CircuitBreaker {
            key: key.to_owned(),
            config,
            state: CircuitState::Closed,
            triggers,
            origin: crate::ext::instant_now(),
        };
        assert forall|i: int| 0 <= i < b.triggers@.len() implies #[trigger] b.trigger_views()[i] == b.triggers@[i].tv() by {}
        b
    }

    /// A copy of the breaker's routing key.
    pub fn routing_key(&self) -> (k: String)
        ensures
            k@ == self.key_view(),
    {
        self.key.clone()
    }

    /// Whether this breaker serves `key`.
    pub fn has_key(&self, key: &str) -> (b: bool)
        ensures
            b == (self.key_view() == key@),
    {
        crate::text::str_eq(self.key.as_str(), key)
    }

    /// The breaker's state.
    pub fn state(&self) -> (s: CircuitState)
        ensures
            s@ == self.current(),
    {
        self.state.clone()
    }

    /// The breaker's configuration.
    pub fn config(&self) -> (c: &CircuitConfig)
        ensures
            *c == self.configuration(),
    {
        &self.config
    }

    /// What routing does while the breaker is open.
    pub fn actions(&self) -> (a: &[CircuitAction])
        ensures
            a@ == self.configuration().actions@,
    {
        self.config.actions.as_slice()
    }

    fn open_state(&self, reason: OpenReason, trigger: String, now: i64) -> (s: CircuitState)
        ensures
            s@ == opened(reason, trigger@, now, self.cooldown_ms()),
    {
        let sum: i128 = now as i128 + self.config.cooldown_ms as i128;
        let until: i64 = if sum > i64::MAX as i128 {
            i64::MAX
        } else {
            sum as i64
        };
        CircuitState::Open { opened_at: now, reason, trigger, cooldown_until: until }
    }

    /// The current time on the breaker's monotonic clock, for its windows.
    fn clock(&self) -> i64 {
        clamp_millis(crate::ext::millis_since(&self.origin))
    }

    /// Admits or refuses a request at time `now`.
    pub fn allow_at(&mut self, now: i64) -> (r: Result<(), CircuitOpenError>)
        requires
            old(self).wf(),
        ensures
            final(self).wf(),
            final(self).current() == allow_spec(old(self).current(), old(self).half_open(), now).0,
            r is Ok == allow_spec(old(self).current(), old(self).half_open(), now).1 is None,
            r matches Err(e) ==> allow_spec(old(self).current(), old(self).half_open(), now).1 == Some((e.reason, e.trigger@))
                && e.key@ == old(self).key_view(),
            final(self).trigger_views() == old(self).trigger_views(),
            final(self).configuration() == old(self).configuration(),
            final(self).key_view() == old(self).key_view(),
    {
        let max_concurrent = self.config.half_open.max_concurrent_probes;
        match &self.state {
            CircuitState::Closed => {
                return Ok(());
            },
            CircuitState::Open { reason, trigger, cooldown_until, .. } => {
                if now < *cooldown_until {
                    return Err(CircuitOpenError { key: self.key.clone(), reason: *reason, trigger: trigger.clone() });
                }
            },
            CircuitState::HalfOpen { .. } => {},
        }
        let (entered_at, max_probes, in_flight, completed, succeeded) = match &self.state {
            CircuitState::HalfOpen { entered_at, max_probes, in_flight_probes, completed_probes, succeeded_probes } =>
                (*entered_at, *max_probes, *in_flight_probes, *completed_probes, *succeeded_probes),
            _ => (now, self.config.half_open.max_probes, 0, 0, 0),
        };
        if in_flight >= max_concurrent {
            self.state = CircuitState::HalfOpen {
                entered_at,
                max_probes,
                in_flight_probes: in_flight,
                completed_probes: completed,
                succeeded_probes: succeeded,
            };
            return Err(CircuitOpenError {
                key: self.key.clone(),
                reason: OpenReason::HalfOpenFailed,
                trigger: "halfOpen".to_owned(),
            });
        }
        self.state = CircuitState::HalfOpen {
            entered_at,
            max_probes,
            in_flight_probes: in_flight + 1,
            completed_probes: completed,
            succeeded_probes: succeeded,
        };
        Ok(())
    }

    /// Admits or refuses a request now.
    pub fn allow(&mut self) -> (r: Result<(), CircuitOpenError>)
        requires
            old(self).wf(),
        ensures
            final(self).wf(),
            exists|now: i64| {
                &&& final(self).current() == #[trigger] allow_spec(old(self).current(), old(self).half_open(), now).0
                &&& r is Ok == allow_spec(old(self).current(), old(self).half_open(), now).1 is None
                &&& r matches Err(e) ==> allow_spec(old(self).current(), old(self).half_open(), now).1 == Some((e.reason, e.trigger@))
                    && e.key@ == old(self).key_view()
            },
            final(self).trigger_views() == old(self).trigger_views(),
            final(self).configuration() == old(self).configuration(),
            final(self).key_view() == old(self).key_view(),
    {
        let now = wall_clock_millis();
        self.allow_at(now)
    }

    /// The state after a half-open probe completed, as of `now`.
    fn complete_probe(&self, entered_at: i64, max_probes: usize, in_flight: usize, completed: usize, succeeded: usize, now: i64) -> (s: CircuitState)
        requires
            completed >= 1,
            succeeded <= completed,
        ensures
            completed >= self.half_open().max_probes ==> s@ == probes_done(self.half_open(), completed as int, succeeded as int, now, self.cooldown_ms()),
            completed < self.half_open().max_probes ==> s@ == (CircuitStateView::HalfOpen {
                entered_at,
                max_probes,
                in_flight_probes: in_flight,
                completed_probes: completed,
                succeeded_probes: succeeded,
            }),
    {
        if completed >= self.config.half_open.max_probes {
            let rate = self.config.half_open.success_rate_ppm;
            let lhs: u128 = succeeded as u128 * PPM as u128;
            assert((rate as u128) * (completed as u128) <= u128::MAX) by (nonlinear_arith)
                requires
                    rate <= u64::MAX,
                    completed <= u64::MAX,
            ;
            let rhs: u128 = rate as u128 * completed as u128;
            if lhs >= rhs {
                CircuitState::Closed
            } else {
                self.open_state(OpenReason::HalfOpenFailed, "halfOpen".to_owned(), now)
            }
        } else {
            CircuitState::HalfOpen {
                entered_at,
                max_probes,
                in_flight_probes: in_flight,
                completed_probes: completed,
                succeeded_probes: succeeded,
            }
        }
    }
    fn reset_and_record_success(&mut self, now: i64)
        ensures
            final(self).trigger_views() == old(self).trigger_views().map_values(|t: TriggerView| after_success(t, now)),
            final(self).state == old(self).state,
            final(self).config == old(self).config,
            final(self).key == old(self).key,
    {
        let ghost ts0 = self.trigger_views();
        let mut i: usize = 0;
        while i < self.triggers.len()
            invariant
                ts0 == old(self).trigger_views(),
                self.triggers@.len() == ts0.len(),
                i <= ts0.len(),
                forall|j: int| 0 <= j < i ==> #[trigger] self.triggers@[j].tv() == after_success(ts0[j], now),
                forall|j: int| i <= j < ts0.len() ==> #[trigger] self.triggers@[j].tv() == ts0[j],
                self.state == old(self).state,
                self.config == old(self).config,
                self.key == old(self).key,
            decreases ts0.len() - i,
        {
            assert(self.triggers@[i as int].tv() == ts0[i as int]);
            if self.triggers[i].config.kind == TriggerKind::ConsecutiveFailures {
                self.triggers[i].consecutive_failures = 0;
            }
            self.triggers[i].window.record_at(WindowEvent::Success, now);
            i += 1;
        }
        assert(self.trigger_views() =~= ts0.map_values(|t: TriggerView| after_success(t, now)));
    }

    /// Records a success at time `now`, with the windows at `window_now`.
    pub fn on_success_at(&mut self, now: i64, window_now: i64)
        requires
            old(self).wf(),
        ensures
            final(self).wf(),
            (final(self).current(), final(self).trigger_views()) == success_spec(
                old(self).current(),
                old(self).trigger_views(),
                old(self).half_open(),
                old(self).cooldown_ms(),
                now,
                window_now,
            ),
            final(self).configuration() == old(self).configuration(),
            final(self).key_view() == old(self).key_view(),
    {
        let probe = match &self.state {
            CircuitState::HalfOpen { entered_at, max_probes, in_flight_probes, completed_probes, succeeded_probes } =>
                Some((*entered_at, *max_probes, *in_flight_probes, *completed_probes, *succeeded_probes)),
            _ => None,
        };
        match probe {
            Some((entered_at, max_probes, in_flight, completed, succeeded)) => {
                let in_flight = if in_flight > 0 { in_flight - 1 } else { 0 };
                let completed = completed + 1;
                let succeeded = succeeded + 1;
                let next = self.complete_probe(entered_at, max_probes, in_flight, completed, succeeded, now);
                self.state = next;
                if completed >= self.config.half_open.max_probes {
                    return;
                }
            },
            None => {},
        }
        self.reset_and_record_success(window_now);
    }

    /// Records a success now.
    pub fn on_success(&mut self)
        requires
            old(self).wf(),
        ensures
            final(self).wf(),
            exists|now: i64, wnow: i64| (final(self).current(), final(self).trigger_views()) == #[trigger] success_spec(
                old(self).current(),
                old(self).trigger_views(),
                old(self).half_open(),
                old(self).cooldown_ms(),
                now,
                wnow,
            ),
            final(self).configuration() == old(self).configuration(),
            final(self).key_view() == old(self).key_view(),
    {
        let now = wall_clock_millis();
        let window_now = self.clock();
        self.on_success_at(now, window_now);
    }

    /// Evaluates the rate triggers with the windows at `wnow`, opening the breaker at `now` on
    /// the first that trips.
    fn evaluate_passive_triggers(&mut self, now: i64, wnow: i64)
        ensures
            ({
                let (ts2, trip) = passive_from(old(self).trigger_views(), wnow, 0);
                &&& final(self).trigger_views() == ts2
                &&& final(self).current() == match trip {
                    Some((reason, name)) => opened(reason, name, now, old(self).cooldown_ms()),
                    None => old(self).current(),
                }
            }),
            final(self).config == old(self).config,
            final(self).key == old(self).key,
            passive_from(old(self).trigger_views(), wnow, 0).1 is None ==> final(self).state == old(self).state,
    {
        let ghost ts0 = self.trigger_views();
        let mut i: usize = 0;
        while i < self.triggers.len()
            invariant
                ts0 == old(self).trigger_views(),
                self.triggers@.len() == ts0.len(),
                i <= ts0.len(),
                passive_from(ts0, wnow, 0) == passive_from(self.trigger_views(), wnow, i as int),
                self.state == old(self).state,
                self.config == old(self).config,
                self.key == old(self).key,
            decreases ts0.len() - i,
        {
            let ghost before = self.trigger_views();
            let totals = self.triggers[i].window.totals_at(wnow);
            let kind = self.triggers[i].config.kind;
            let threshold = self.triggers[i].config.threshold_ppm;
            let ghost t = before[i as int];
            assert(self.triggers@[i as int].tv() == (TriggerView { buckets: pruned(t.buckets, wnow, t.window_ms), ..t }));
            assert(self.trigger_views() =~= before.update(i as int, TriggerView { buckets: pruned(t.buckets, wnow, t.window_ms), ..t }));
            assert(totals == sum_totals(pruned(t.buckets, wnow, t.window_ms)));
            let fails: u128 = totals.failures as u128 * PPM as u128;
            let outs: u128 = totals.timeouts as u128 * PPM as u128;
            assert((threshold as u128) * (totals.requests as u128) <= u128::MAX) by (nonlinear_arith)
                requires
                    threshold <= u64::MAX,
                    totals.requests <= u64::MAX,
            ;
            let limit: u128 = threshold as u128 * totals.requests as u128;
            let reason = if kind == TriggerKind::ErrorRate && totals.requests > 0 && fails >= limit {
                Some(OpenReason::ErrorRate)
            } else if kind == TriggerKind::TimeoutRate && totals.requests > 0 && outs >= limit {
                Some(OpenReason::TimeoutRate)
            } else {
                None
            };
            assert(reason == trips(t.kind, t.threshold_ppm, totals));
            match reason {
                Some(r) => {
                    let name = self.triggers[i].config.name.clone();
                    let next = self.open_state(r, name, now);
                    self.state = next;
                    return;
                },
                None => {},
            }
            i += 1;
        }
    }

    /// Records a failure at time `now`, with the windows at `window_now`.
    pub fn on_failure_at(&mut self, now: i64, window_now: i64)
        requires
            old(self).wf(),
        ensures
            final(self).wf(),
            (final(self).current(), final(self).trigger_views()) == failure_spec(
                old(self).current(),
                old(self).trigger_views(),
                old(self).half_open(),
                old(self).cooldown_ms(),
                now,
                window_now,
            ),
            final(self).configuration() == old(self).configuration(),
            final(self).key_view() == old(self).key_view(),
    {
        let probe = match &self.state {
            CircuitState::HalfOpen { entered_at, max_probes, in_flight_probes, completed_probes, succeeded_probes } =>
                Some((*entered_at, *max_probes, *in_flight_probes, *completed_probes, *succeeded_probes)),
            _ => None,
        };
        match probe {
            Some(_) => {
                let next = self.open_state(OpenReason::HalfOpenFailed, "halfOpen".to_owned(), now);
                self.state = next;
                return;
            },
            None => {},
        }
        let ghost ts0 = self.trigger_views();
        let mut i: usize = 0;
        while i < self.triggers.len()
            invariant
                ts0 == old(self).trigger_views(),
                self.triggers@.len() == ts0.len(),
                i <= ts0.len(),
                failure_from(ts0, window_now, 0) == failure_from(self.trigger_views(), window_now, i as int),
                !(old(self).state@ is HalfOpen),
                self.state == old(self).state,
                self.config == old(self).config,
                self.key == old(self).key,
            decreases ts0.len() - i,
        {
            let ghost before = self.trigger_views();
            let ghost t = before[i as int];
            assert(self.triggers@[i as int].tv() == t);
            if self.triggers[i].config.kind == TriggerKind::ConsecutiveFailures {
                let f = self.triggers[i].consecutive_failures.saturating_add(1);
                self.triggers[i].consecutive_failures = f;
                assert(self.trigger_views() =~= before.update(i as int, TriggerView { consecutive_failures: f, ..t }));
                if f as u128 * PPM as u128 >= self.triggers[i].config.threshold_ppm as u128 {
                    assert(failure_from(before, window_now, i as int) == (
                        before.update(i as int, TriggerView { consecutive_failures: f, ..t }),
                        Some((OpenReason::ConsecutiveFailures, t.name)),
                    ));
                    let name = self.triggers[i].config.name.clone();
                    let next = self.open_state(OpenReason::ConsecutiveFailures, name, now);
                    self.state = next;
                    return;
                }
            } else {
                self.triggers[i].window.record_at(WindowEvent::Failure, window_now);
                assert(self.trigger_views() =~= before.update(i as int, recorded(t, WindowEvent::Failure, window_now)));
            }
            i += 1;
        }
        self.evaluate_passive_triggers(now, window_now);
    }

    /// Records a failure now.
    pub fn on_failure(&mut self)
        requires
            old(self).wf(),
        ensures
            final(self).wf(),
            exists|now: i64, wnow: i64| (final(self).current(), final(self).trigger_views()) == #[trigger] failure_spec(
                old(self).current(),
                old(self).trigger_views(),
                old(self).half_open(),
                old(self).cooldown_ms(),
                now,
                wnow,
            ),
            final(self).configuration() == old(self).configuration(),
            final(self).key_view() == old(self).key_view(),
    {
        let now = wall_clock_millis();
        let window_now = self.clock();
        self.on_failure_at(now, window_now);
    }

    /// Records a timeout at time `now`, with the windows at `window_now`.
    pub fn on_timeout_at(&mut self, now: i64, window_now: i64)
        requires
            old(self).wf(),
        ensures
            final(self).wf(),
            (final(self).current(), final(self).trigger_views()) == timeout_spec(
                old(self).current(),
                old(self).trigger_views(),
                old(self).cooldown_ms(),
                now,
                window_now,
            ),
            final(self).configuration() == old(self).configuration(),
            final(self).key_view() == old(self).key_view(),
    {
        let ghost ts0 = self.trigger_views();
        let mut i: usize = 0;
        while i < self.triggers.len()
            invariant
                ts0 == old(self).trigger_views(),
                self.triggers@.len() == ts0.len(),
                i <= ts0.len(),
                forall|j: int| 0 <= j < i ==> #[trigger] self.triggers@[j].tv() == recorded(ts0[j], WindowEvent::Timeout, window_now),
                forall|j: int| i <= j < ts0.len() ==> #[trigger] self.triggers@[j].tv() == ts0[j],
                self.state == old(self).state,
                self.config == old(self).config,
                self.key == old(self).key,
            decreases ts0.len() - i,
        {
            assert(self.triggers@[i as int].tv() == ts0[i as int]);
            self.triggers[i].window.record_at(WindowEvent::Timeout, window_now);
            i += 1;
        }
        assert(self.trigger_views() =~= ts0.map_values(|t: TriggerView| recorded(t, WindowEvent::Timeout, window_now)));
        self.evaluate_passive_triggers(now, window_now);
    }

    /// Records a timeout now.
    pub fn on_timeout(&mut self)
        requires
            old(self).wf(),
        ensures
            final(self).wf(),
            exists|now: i64, wnow: i64| (final(self).current(), final(self).trigger_views()) == #[trigger] timeout_spec(
                old(self).current(),
                old(self).trigger_views(),
                old(self).cooldown_ms(),
                now,
                wnow,
            ),
            final(self).configuration() == old(self).configuration(),
            final(self).key_view() == old(self).key_view(),
    {
        let now = wall_clock_millis();
        let window_now = self.clock();
        self.on_timeout_at(now, window_now);
    }
}


/// Which state changes a breaker makes: a closed breaker only ever opens; an open breaker
/// never closes directly; a breaker enters half-open only from open, once its cooldown has
/// passed.
pub open spec fn transition_allowed(before: CircuitStateView, after: CircuitStateView, now: i64) -> bool {
    &&& (before is Closed ==> !(after is HalfOpen))
    &&& (before is Open ==> !(after is Closed))
    &&& (after is HalfOpen && !(before is HalfOpen)) ==> (before matches CircuitStateView::Open { cooldown_until, .. } && now >= cooldown_until)
}

/// Every operation of a breaker respects the state graph closed -> open -> half-open ->
/// closed (or back to open).
pub proof fn lemma_breaker_transitions(
    st: CircuitStateView,
    ts: Seq<TriggerView>,
    h: HalfOpenConfig,
    cooldown_ms: u64,
    now: i64,
    wnow: i64,
)
    ensures
        transition_allowed(st, allow_spec(st, h, now).0, now),
        transition_allowed(st, success_spec(st, ts, h, cooldown_ms, now, wnow).0, now),
        transition_allowed(st, failure_spec(st, ts, h, cooldown_ms, now, wnow).0, now),
        transition_allowed(st, timeout_spec(st, ts, cooldown_ms, now, wnow).0, now),
{
}

/// A closed breaker admits every request and stays closed.
pub proof fn lemma_closed_admits(h: HalfOpenConfig, now: i64)
    ensures
        allow_spec(CircuitStateView::Closed, h, now) == (CircuitStateView::Closed, None::<(OpenReason, Seq<char>)>),
{
}

/// An open breaker refuses every request before its cooldown ends, with the reason and the
/// trigger that opened it, and stays as it is.
pub proof fn lemma_open_refuses_until_cooldown(
    opened_at: i64,
    reason: OpenReason,
    trigger: Seq<char>,
    cooldown_until: i64,
    h: HalfOpenConfig,
    now: i64,
)
    requires
        now < cooldown_until,
    ensures
        ({
            let st = CircuitStateView::Open { opened_at, reason, trigger, cooldown_until };
            allow_spec(st, h, now) == (st, Some((reason, trigger)))
        }),
{
}

/// After its cooldown an open breaker turns half-open and admits a first probe, when the
/// configuration allows any concurrent probe.
pub proof fn lemma_cooldown_admits_a_probe(
    opened_at: i64,
    reason: OpenReason,
    trigger: Seq<char>,
    cooldown_until: i64,
    h: HalfOpenConfig,
    now: i64,
)
    requires
        now >= cooldown_until,
        h.max_concurrent_probes > 0,
    ensures
        allow_spec(CircuitStateView::Open { opened_at, reason, trigger, cooldown_until }, h, now) == (
            CircuitStateView::HalfOpen {
                entered_at: now,
                max_probes: h.max_probes,
                in_flight_probes: 1,
                completed_probes: 0,
                succeeded_probes: 0,
            },
            None::<(OpenReason, Seq<char>)>,
        ),
{
}

/// The successful probe that completes the half-open phase closes the breaker when the
/// successful share of the probes reaches the configured rate, and reopens it otherwise.
pub proof fn lemma_last_probe_decides(
    entered_at: i64,
    max_probes: usize,
    in_flight: usize,
    completed: usize,
    succeeded: usize,
    ts: Seq<TriggerView>,
    h: HalfOpenConfig,
    cooldown_ms: u64,
    now: i64,
    wnow: i64,
)
    requires
        completed + 1 >= h.max_probes,
    ensures
        ({
            let st = CircuitStateView::HalfOpen {
                entered_at,
                max_probes,
                in_flight_probes: in_flight,
                completed_probes: completed,
                succeeded_probes: succeeded,
            };
            &&& success_spec(st, ts, h, cooldown_ms, now, wnow).0 == if rate_met(succeeded + 1, completed + 1, h.success_rate_ppm as int) {
                CircuitStateView::Closed
            } else {
                opened(OpenReason::HalfOpenFailed, "halfOpen"@, now, cooldown_ms)
            }
        }),
{
}

/// A failed half-open probe reopens the breaker at once, for `HalfOpenFailed` under the
/// trigger `halfOpen`, with a fresh cooldown; the triggers are left as they were.
pub proof fn lemma_failed_probe_reopens(
    entered_at: i64,
    max_probes: usize,
    in_flight: usize,
    completed: usize,
    succeeded: usize,
    ts: Seq<TriggerView>,
    h: HalfOpenConfig,
    cooldown_ms: u64,
    now: i64,
    wnow: i64,
)
    ensures
        failure_spec(
            CircuitStateView::HalfOpen {
                entered_at,
                max_probes,
                in_flight_probes: in_flight,
                completed_probes: completed,
                succeeded_probes: succeeded,
            },
            ts,
            h,
            cooldown_ms,
            now,
            wnow,
        ) == (opened(OpenReason::HalfOpenFailed, "halfOpen"@, now, cooldown_ms), ts),
{
}

/// Outside the half-open phase a failure that brings the first trigger, a consecutive-failure
/// trigger, to its threshold opens the breaker for consecutive failures.
pub proof fn lemma_consecutive_failures_open(
    st: CircuitStateView,
    ts: Seq<TriggerView>,
    h: HalfOpenConfig,
    cooldown_ms: u64,
    now: i64,
    wnow: i64,
)
    requires
        !(st is HalfOpen),
        ts.len() > 0,
        ts[0].kind == TriggerKind::ConsecutiveFailures,
        ts[0].consecutive_failures.saturating_add(1) * PPM >= ts[0].threshold_ppm,
    ensures
        failure_spec(st, ts, h, cooldown_ms, now, wnow).0 == opened(OpenReason::ConsecutiveFailures, ts[0].name, now, cooldown_ms),
{
}

/// Outside the completion of the half-open phase a success restarts every consecutive-failure
/// count.
pub proof fn lemma_success_resets_consecutive_failures(
    st: CircuitStateView,
    ts: Seq<TriggerView>,
    h: HalfOpenConfig,
    cooldown_ms: u64,
    now: i64,
    wnow: i64,
)
    requires
        !(st matches CircuitStateView::HalfOpen { completed_probes, .. } && completed_probes + 1 >= h.max_probes),
    ensures
        forall|i: int| 0 <= i < ts.len() && ts[i].kind == TriggerKind::ConsecutiveFailures ==>
            #[trigger] success_spec(st, ts, h, cooldown_ms, now, wnow).1[i].consecutive_failures == 0,
{
}

/// A successful probe that does not complete the half-open phase frees the slot it held: one
/// probe fewer is in flight, one more has completed and succeeded, and a breaker that had
/// probes in flight up to its concurrent limit admits the next probe at any later time, which
/// then holds the freed slot.
pub proof fn lemma_success_frees_probe_slot(
    entered_at: i64,
    max_probes: usize,
    in_flight: usize,
    completed: usize,
    succeeded: usize,
    ts: Seq<TriggerView>,
    h: HalfOpenConfig,
    cooldown_ms: u64,
    now: i64,
    wnow: i64,
    later: i64,
)
    requires
        completed + 1 < h.max_probes,
        succeeded <= completed,
        0 < in_flight <= h.max_concurrent_probes,
    ensures
        ({
            let st = CircuitStateView::HalfOpen {
                entered_at,
                max_probes,
                in_flight_probes: in_flight,
                completed_probes: completed,
                succeeded_probes: succeeded,
            };
            let after = success_spec(st, ts, h, cooldown_ms, now, wnow).0;
            &&& after matches CircuitStateView::HalfOpen { in_flight_probes, completed_probes, succeeded_probes, .. }
                && in_flight_probes + 1 == in_flight && completed_probes == completed + 1 && succeeded_probes
                == succeeded + 1
            &&& allow_spec(after, h, later).1 is None
            &&& allow_spec(after, h, later).0 matches CircuitStateView::HalfOpen { in_flight_probes, .. }
                && in_flight_probes == in_flight
        }),
{
}

/// An error-rate trigger counts only failures: its verdict on window totals does not change
/// with their timeouts or safety violations; it trips, for `ErrorRate`, exactly when the
/// window holds requests and failures reach the threshold's share of them; and a window
/// without failures never trips a trigger with a positive threshold.
pub proof fn lemma_error_rate_counts_only_failures(threshold_ppm: u64, t: WindowTotals, timeouts: u64, violations: u64)
    ensures
        trips(TriggerKind::ErrorRate, threshold_ppm, t) == trips(
            TriggerKind::ErrorRate,
            threshold_ppm,
            WindowTotals { timeouts, safety_violations: violations, ..t },
        ),
        trips(TriggerKind::ErrorRate, threshold_ppm, t) is Some <==> (t.requests > 0 && t.failures * 1_000_000
            >= threshold_ppm * t.requests),
        trips(TriggerKind::ErrorRate, threshold_ppm, t) is Some ==> trips(TriggerKind::ErrorRate, threshold_ppm, t)
            == Some(OpenReason::ErrorRate),
        t.failures == 0 && threshold_ppm > 0 ==> trips(TriggerKind::ErrorRate, threshold_ppm, t) is None,
{
    if t.failures == 0 && threshold_ppm > 0 && t.requests > 0 {
        assert(threshold_ppm * t.requests > 0) by (nonlinear_arith)
            requires
                threshold_ppm > 0,
                t.requests > 0,
        ;
    }
}

/// A timeout-rate trigger counts only timeouts: its verdict does not change with the
/// window's failures or safety violations, and it trips exactly when the window holds
/// requests and timeouts reach the threshold's share of them.
pub proof fn lemma_timeout_rate_counts_only_timeouts(threshold_ppm: u64, t: WindowTotals, failures: u64, violations: u64)
    ensures
        trips(TriggerKind::TimeoutRate, threshold_ppm, t) == trips(
            TriggerKind::TimeoutRate,
            threshold_ppm,
            WindowTotals { failures, safety_violations: violations, ..t },
        ),
        trips(TriggerKind::TimeoutRate, threshold_ppm, t) is Some <==> (t.requests > 0 && t.timeouts * 1_000_000
            >= threshold_ppm * t.requests),
        trips(TriggerKind::TimeoutRate, threshold_ppm, t) is Some ==> trips(TriggerKind::TimeoutRate, threshold_ppm, t)
            == Some(OpenReason::TimeoutRate),
{
}

/// Triggers that all watch the error rate, with positive thresholds.
pub open spec fn error_rate_only(ts: Seq<TriggerView>) -> bool {
    forall|i: int| 0 <= i < ts.len() ==> #[trigger] ts[i].kind == TriggerKind::ErrorRate && ts[i].threshold_ppm > 0
}

/// No window of the triggers holds a failure.
pub open spec fn no_failures(ts: Seq<TriggerView>) -> bool {
    forall|i: int, j: int| 0 <= i < ts.len() && 0 <= j < ts[i].buckets.len() ==> #[trigger] ts[i].buckets[j].failures == 0
}

proof fn lemma_sum_without_failures(s: Seq<Bucket>)
    requires
        forall|j: int| 0 <= j < s.len() ==> #[trigger] s[j].failures == 0,
    ensures
        sum_totals(s).failures == 0,
    decreases s.len(),
{
    if s.len() > 0 {
        let q = s.drop_last();
        assert forall|j: int| 0 <= j < q.len() implies #[trigger] q[j].failures == 0 by {
            assert(q[j] == s[j]);
        }
        assert(s[s.len() - 1].failures == 0);
        lemma_sum_without_failures(q);
    }
}

proof fn lemma_record_keeps_no_failures(t: TriggerView, e: WindowEvent, wnow: i64)
    requires
        e != WindowEvent::Failure,
        forall|j: int| 0 <= j < t.buckets.len() ==> #[trigger] t.buckets[j].failures == 0,
    ensures
        forall|j: int| 0 <= j < recorded(t, e, wnow).buckets.len() ==> #[trigger] recorded(t, e, wnow).buckets[j].failures == 0,
{
    let p = pruned(t.buckets, wnow, t.window_ms);
    crate::circuit::window::lemma_pruned_is_suffix(t.buckets, wnow, t.window_ms);
    let k = t.buckets.len() - p.len();
    assert forall|j: int| 0 <= j < p.len() implies #[trigger] p[j].failures == 0 by {
        assert(p[j] == t.buckets[k + j]);
    }
    if p.len() > 0 {
        assert(p[p.len() - 1].failures == 0);
    }
}

proof fn lemma_quiet_error_rates(ts: Seq<TriggerView>, wnow: i64, i: int)
    requires
        0 <= i,
        error_rate_only(ts),
        no_failures(ts),
    ensures
        passive_from(ts, wnow, i).1 is None,
        error_rate_only(passive_from(ts, wnow, i).0),
        no_failures(passive_from(ts, wnow, i).0),
    decreases ts.len() - i,
{
    if i < ts.len() {
        let t = ts[i];
        let p = pruned(t.buckets, wnow, t.window_ms);
        crate::circuit::window::lemma_pruned_is_suffix(t.buckets, wnow, t.window_ms);
        let k = t.buckets.len() - p.len();
        assert forall|j: int| 0 <= j < p.len() implies #[trigger] p[j].failures == 0 by {
            assert(p[j] == t.buckets[k + j]);
            assert(ts[i].buckets[k + j].failures == 0);
        }
        lemma_sum_without_failures(p);
        assert(ts[i].kind == TriggerKind::ErrorRate && ts[i].threshold_ppm > 0);
        lemma_error_rate_counts_only_failures(t.threshold_ppm, sum_totals(p), 0, 0);
        let ts2 = ts.update(i, TriggerView { buckets: p, ..t });
        assert forall|x: int, j: int| 0 <= x < ts2.len() && 0 <= j < ts2[x].buckets.len() implies #[trigger] ts2[x].buckets[j].failures == 0 by {
            if x != i {
                assert(ts2[x] == ts[x]);
            }
        }
        assert forall|x: int| 0 <= x < ts2.len() implies #[trigger] ts2[x].kind == TriggerKind::ErrorRate && ts2[x].threshold_ppm > 0 by {
            if x != i {
                assert(ts2[x] == ts[x]);
            }
        }
        lemma_quiet_error_rates(ts2, wnow, i + 1);
    }
}

/// A closed breaker whose triggers all watch the error rate, with positive thresholds, and
/// whose windows hold no failure stays closed through any timeout and any success, and its
/// windows still hold no failure afterwards: timeouts and successes never open it.
pub proof fn lemma_error_rate_ignores_timeouts_and_successes(
    ts: Seq<TriggerView>,
    h: HalfOpenConfig,
    cooldown_ms: u64,
    now: i64,
    wnow: i64,
)
    requires
        error_rate_only(ts),
        no_failures(ts),
    ensures
        timeout_spec(CircuitStateView::Closed, ts, cooldown_ms, now, wnow).0 == CircuitStateView::Closed,
        error_rate_only(timeout_spec(CircuitStateView::Closed, ts, cooldown_ms, now, wnow).1),
        no_failures(timeout_spec(CircuitStateView::Closed, ts, cooldown_ms, now, wnow).1),
        success_spec(CircuitStateView::Closed, ts, h, cooldown_ms, now, wnow).0 == CircuitStateView::Closed,
        error_rate_only(success_spec(CircuitStateView::Closed, ts, h, cooldown_ms, now, wnow).1),
        no_failures(success_spec(CircuitStateView::Closed, ts, h, cooldown_ms, now, wnow).1),
{
    let ts1 = ts.map_values(|t: TriggerView| recorded(t, WindowEvent::Timeout, wnow));
    assert forall|i: int| 0 <= i < ts1.len() implies #[trigger] ts1[i].kind == TriggerKind::ErrorRate
        && ts1[i].threshold_ppm > 0 by {
        assert(ts[i].kind == TriggerKind::ErrorRate && ts[i].threshold_ppm > 0);
    }
    assert forall|i: int, j: int| 0 <= i < ts1.len() && 0 <= j < ts1[i].buckets.len() implies #[trigger] ts1[i].buckets[j].failures
        == 0 by {
        assert forall|m: int| 0 <= m < ts[i].buckets.len() implies #[trigger] ts[i].buckets[m].failures == 0 by {}
        lemma_record_keeps_no_failures(ts[i], WindowEvent::Timeout, wnow);
    }
    lemma_quiet_error_rates(ts1, wnow, 0);
    let ts2 = ts.map_values(|t: TriggerView| after_success(t, wnow));
    assert forall|i: int| 0 <= i < ts2.len() implies #[trigger] ts2[i].kind == TriggerKind::ErrorRate
        && ts2[i].threshold_ppm > 0 by {
        assert(ts[i].kind == TriggerKind::ErrorRate && ts[i].threshold_ppm > 0);
    }
    assert forall|i: int, j: int| 0 <= i < ts2.len() && 0 <= j < ts2[i].buckets.len() implies #[trigger] ts2[i].buckets[j].failures
        == 0 by {
        assert forall|m: int| 0 <= m < ts[i].buckets.len() implies #[trigger] ts[i].buckets[m].failures == 0 by {}
        lemma_record_keeps_no_failures(ts[i], WindowEvent::Success, wnow);
        assert(ts2[i].buckets == recorded(ts[i], WindowEvent::Success, wnow).buckets);
    }
}

} // verus!
