//! Time-bucketed counters of request outcomes over a sliding window.
//!
//! Durations are milliseconds. A sliding window reads the monotonic clock, a metric window
//! the wall clock; the `_at` forms take the time as an argument.
use std::collections::VecDeque;

use vstd::prelude::*;

use crate::ext::millis_since;

verus! {

#[derive(Debug, Clone, Copy, PartialEq, Eq, Structural)]
pub enum WindowEvent {
    Success,
    Failure,
    Timeout,
    SafetyViolation,
}

/// The outcomes counted in one bucket, opened at `opened_at`.
#[derive(Debug, Clone, Copy, PartialEq, Eq, Structural)]
pub struct Bucket {
    pub opened_at: i64,
    pub requests: u64,
    pub failures: u64,
    pub timeouts: u64,
    pub safety_violations: u64,
}

/// The outcome totals of the buckets still inside the window.
#[derive(Debug, Clone, Copy, Default, PartialEq, Eq, Structural)]
pub struct WindowTotals {
    pub requests: u64,
    pub failures: u64,
    pub timeouts: u64,
    pub safety_violations: u64,
}

/// How long ago `t` was at time `now`; zero for a time that is not yet past.
pub open spec fn age(now: i64, t: i64) -> int {
    if now >= t {
        now - t
    } else {
        0
    }
}

/// `b` counted with one more event. Every event is a request; failures, timeouts and safety
/// violations are also counted under their own kind. A bucket whose request counter is full
/// (`u64::MAX`) counts no more events.
pub open spec fn applied(b: Bucket, e: WindowEvent) -> Bucket {
    if b.requests == u64::MAX {
        b
    } else {
        applied_unchecked(b, e)
    }
}

/// `b` with one more request and, for a failure, timeout or safety violation, one more of it.
pub open spec fn applied_unchecked(b: Bucket, e: WindowEvent) -> Bucket {
    Bucket {
        opened_at: b.opened_at,
        requests: b.requests.saturating_add(1),
        failures: if e == WindowEvent::Failure { b.failures.saturating_add(1) } else { b.failures },
        timeouts: if e == WindowEvent::Timeout { b.timeouts.saturating_add(1) } else { b.timeouts },
        safety_violations: if e == WindowEvent::SafetyViolation {
            b.safety_violations.saturating_add(1)
        } else {
            b.safety_violations
        },
    }
}

/// The buckets left after dropping, from the oldest, those older than the window.
pub open spec fn pruned(s: Seq<Bucket>, now: i64, window_ms: u64) -> Seq<Bucket>
    decreases s.len(),
{
    if s.len() > 0 && age(now, s[0].opened_at) > window_ms {
        pruned(s.drop_first(), now, window_ms)
    } else {
        s
    }
}

/// The buckets after recording `e` at `now`: the newest bucket counts it while it is younger
/// than a bucket's span; otherwise a new bucket opens at `now`.
pub open spec fn after_record(
    s: Seq<Bucket>,
    now: i64,
    e: WindowEvent,
    window_ms: u64,
    bucket_ms: u64,
) -> Seq<Bucket> {
    let p = pruned(s, now, window_ms);
    if p.len() > 0 && age(now, p.last().opened_at) < bucket_ms {
        p.drop_last().push(applied(p.last(), e))
    } else {
        p.push(
            applied(
                Bucket { opened_at: now, requests: 0, failures: 0, timeouts: 0, safety_violations: 0 },
                e,
            ),
        )
    }
}

/// The saturating sum of the buckets' counters.
pub open spec fn sum_totals(s: Seq<Bucket>) -> WindowTotals
    decreases s.len(),
{
    if s.len() == 0 {
        WindowTotals { requests: 0, failures: 0, timeouts: 0, safety_violations: 0 }
    } else {
        let t = sum_totals(s.drop_last());
        let b = s.last();
        WindowTotals {
            requests: t.requests.saturating_add(b.requests),
            failures: t.failures.saturating_add(b.failures),
            timeouts: t.timeouts.saturating_add(b.timeouts),
            safety_violations: t.safety_violations.saturating_add(b.safety_violations),
        }
    }
}

impl Bucket {
    fn apply(&mut self, event: WindowEvent)
        ensures
            *final(self) == applied(*old(self), event),
    {
        if self.requests == u64::MAX {
            return;
        }
        match event {
            WindowEvent::Success => self.requests = self.requests.saturating_add(1),
            WindowEvent::Failure => {
                self.requests = self.requests.saturating_add(1);
                self.failures = self.failures.saturating_add(1);
            },
            WindowEvent::Timeout => {
                self.requests = self.requests.saturating_add(1);
                self.timeouts = self.timeouts.saturating_add(1);
            },
            WindowEvent::SafetyViolation => {
                self.requests = self.requests.saturating_add(1);
                self.safety_violations = self.safety_violations.saturating_add(1);
            },
        }
    }
}

fn age_exceeds(now: i64, t: i64, limit: u64) -> (b: bool)
    ensures
        b == (age(now, t) > limit),
{
    let a: i128 = if now >= t {
        now as i128 - t as i128
    } else {
        0
    };
    a > limit as i128
}

fn age_below(now: i64, t: i64, limit: u64) -> (b: bool)
    ensures
        b == (age(now, t) < limit),
{
    let a: i128 = if now >= t {
        now as i128 - t as i128
    } else {
        0
    };
    a < limit as i128
}

/// Counts request outcomes in buckets of `bucket_size` over the last `window`. The
/// clock-reading forms measure time on the monotonic clock, in milliseconds since the window
/// was made; the `_at` forms take times on any one clock.
pub struct SlidingWindow {
    window: u64,
    buckets: VecDeque<Bucket>,
    bucket_size: u64,
    origin: std::time::Instant,
    times: Ghost<Seq<i64>>,
    latest: Ghost<int>,
    in_order: Ghost<bool>,
}

/// Milliseconds as an `i64`, held to `i64::MAX`.
pub(crate) fn clamp_millis(ms: u128) -> (r: i64)
    ensures
        r == if ms > i64::MAX { i64::MAX as int } else { ms as int },
{
    if ms > i64::MAX as u128 {
        i64::MAX
    } else {
        ms as i64
    }
}

/// Drops, from the oldest, the buckets older than the window.
fn prune_buckets(buckets: &mut VecDeque<Bucket>, now: i64, window: u64)
    ensures
        final(buckets)@ == pruned(old(buckets)@, now, window),
{
    while buckets.len() > 0 && age_exceeds(now, buckets[0].opened_at, window)
        invariant
            pruned(buckets@, now, window) == pruned(old(buckets)@, now, window),
        decreases buckets@.len(),
    {
        let ghost before = buckets@;
        buckets.pop_front();
        assert(buckets@ == before.drop_first());
    }
}

/// The later of a time and `now`.
pub open spec fn later(t: int, now: i64) -> int {
    if now > t {
        now as int
    } else {
        t
    }
}

/// The current time on the wall clock, in milliseconds since the UNIX epoch (negative
/// before it).
pub(crate) fn wall_clock_millis() -> i64 {
    match crate::ext::millis_from_epoch(&crate::ext::system_now()) {
        Ok(ms) => clamp_millis(ms),
        Err(ms) => 0i64 - clamp_millis(ms),
    }
}

impl SlidingWindow {
    /// No bucket counts more failures, timeouts and safety violations together than
    /// requests, and buckets have a span; while the window's operations came in time order,
    /// with buckets no longer than the window and fewer than `u64::MAX` events, the buckets
    /// account for the events recorded.
    #[verifier::type_invariant]
    spec fn consistent(self) -> bool {
        &&& all_kinds_within_requests(self.buckets@)
        &&& self.bucket_size > 0
        &&& self.in_order@ ==> {
            &&& self.bucket_size <= self.window
            &&& self.times@.len() < u64::MAX
            &&& accounts_for(self.buckets@, self.times@, self.latest@, self.window, self.bucket_size)
        }
    }

    pub closed spec fn window_ms(&self) -> u64 {
        self.window
    }

    pub closed spec fn bucket_ms(&self) -> u64 {
        self.bucket_size
    }

    /// The buckets, oldest first.
    pub closed spec fn buckets(&self) -> Seq<Bucket> {
        self.buckets@
    }

    /// The times of the events recorded, in the order they were recorded.
    pub closed spec fn event_times(&self) -> Seq<i64> {
        self.times@
    }

    /// The latest time of an operation on the window.
    pub closed spec fn latest_time(&self) -> int {
        self.latest@
    }

    /// Whether every operation came no earlier than the one before, the buckets are no
    /// longer than the window, and fewer than `u64::MAX` events were recorded.
    pub closed spec fn in_time_order(&self) -> bool {
        self.in_order@
    }

    /// A window of `window` milliseconds counted in one-second buckets.
    pub fn new(window: u64) -> (w: Self)
        requires
            window > 0,
        ensures
            w.window_ms() == window,
            w.bucket_ms() == 1000,
            w.buckets() == Seq::<Bucket>::empty(),
            w.event_times() == Seq::<i64>::empty(),
            w.in_time_order() == (1000 <= window),
            w.latest_time() == i64::MIN as int,
    {
        Self::with_bucket_size(window, 1000)
    }

    pub fn with_bucket_size(window: u64, bucket_size: u64) -> (w: Self)
        requires
            window > 0,
            bucket_size > 0,
        ensures
            w.window_ms() == window,
            w.bucket_ms() == bucket_size,
            w.buckets() == Seq::<Bucket>::empty(),
            w.event_times() == Seq::<i64>::empty(),
            w.in_time_order() == (bucket_size <= window),
            w.latest_time() == i64::MIN as int,
    {
        SlidingWindow {
            window,
            buckets: VecDeque::new(),
            bucket_size,
            origin: crate::ext::instant_now(),
            times: Ghost(Seq::empty()),
            latest: Ghost(i64::MIN as int),
            in_order: Ghost(bucket_size <= window),
        }
    }

    /// Takes the buckets out, leaving none, and forgets that the operations were in order.
    fn take_buckets(&mut self) -> (b: VecDeque<Bucket>)
        ensures
            b@ == old(self).buckets(),
            all_kinds_within_requests(b@),
            old(self).in_time_order() ==> old(self).bucket_ms() <= old(self).window_ms()
                && old(self).event_times().len() < u64::MAX && accounts_for(
                b@,
                old(self).event_times(),
                old(self).latest_time(),
                old(self).window_ms(),
                old(self).bucket_ms(),
            ),
            old(self).bucket_ms() > 0,
            final(self).buckets() == Seq::<Bucket>::empty(),
            final(self).window_ms() == old(self).window_ms(),
            final(self).bucket_ms() == old(self).bucket_ms(),
            final(self).event_times() == old(self).event_times(),
            final(self).latest_time() == old(self).latest_time(),
            !final(self).in_time_order(),
    {
        proof {
            use_type_invariant(&*self);
        }
        self.in_order = Ghost(false);
        let mut b: VecDeque<Bucket> = VecDeque::new();
        std::mem::swap(&mut b, &mut self.buckets);
        b
    }

    fn prune(&mut self, now: i64)
        ensures
            final(self).buckets() == pruned(old(self).buckets(), now, old(self).window_ms()),
            final(self).window_ms() == old(self).window_ms(),
            final(self).bucket_ms() == old(self).bucket_ms(),
            final(self).event_times() == old(self).event_times(),
            final(self).latest_time() == later(old(self).latest_time(), now),
            final(self).in_time_order() == (old(self).in_time_order() && old(self).latest_time() <= now),
    {
        let ghost was = self.in_order@;
        let ghost latest = self.latest@;
        let mut b = self.take_buckets();
        let ghost before = b@;
        prune_buckets(&mut b, now, self.window);
        proof {
            lemma_pruned_is_suffix(before, now, self.window);
            let k = before.len() - b@.len();
            assert forall|i: int| 0 <= i < b@.len() implies kinds_within_requests(#[trigger] b@[i]) by {
                assert(b@[i] == before[k + i]);
            }
            if was && latest <= now {
                lemma_prune_accounts(before, self.times@, latest, now, self.window, self.bucket_size);
            }
        }
        self.latest = Ghost(later(latest, now));
        self.buckets = b;
        let ghost flag = was && latest <= now;
        self.in_order = Ghost(flag);
    }

    /// Records an event at time `now`. While the window's requests fit below `u64::MAX`,
    /// it counts exactly one event more than the buckets that pruning at `now` leaves.
    pub fn record_at(&mut self, event: WindowEvent, now: i64)
        ensures
            final(self).buckets() == after_record(
                old(self).buckets(),
                now,
                event,
                old(self).window_ms(),
                old(self).bucket_ms(),
            ),
            final(self).window_ms() == old(self).window_ms(),
            final(self).bucket_ms() == old(self).bucket_ms(),
            final(self).event_times() == old(self).event_times().push(now),
            final(self).latest_time() == later(old(self).latest_time(), now),
            final(self).in_time_order() == (old(self).in_time_order() && old(self).latest_time() <= now
                && old(self).event_times().len() + 1 < u64::MAX),
            all_kinds_within_requests(old(self).buckets()),
            all_kinds_within_requests(final(self).buckets()),
            sum_of(old(self).buckets(), |b: Bucket| b.requests) < u64::MAX ==> counts_one_more(
                pruned(old(self).buckets(), now, old(self).window_ms()),
                final(self).buckets(),
                event,
            ),
    {
        let ghost was = self.in_order@;
        let ghost latest = self.latest@;
        let ghost times = self.times@;
        proof {
            use_type_invariant(&*self);
            let s = self.buckets@;
            lemma_sum_bounds_each(s, |b: Bucket| b.requests);
            if sum_of(s, |b: Bucket| b.requests) < u64::MAX {
                assert forall|i: int| 0 <= i < s.len() implies bucket_has_room(#[trigger] s[i]) by {
                    assert((|b: Bucket| b.requests)(s[i]) <= sum_of(s, |b: Bucket| b.requests));
                }
                lemma_record_counts_one_event(s, now, event, self.window, self.bucket_size);
            }
            lemma_record_keeps_kinds_within_requests(s, now, event, self.window, self.bucket_size);
            if was && latest <= now && times.len() + 1 < u64::MAX {
                lemma_record_accounts(s, times, latest, now, event, self.window, self.bucket_size);
            }
        }
        let mut buckets = self.take_buckets();
        prune_buckets(&mut buckets, now, self.window);
        let n = buckets.len();
        if n > 0 && age_below(now, buckets[n - 1].opened_at, self.bucket_size) {
            let ghost p = buckets@;
            let mut last = buckets.pop_back().unwrap();
            last.apply(event);
            assert(p.subrange(0, p.len() - 1) == p.drop_last());
            buckets.push_back(last);
        } else {
            let mut bucket = Bucket {
                opened_at: now,
                requests: 0,
                failures: 0,
                timeouts: 0,
                safety_violations: 0,
            };
            bucket.apply(event);
            buckets.push_back(bucket);
        }
        self.times = Ghost(times.push(now));
        self.latest = Ghost(later(latest, now));
        self.buckets = buckets;
        let ghost flag = was && latest <= now && times.len() + 1 < u64::MAX;
        self.in_order = Ghost(flag);
    }

    /// The current time on the window's monotonic clock.
    fn clock(&self) -> i64 {
        clamp_millis(millis_since(&self.origin))
    }

    /// Records an event now.
    pub fn record(&mut self, event: WindowEvent)
        ensures
            exists|now: i64| {
                &&& final(self).buckets() == #[trigger] after_record(
                    old(self).buckets(),
                    now,
                    event,
                    old(self).window_ms(),
                    old(self).bucket_ms(),
                )
                &&& final(self).event_times() == old(self).event_times().push(now)
                &&& final(self).latest_time() == later(old(self).latest_time(), now)
                &&& final(self).in_time_order() == (old(self).in_time_order() && old(self).latest_time() <= now
                    && old(self).event_times().len() + 1 < u64::MAX)
                &&& sum_of(old(self).buckets(), |b: Bucket| b.requests) < u64::MAX ==> counts_one_more(
                    pruned(old(self).buckets(), now, old(self).window_ms()),
                    final(self).buckets(),
                    event,
                )
            },
            final(self).window_ms() == old(self).window_ms(),
            final(self).bucket_ms() == old(self).bucket_ms(),
    {
        let now = self.clock();
        self.record_at(event, now);
    }

    /// The totals of the buckets still inside the window at `now`; older buckets are dropped.
    /// Failures, timeouts and safety violations together never exceed requests, and while the
    /// requests fit in a `u64` the totals are the exact sums. When the window's operations
    /// came in time order, up to `now`, the requests count every event at most
    /// `window_ms - bucket_ms` old and no event more than `window_ms` old, so the totals are
    /// all zero once every event is older than the window.
    #[verifier::spinoff_prover]
    pub fn totals_at(&mut self, now: i64) -> (t: WindowTotals)
        ensures
            final(self).buckets() == pruned(old(self).buckets(), now, old(self).window_ms()),
            t == sum_totals(final(self).buckets()),
            final(self).window_ms() == old(self).window_ms(),
            final(self).bucket_ms() == old(self).bucket_ms(),
            final(self).event_times() == old(self).event_times(),
            final(self).latest_time() == later(old(self).latest_time(), now),
            final(self).in_time_order() == (old(self).in_time_order() && old(self).latest_time() <= now),
            all_kinds_within_requests(final(self).buckets()),
            sum_of(final(self).buckets(), |b: Bucket| b.requests) <= u64::MAX ==> {
                &&& t.requests == sum_of(final(self).buckets(), |b: Bucket| b.requests)
                &&& t.failures == sum_of(final(self).buckets(), |b: Bucket| b.failures)
                &&& t.timeouts == sum_of(final(self).buckets(), |b: Bucket| b.timeouts)
                &&& t.safety_violations == sum_of(final(self).buckets(), |b: Bucket| b.safety_violations)
                &&& t.failures + t.timeouts + t.safety_violations <= t.requests
            },
            final(self).in_time_order() ==> {
                let ts = old(self).event_times();
                let w = old(self).window_ms();
                let b = old(self).bucket_ms();
                &&& count_between(ts, now - w + b, beyond()) <= t.requests <= count_between(ts, now - w, beyond())
                &&& (forall|k: int| 0 <= k < ts.len() ==> #[trigger] ts[k] < now - w) ==> t == WindowTotals {
                    requests: 0,
                    failures: 0,
                    timeouts: 0,
                    safety_violations: 0,
                }
            },
    {
        proof {
            use_type_invariant(&*self);
            if self.in_order@ && self.latest@ <= now {
                lemma_totals_by_age(self.buckets@, self.times@, self.latest@, now, self.window, self.bucket_size);
            }
        }
        self.prune(now);
        proof {
            use_type_invariant(&*self);
            lemma_totals_within_requests(self.buckets@);
        }
        let mut totals = WindowTotals { requests: 0, failures: 0, timeouts: 0, safety_violations: 0 };
        let mut i: usize = 0;
        while i < self.buckets.len()
            invariant
                i <= self.buckets@.len(),
                totals == sum_totals(self.buckets@.take(i as int)),
            decreases self.buckets@.len() - i,
        {
            let b = self.buckets[i];
            assert(self.buckets@.take(i + 1).drop_last() == self.buckets@.take(i as int));
            totals.requests = totals.requests.saturating_add(b.requests);
            totals.failures = totals.failures.saturating_add(b.failures);
            totals.timeouts = totals.timeouts.saturating_add(b.timeouts);
            totals.safety_violations = totals.safety_violations.saturating_add(b.safety_violations);
            i += 1;
        }
        assert(self.buckets@.take(self.buckets@.len() as int) == self.buckets@);
        totals
    }

    /// The totals of the buckets still inside the window now.
    pub fn totals(&mut self) -> (t: WindowTotals)
        ensures
            exists|now: i64| {
                &&& final(self).buckets() == #[trigger] pruned(old(self).buckets(), now, old(self).window_ms())
                &&& t == sum_totals(final(self).buckets())
                &&& final(self).latest_time() == later(old(self).latest_time(), now)
                &&& final(self).in_time_order() == (old(self).in_time_order() && old(self).latest_time() <= now)
                &&& final(self).in_time_order() ==> {
                    let ts = old(self).event_times();
                    let w = old(self).window_ms();
                    let b = old(self).bucket_ms();
                    &&& count_between(ts, now - w + b, beyond()) <= t.requests <= count_between(ts, now - w, beyond())
                    &&& (forall|k: int| 0 <= k < ts.len() ==> #[trigger] ts[k] < now - w) ==> t == WindowTotals {
                        requests: 0,
                        failures: 0,
                        timeouts: 0,
                        safety_violations: 0,
                    }
                }
            },
            final(self).window_ms() == old(self).window_ms(),
            final(self).bucket_ms() == old(self).bucket_ms(),
            final(self).event_times() == old(self).event_times(),
            sum_of(final(self).buckets(), |b: Bucket| b.requests) <= u64::MAX ==> {
                &&& t.requests == sum_of(final(self).buckets(), |b: Bucket| b.requests)
                &&& t.failures == sum_of(final(self).buckets(), |b: Bucket| b.failures)
                &&& t.timeouts == sum_of(final(self).buckets(), |b: Bucket| b.timeouts)
                &&& t.safety_violations == sum_of(final(self).buckets(), |b: Bucket| b.safety_violations)
                &&& t.failures + t.timeouts + t.safety_violations <= t.requests
            },
    {
        let now = self.clock();
        self.totals_at(now)
    }
}

/// No bucket counts more failures, timeouts or safety violations than requests.
pub open spec fn counts_consistent(b: Bucket) -> bool {
    b.failures <= b.requests && b.timeouts <= b.requests && b.safety_violations <= b.requests
}

/// Counting an event keeps a bucket's counts consistent.
pub proof fn lemma_applied_keeps_counts_consistent(b: Bucket, e: WindowEvent)
    requires
        counts_consistent(b),
    ensures
        counts_consistent(applied(b, e)),
{
}

/// Summing consistent buckets gives consistent totals: the window never reports more
/// failures or timeouts than requests.
pub proof fn lemma_totals_consistent(s: Seq<Bucket>)
    requires
        forall|i: int| 0 <= i < s.len() ==> counts_consistent(#[trigger] s[i]),
    ensures
        sum_totals(s).failures <= sum_totals(s).requests,
        sum_totals(s).timeouts <= sum_totals(s).requests,
        sum_totals(s).safety_violations <= sum_totals(s).requests,
    decreases s.len(),
{
    if s.len() > 0 {
        assert(counts_consistent(s[s.len() - 1]));
        lemma_totals_consistent(s.drop_last());
    }
}

/// Pruning only ever drops the oldest buckets: what remains is a suffix, and the oldest
/// bucket left was opened within the window.
pub proof fn lemma_pruned_is_suffix(s: Seq<Bucket>, now: i64, window_ms: u64)
    ensures
        pruned(s, now, window_ms).len() <= s.len(),
        pruned(s, now, window_ms) == s.skip(s.len() - pruned(s, now, window_ms).len()),
        pruned(s, now, window_ms).len() > 0 ==> age(now, pruned(s, now, window_ms)[0].opened_at)
            <= window_ms,
    decreases s.len(),
{
    if s.len() > 0 && age(now, s[0].opened_at) > window_ms {
        lemma_pruned_is_suffix(s.drop_first(), now, window_ms);
        let p = pruned(s, now, window_ms);
        assert(s.drop_first().skip(s.drop_first().len() - p.len()) == s.skip(s.len() - p.len()));
    } else {
        assert(s.skip(0) == s);
    }
}

/// The exact (unbounded) sum of one counter over the buckets.
pub open spec fn sum_of(s: Seq<Bucket>, counter: spec_fn(Bucket) -> u64) -> int
    decreases s.len(),
{
    if s.len() == 0 {
        0
    } else {
        sum_of(s.drop_last(), counter) + counter(s.last())
    }
}

/// A bucket counts no more failures, timeouts and safety violations together than requests.
pub open spec fn kinds_within_requests(b: Bucket) -> bool {
    b.failures + b.timeouts + b.safety_violations <= b.requests
}

/// Every bucket counts no more failures, timeouts and safety violations together than
/// requests.
pub open spec fn all_kinds_within_requests(s: Seq<Bucket>) -> bool {
    forall|i: int| 0 <= i < s.len() ==> kinds_within_requests(#[trigger] s[i])
}

/// A bucket whose kinds are within its requests and whose request counter has room for one
/// more event.
pub open spec fn bucket_has_room(b: Bucket) -> bool {
    kinds_within_requests(b) && b.requests < u64::MAX
}

/// `after` counts exactly one event `e` more than `before`: one more request, and one more
/// under the event's own kind.
pub open spec fn counts_one_more(before: Seq<Bucket>, after: Seq<Bucket>, e: WindowEvent) -> bool {
    &&& sum_of(after, |b: Bucket| b.requests) == sum_of(before, |b: Bucket| b.requests) + 1
    &&& sum_of(after, |b: Bucket| b.failures) == sum_of(before, |b: Bucket| b.failures) + (if e
        == WindowEvent::Failure {
        1int
    } else {
        0int
    })
    &&& sum_of(after, |b: Bucket| b.timeouts) == sum_of(before, |b: Bucket| b.timeouts) + (if e
        == WindowEvent::Timeout {
        1int
    } else {
        0int
    })
    &&& sum_of(after, |b: Bucket| b.safety_violations) == sum_of(before, |b: Bucket| b.safety_violations)
        + (if e == WindowEvent::SafetyViolation {
        1int
    } else {
        0int
    })
}

/// No bucket counts more of a counter than the sum over all buckets.
pub proof fn lemma_sum_bounds_each(s: Seq<Bucket>, counter: spec_fn(Bucket) -> u64)
    ensures
        sum_of(s, counter) >= 0,
        forall|i: int| 0 <= i < s.len() ==> counter(#[trigger] s[i]) <= sum_of(s, counter),
    decreases s.len(),
{
    if s.len() > 0 {
        lemma_sum_bounds_each(s.drop_last(), counter);
        assert forall|i: int| 0 <= i < s.len() implies counter(#[trigger] s[i]) <= sum_of(s, counter) by {
            if i < s.len() - 1 {
                assert(s[i] == s.drop_last()[i]);
            }
        }
    }
}

/// Buckets opened in time order, none of them after `now`.
pub open spec fn opened_in_order(s: Seq<Bucket>, now: i64) -> bool {
    &&& forall|i: int, j: int| 0 <= i < j < s.len() ==> s[i].opened_at <= s[j].opened_at
    &&& forall|i: int| 0 <= i < s.len() ==> s[i].opened_at <= now
}

proof fn lemma_sum_of_push(s: Seq<Bucket>, b: Bucket, counter: spec_fn(Bucket) -> u64)
    ensures
        sum_of(s.push(b), counter) == sum_of(s, counter) + counter(b),
{
    assert(s.push(b).drop_last() =~= s);
}

/// Recording one event adds exactly one request to what the window still counts after
/// pruning, and exactly one to the counter of the event's own kind; nothing else changes.
/// When nothing was old enough to be pruned, the window counts exactly one event more than
/// before.
pub proof fn lemma_record_counts_one_event(
    s: Seq<Bucket>,
    now: i64,
    e: WindowEvent,
    window_ms: u64,
    bucket_ms: u64,
)
    requires
        forall|i: int| 0 <= i < s.len() ==> bucket_has_room(#[trigger] s[i]),
    ensures
        counts_one_more(pruned(s, now, window_ms), after_record(s, now, e, window_ms, bucket_ms), e),
        pruned(s, now, window_ms) == s ==> sum_of(
            after_record(s, now, e, window_ms, bucket_ms),
            |b: Bucket| b.requests,
        ) == sum_of(s, |b: Bucket| b.requests) + 1,
{
    let p = pruned(s, now, window_ms);
    lemma_pruned_is_suffix(s, now, window_ms);
    let k = s.len() - p.len();
    assert forall|i: int| 0 <= i < p.len() implies bucket_has_room(#[trigger] p[i]) by {
        assert(p[i] == s[k + i]);
    }
    let fr = |b: Bucket| b.requests;
    let ff = |b: Bucket| b.failures;
    let ft = |b: Bucket| b.timeouts;
    let fv = |b: Bucket| b.safety_violations;
    if p.len() > 0 && age(now, p.last().opened_at) < bucket_ms {
        let q = p.drop_last();
        assert(q.push(p.last()) =~= p);
        assert(bucket_has_room(p[p.len() - 1]));
        lemma_sum_of_push(q, p.last(), fr);
        lemma_sum_of_push(q, p.last(), ff);
        lemma_sum_of_push(q, p.last(), ft);
        lemma_sum_of_push(q, p.last(), fv);
        let b = applied(p.last(), e);
        lemma_sum_of_push(q, b, fr);
        lemma_sum_of_push(q, b, ff);
        lemma_sum_of_push(q, b, ft);
        lemma_sum_of_push(q, b, fv);
    } else {
        let b = applied(
            Bucket { opened_at: now, requests: 0, failures: 0, timeouts: 0, safety_violations: 0 },
            e,
        );
        lemma_sum_of_push(p, b, fr);
        lemma_sum_of_push(p, b, ff);
        lemma_sum_of_push(p, b, ft);
        lemma_sum_of_push(p, b, fv);
    }
}

/// Recording an event keeps every bucket counting at least as many requests as failures,
/// timeouts and safety violations together.
pub proof fn lemma_record_keeps_kinds_within_requests(
    s: Seq<Bucket>,
    now: i64,
    e: WindowEvent,
    window_ms: u64,
    bucket_ms: u64,
)
    requires
        all_kinds_within_requests(s),
    ensures
        all_kinds_within_requests(after_record(s, now, e, window_ms, bucket_ms)),
{
    let p = pruned(s, now, window_ms);
    lemma_pruned_is_suffix(s, now, window_ms);
    let k = s.len() - p.len();
    assert forall|i: int| 0 <= i < p.len() implies kinds_within_requests(#[trigger] p[i]) by {
        assert(p[i] == s[k + i]);
    }
    if p.len() > 0 {
        assert(kinds_within_requests(p[p.len() - 1]));
    }
}

/// Over the whole window, failures, timeouts and safety violations together never exceed
/// requests; while the requests fit in a `u64`, the reported totals are the exact sums.
pub proof fn lemma_totals_within_requests(s: Seq<Bucket>)
    requires
        all_kinds_within_requests(s),
    ensures
        sum_of(s, |b: Bucket| b.failures) + sum_of(s, |b: Bucket| b.timeouts) + sum_of(
            s,
            |b: Bucket| b.safety_violations,
        ) <= sum_of(s, |b: Bucket| b.requests),
        sum_of(s, |b: Bucket| b.requests) <= u64::MAX ==> {
            let t = sum_totals(s);
            &&& t.requests == sum_of(s, |b: Bucket| b.requests)
            &&& t.failures == sum_of(s, |b: Bucket| b.failures)
            &&& t.timeouts == sum_of(s, |b: Bucket| b.timeouts)
            &&& t.safety_violations == sum_of(s, |b: Bucket| b.safety_violations)
        },
    decreases s.len(),
{
    if s.len() > 0 {
        let q = s.drop_last();
        assert forall|i: int| 0 <= i < q.len() implies kinds_within_requests(#[trigger] q[i]) by {
            assert(q[i] == s[i]);
        }
        assert(kinds_within_requests(s[s.len() - 1]));
        lemma_totals_within_requests(q);
    }
}

/// Every bucket left after pruning at `now` was opened within the window, when the buckets
/// were opened in time order.
pub proof fn lemma_pruned_within_window(s: Seq<Bucket>, now: i64, window_ms: u64)
    requires
        opened_in_order(s, now),
    ensures
        forall|i: int|
            0 <= i < pruned(s, now, window_ms).len() ==> age(
                now,
                #[trigger] pruned(s, now, window_ms)[i].opened_at,
            ) <= window_ms,
{
    lemma_pruned_is_suffix(s, now, window_ms);
    let p = pruned(s, now, window_ms);
    let k = s.len() - p.len();
    assert forall|i: int| 0 <= i < p.len() implies age(now, #[trigger] p[i].opened_at) <= window_ms by {
        assert(p[i] == s[k + i]);
        assert(p[0] == s[k]);
        assert(s[k].opened_at <= s[k + i].opened_at);
    }
}

/// Recording at a time no earlier than any bucket keeps the buckets in time order, and the
/// newest bucket, which counted the event, is younger than a bucket's span.
pub proof fn lemma_record_keeps_time_order(
    s: Seq<Bucket>,
    now: i64,
    e: WindowEvent,
    window_ms: u64,
    bucket_ms: u64,
)
    requires
        opened_in_order(s, now),
        bucket_ms > 0,
    ensures
        opened_in_order(after_record(s, now, e, window_ms, bucket_ms), now),
        age(now, after_record(s, now, e, window_ms, bucket_ms).last().opened_at) < bucket_ms,
{
    lemma_pruned_is_suffix(s, now, window_ms);
    let p = pruned(s, now, window_ms);
    let k = s.len() - p.len();
    assert forall|i: int| 0 <= i < p.len() implies #[trigger] p[i] == s[k + i] by {}
}

/// Beyond every time: where the range of times of the newest bucket ends.
pub open spec fn beyond() -> int {
    i64::MAX as int + 1
}

/// How many of the times `ts` lie in `[lo, hi)`.
pub open spec fn count_between(ts: Seq<i64>, lo: int, hi: int) -> nat
    decreases ts.len(),
{
    if ts.len() == 0 {
        0
    } else {
        count_between(ts.drop_last(), lo, hi) + if lo <= ts.last() && ts.last() < hi {
            1nat
        } else {
            0nat
        }
    }
}

/// Where the range of times of bucket `i` ends: where the next bucket opens, or beyond every
/// time for the newest bucket.
pub open spec fn range_end(s: Seq<Bucket>, i: int) -> int {
    if i + 1 < s.len() {
        s[i + 1].opened_at as int
    } else {
        beyond()
    }
}

/// How buckets account for the events recorded at times `ts`, every operation on the window
/// having come no earlier than the one before and the last at `latest`: the buckets opened in
/// strictly increasing order; each counts exactly the events of its range of times, all of
/// which came before it was a bucket's span old; and every event before the oldest bucket
/// was more than `window_ms - bucket_ms` old at `latest`.
pub open spec fn accounts_for(s: Seq<Bucket>, ts: Seq<i64>, latest: int, window_ms: u64, bucket_ms: u64) -> bool {
    &&& forall|i: int, j: int| 0 <= i < j < s.len() ==> #[trigger] s[i].opened_at < #[trigger] s[j].opened_at
    &&& forall|i: int| 0 <= i < s.len() ==> #[trigger] s[i].opened_at <= latest
    &&& forall|k: int| 0 <= k < ts.len() ==> #[trigger] ts[k] <= latest
    &&& forall|i: int|
        0 <= i < s.len() ==> #[trigger] s[i].requests == count_between(ts, s[i].opened_at as int, range_end(s, i))
    &&& forall|k: int, i: int|
        0 <= k < ts.len() && 0 <= i < s.len() && s[i].opened_at <= #[trigger] ts[k] < range_end(s, i) ==> ts[k]
            < #[trigger] s[i].opened_at + bucket_ms
    &&& forall|k: int|
        0 <= k < ts.len() && (s.len() == 0 || #[trigger] ts[k] < s[0].opened_at) ==> latest - ts[k] > window_ms
            - bucket_ms
}

proof fn lemma_count_push(ts: Seq<i64>, t: i64, lo: int, hi: int)
    ensures
        count_between(ts.push(t), lo, hi) == count_between(ts, lo, hi) + if lo <= t && t < hi {
            1nat
        } else {
            0nat
        },
{
    assert(ts.push(t).drop_last() =~= ts);
}

proof fn lemma_count_split(ts: Seq<i64>, lo: int, mid: int, hi: int)
    requires
        lo <= mid <= hi,
    ensures
        count_between(ts, lo, hi) == count_between(ts, lo, mid) + count_between(ts, mid, hi),
    decreases ts.len(),
{
    if ts.len() > 0 {
        lemma_count_split(ts.drop_last(), lo, mid, hi);
    }
}

proof fn lemma_count_none(ts: Seq<i64>, lo: int, hi: int)
    requires
        forall|k: int| 0 <= k < ts.len() ==> !(lo <= #[trigger] ts[k] && ts[k] < hi),
    ensures
        count_between(ts, lo, hi) == 0,
    decreases ts.len(),
{
    if ts.len() > 0 {
        let q = ts.drop_last();
        assert forall|k: int| 0 <= k < q.len() implies !(lo <= #[trigger] q[k] && q[k] < hi) by {
            assert(q[k] == ts[k]);
        }
        assert(!(lo <= ts[ts.len() - 1] && ts[ts.len() - 1] < hi));
        lemma_count_none(q, lo, hi);
    }
}

proof fn lemma_count_at_most_len(ts: Seq<i64>, lo: int, hi: int)
    ensures
        count_between(ts, lo, hi) <= ts.len(),
    decreases ts.len(),
{
    if ts.len() > 0 {
        lemma_count_at_most_len(ts.drop_last(), lo, hi);
    }
}

/// A time at or after the oldest bucket lies in the range of some bucket.
proof fn lemma_locate(s: Seq<Bucket>, x: int)
    requires
        s.len() > 0,
        s[0].opened_at <= x < beyond(),
        forall|i: int, j: int| 0 <= i < j < s.len() ==> #[trigger] s[i].opened_at < #[trigger] s[j].opened_at,
    ensures
        exists|i: int| 0 <= i < s.len() && s[i].opened_at <= x < #[trigger] range_end(s, i),
    decreases s.len(),
{
    let n = s.len();
    if s[n - 1].opened_at <= x {
        assert(range_end(s, n - 1) == beyond());
    } else {
        let q = s.drop_last();
        assert(n > 1);
        assert forall|i: int, j: int| 0 <= i < j < q.len() implies #[trigger] q[i].opened_at < #[trigger] q[j].opened_at by {
            assert(q[i] == s[i] && q[j] == s[j]);
        }
        lemma_locate(q, x);
        let i = choose|i: int| 0 <= i < q.len() && q[i].opened_at <= x < #[trigger] range_end(q, i);
        assert(q[i] == s[i]);
        if i + 1 < q.len() {
            assert(range_end(s, i) == range_end(q, i));
        } else {
            assert(range_end(s, i) == s[n - 1].opened_at);
        }
        assert(s[i].opened_at <= x < range_end(s, i));
    }
}

proof fn lemma_sum_of_prepend(a: Bucket, r: Seq<Bucket>, counter: spec_fn(Bucket) -> u64)
    ensures
        sum_of(seq![a] + r, counter) == counter(a) + sum_of(r, counter),
    decreases r.len(),
{
    if r.len() > 0 {
        assert((seq![a] + r).drop_last() =~= seq![a] + r.drop_last());
        assert((seq![a] + r).last() == r.last());
        lemma_sum_of_prepend(a, r.drop_last(), counter);
    } else {
        assert((seq![a] + r).drop_last() =~= Seq::<Bucket>::empty());
        assert((seq![a] + r).last() == a);
        assert(sum_of(Seq::<Bucket>::empty(), counter) == 0);
    }
}

/// The buckets together count exactly the events from the oldest bucket's opening on.
proof fn lemma_requests_telescope(s: Seq<Bucket>, ts: Seq<i64>)
    requires
        forall|i: int, j: int| 0 <= i < j < s.len() ==> #[trigger] s[i].opened_at < #[trigger] s[j].opened_at,
        forall|i: int|
            0 <= i < s.len() ==> #[trigger] s[i].requests == count_between(ts, s[i].opened_at as int, range_end(s, i)),
    ensures
        sum_of(s, |b: Bucket| b.requests) == if s.len() == 0 {
            0
        } else {
            count_between(ts, s[0].opened_at as int, beyond()) as int
        },
    decreases s.len(),
{
    if s.len() > 0 {
        let r = s.drop_first();
        assert(s =~= seq![s[0]] + r);
        lemma_sum_of_prepend(s[0], r, |b: Bucket| b.requests);
        assert forall|i: int, j: int| 0 <= i < j < r.len() implies #[trigger] r[i].opened_at < #[trigger] r[j].opened_at by {
            assert(r[i] == s[i + 1] && r[j] == s[j + 1]);
        }
        assert forall|i: int| 0 <= i < r.len() implies #[trigger] r[i].requests == count_between(
            ts,
            r[i].opened_at as int,
            range_end(r, i),
        ) by {
            assert(r[i] == s[i + 1]);
            assert(range_end(r, i) == range_end(s, i + 1));
        }
        lemma_requests_telescope(r, ts);
        assert(s[0].requests == count_between(ts, s[0].opened_at as int, range_end(s, 0)));
        if r.len() > 0 {
            assert(r[0] == s[1]);
            assert(s[0].opened_at < s[1].opened_at);
            lemma_count_split(ts, s[0].opened_at as int, s[1].opened_at as int, beyond());
        }
    }
}

/// The buckets that pruning drops were older than the window.
proof fn lemma_pruned_prefix_too_old(s: Seq<Bucket>, now: i64, window_ms: u64)
    ensures
        forall|i: int|
            0 <= i < s.len() - pruned(s, now, window_ms).len() ==> age(now, #[trigger] s[i].opened_at) > window_ms,
    decreases s.len(),
{
    if s.len() > 0 && age(now, s[0].opened_at) > window_ms {
        let r = s.drop_first();
        lemma_pruned_prefix_too_old(r, now, window_ms);
        assert forall|i: int|
            0 <= i < s.len() - pruned(s, now, window_ms).len() implies age(now, #[trigger] s[i].opened_at)
            > window_ms by {
            if i > 0 {
                assert(s[i] == r[i - 1]);
            }
        }
    }
}

/// Pruning at a time no earlier than the last operation keeps the buckets accounting for the
/// events.
proof fn lemma_prune_accounts(s: Seq<Bucket>, ts: Seq<i64>, latest: int, now: i64, window_ms: u64, bucket_ms: u64)
    requires
        accounts_for(s, ts, latest, window_ms, bucket_ms),
        latest <= now,
    ensures
        accounts_for(pruned(s, now, window_ms), ts, now as int, window_ms, bucket_ms),
{
    let p = pruned(s, now, window_ms);
    lemma_pruned_is_suffix(s, now, window_ms);
    lemma_pruned_prefix_too_old(s, now, window_ms);
    let j = s.len() - p.len();
    assert forall|i: int| 0 <= i < p.len() implies #[trigger] p[i] == s[j + i] && range_end(p, i) == range_end(
        s,
        j + i,
    ) by {}
    assert forall|i: int, i2: int| 0 <= i < i2 < p.len() implies #[trigger] p[i].opened_at
        < #[trigger] p[i2].opened_at by {
        assert(p[i] == s[j + i] && p[i2] == s[j + i2]);
    }
    assert forall|i: int| 0 <= i < p.len() implies #[trigger] p[i].requests == count_between(
        ts,
        p[i].opened_at as int,
        range_end(p, i),
    ) by {
        assert(p[i] == s[j + i]);
    }
    assert forall|k: int, i: int|
        0 <= k < ts.len() && 0 <= i < p.len() && p[i].opened_at <= #[trigger] ts[k] < range_end(p, i) implies ts[k]
        < #[trigger] p[i].opened_at + bucket_ms by {
        assert(p[i] == s[j + i]);
    }
    assert forall|k: int|
        0 <= k < ts.len() && (p.len() == 0 || #[trigger] ts[k] < p[0].opened_at) implies now - ts[k] > window_ms
        - bucket_ms by {
        if s.len() == 0 || ts[k] < s[0].opened_at {
        } else {
            lemma_locate(s, ts[k] as int);
            let i = choose|i: int| 0 <= i < s.len() && s[i].opened_at <= ts[k] < #[trigger] range_end(s, i);
            if i >= j {
                assert(p[0] == s[j]);
                if i > j {
                    assert(s[j].opened_at < s[i].opened_at);
                }
            }
            assert(i < j);
            assert(age(now, s[i].opened_at) > window_ms);
            assert(ts[k] < s[i].opened_at + bucket_ms);
        }
    }
}

/// Recording an event at a time no earlier than the last operation keeps the buckets
/// accounting for the events, the new one included, while the buckets are no longer than
/// the window and the events fit below `u64::MAX`.
pub proof fn lemma_record_accounts(
    s: Seq<Bucket>,
    ts: Seq<i64>,
    latest: int,
    now: i64,
    e: WindowEvent,
    window_ms: u64,
    bucket_ms: u64,
)
    requires
        accounts_for(s, ts, latest, window_ms, bucket_ms),
        latest <= now,
        0 < bucket_ms <= window_ms,
        ts.len() + 1 < u64::MAX,
    ensures
        accounts_for(after_record(s, now, e, window_ms, bucket_ms), ts.push(now), now as int, window_ms, bucket_ms),
{
    let p = pruned(s, now, window_ms);
    lemma_prune_accounts(s, ts, latest, now, window_ms, bucket_ms);
    let ts2 = ts.push(now);
    let r = after_record(s, now, e, window_ms, bucket_ms);
    let n = p.len();
    assert forall|k: int| 0 <= k < ts.len() implies #[trigger] ts2[k] == ts[k] by {}
    if n > 0 && age(now, p.last().opened_at) < bucket_ms {
        let last = p[n - 1];
        lemma_count_at_most_len(ts, last.opened_at as int, beyond());
        assert(last.requests == count_between(ts, last.opened_at as int, range_end(p, n - 1)));
        assert(r == p.update(n - 1, applied(last, e)));
        assert forall|i: int| 0 <= i < r.len() implies #[trigger] r[i].requests == count_between(
            ts2,
            r[i].opened_at as int,
            range_end(r, i),
        ) by {
            lemma_count_push(ts, now, r[i].opened_at as int, range_end(r, i));
            assert(range_end(r, i) == range_end(p, i));
            if i < n - 1 {
                assert(r[i] == p[i]);
                assert(p[i].opened_at < p[i + 1].opened_at);
                assert(range_end(p, i) == p[i + 1].opened_at);
            }
        }
        assert forall|k: int, i: int|
            0 <= k < ts2.len() && 0 <= i < r.len() && r[i].opened_at <= #[trigger] ts2[k] < range_end(r, i) implies ts2[k]
            < #[trigger] r[i].opened_at + bucket_ms by {
            assert(range_end(r, i) == range_end(p, i));
            if k < ts.len() {
                assert(r[i].opened_at == p[i].opened_at);
            } else if i < n - 1 {
                assert(range_end(p, i) == p[i + 1].opened_at);
            }
        }
        assert forall|k: int|
            0 <= k < ts2.len() && (r.len() == 0 || #[trigger] ts2[k] < r[0].opened_at) implies now - ts2[k] > window_ms
            - bucket_ms by {
            assert(r[0].opened_at == p[0].opened_at);
        }
        assert forall|i: int, i2: int| 0 <= i < i2 < r.len() implies #[trigger] r[i].opened_at
            < #[trigger] r[i2].opened_at by {
            assert(r[i].opened_at == p[i].opened_at && r[i2].opened_at == p[i2].opened_at);
        }
    } else {
        let nb = applied(
            Bucket { opened_at: now, requests: 0, failures: 0, timeouts: 0, safety_violations: 0 },
            e,
        );
        assert(r == p.push(nb));
        assert forall|k: int| 0 <= k < ts.len() && now <= #[trigger] ts[k] implies false by {
            if n == 0 || ts[k] < p[0].opened_at {
            } else {
                lemma_locate(p, ts[k] as int);
                let i = choose|i: int| 0 <= i < p.len() && p[i].opened_at <= ts[k] < #[trigger] range_end(p, i);
                if i < n - 1 {
                    assert(p[i].opened_at < p[n - 1].opened_at);
                    assert(range_end(p, i) == p[i + 1].opened_at);
                    if i + 1 < n - 1 {
                        assert(p[i + 1].opened_at < p[n - 1].opened_at);
                    }
                }
            }
        }
        assert forall|i: int| 0 <= i < r.len() implies #[trigger] r[i].requests == count_between(
            ts2,
            r[i].opened_at as int,
            range_end(r, i),
        ) by {
            lemma_count_push(ts, now, r[i].opened_at as int, range_end(r, i));
            if i < n {
                assert(r[i] == p[i]);
                if i < n - 1 {
                    assert(range_end(r, i) == range_end(p, i));
                } else {
                    assert(range_end(r, i) == now);
                    lemma_count_split(ts, p[i].opened_at as int, now as int, beyond());
                    assert forall|k: int| 0 <= k < ts.len() implies !(now <= #[trigger] ts[k] && ts[k] < beyond()) by {}
                    lemma_count_none(ts, now as int, beyond());
                }
            } else {
                assert(range_end(r, i) == beyond());
                assert forall|k: int| 0 <= k < ts.len() implies !(now <= #[trigger] ts[k] && ts[k] < beyond()) by {}
                lemma_count_none(ts, now as int, beyond());
            }
        }
        assert forall|k: int, i: int|
            0 <= k < ts2.len() && 0 <= i < r.len() && r[i].opened_at <= #[trigger] ts2[k] < range_end(r, i) implies ts2[k]
            < #[trigger] r[i].opened_at + bucket_ms by {
            if i < n {
                assert(r[i] == p[i]);
                if k < ts.len() {
                    if i == n - 1 {
                        assert(range_end(p, i) == beyond());
                    } else {
                        assert(range_end(r, i) == range_end(p, i));
                    }
                } else {
                    if i < n - 1 {
                        assert(range_end(r, i) == p[i + 1].opened_at);
                    } else {
                        assert(range_end(r, i) == now);
                    }
                }
            } else {
                if k < ts.len() {
                    assert(!(now <= ts[k]));
                }
            }
        }
        assert forall|k: int|
            0 <= k < ts2.len() && (r.len() == 0 || #[trigger] ts2[k] < r[0].opened_at) implies now - ts2[k] > window_ms
            - bucket_ms by {
            if n > 0 {
                assert(r[0] == p[0]);
            } else {
                assert(r[0].opened_at == now);
            }
        }
        assert forall|i: int, i2: int| 0 <= i < i2 < r.len() implies #[trigger] r[i].opened_at
            < #[trigger] r[i2].opened_at by {
            if i2 == n {
                assert(r[i] == p[i]);
                assert(p[i].opened_at <= p[n - 1].opened_at);
                assert(age(now, p[n - 1].opened_at) >= bucket_ms);
            } else {
                assert(r[i] == p[i] && r[i2] == p[i2]);
            }
        }
    }
}

/// What a window counts at `now`, no earlier than its last operation, when its buckets are no
/// longer than the window: every event at most `window_ms - bucket_ms` old, and no event more
/// than `window_ms` old.
pub proof fn lemma_counted_events_by_age(
    s: Seq<Bucket>,
    ts: Seq<i64>,
    latest: int,
    now: i64,
    window_ms: u64,
    bucket_ms: u64,
)
    requires
        accounts_for(s, ts, latest, window_ms, bucket_ms),
        latest <= now,
        bucket_ms <= window_ms,
    ensures
        count_between(ts, now - window_ms + bucket_ms, beyond()) <= sum_of(
            pruned(s, now, window_ms),
            |b: Bucket| b.requests,
        ) <= count_between(ts, now - window_ms, beyond()),
{
    let p = pruned(s, now, window_ms);
    lemma_prune_accounts(s, ts, latest, now, window_ms, bucket_ms);
    lemma_pruned_is_suffix(s, now, window_ms);
    lemma_requests_telescope(p, ts);
    let lo = now - window_ms;
    let lo2 = now - window_ms + bucket_ms;
    if p.len() == 0 {
        assert forall|k: int| 0 <= k < ts.len() implies !(lo2 <= #[trigger] ts[k] && ts[k] < beyond()) by {}
        lemma_count_none(ts, lo2, beyond());
    } else {
        let o = p[0].opened_at as int;
        assert(lo <= o);
        lemma_count_split(ts, lo, o, beyond());
        if lo2 <= o {
            lemma_count_split(ts, lo2, o, beyond());
        } else {
            lemma_count_split(ts, o, lo2, beyond());
        }
        if lo2 <= o {
            assert forall|k: int| 0 <= k < ts.len() implies !(lo2 <= #[trigger] ts[k] && ts[k] < o) by {}
            lemma_count_none(ts, lo2, o);
        }
    }
}

/// The age bounds on what a window in time order counts at `now`, with the requests exact.
proof fn lemma_totals_by_age(s: Seq<Bucket>, ts: Seq<i64>, latest: int, now: i64, window_ms: u64, bucket_ms: u64)
    requires
        accounts_for(s, ts, latest, window_ms, bucket_ms),
        latest <= now,
        bucket_ms <= window_ms,
        ts.len() < u64::MAX,
    ensures
        ({
            let req = sum_of(pruned(s, now, window_ms), |b: Bucket| b.requests);
            &&& count_between(ts, now - window_ms + bucket_ms, beyond()) <= req <= count_between(ts, now - window_ms, beyond())
            &&& req <= u64::MAX
            &&& (forall|k: int| 0 <= k < ts.len() ==> #[trigger] ts[k] < now - window_ms) ==> req == 0
        }),
{
    lemma_counted_events_by_age(s, ts, latest, now, window_ms, bucket_ms);
    lemma_count_at_most_len(ts, now - window_ms, beyond());
    if forall|k: int| 0 <= k < ts.len() ==> #[trigger] ts[k] < now - window_ms {
        assert forall|k: int| 0 <= k < ts.len() implies !(now - window_ms <= #[trigger] ts[k] && ts[k] < beyond()) by {}
        lemma_count_none(ts, now - window_ms, beyond());
    }
}

/// A value observed at `timestamp` (milliseconds since the UNIX epoch).
#[derive(Debug, Clone, Copy, PartialEq, Eq)]
pub struct MetricSample<T> {
    pub timestamp: i64,
    pub value: T,
}

/// The samples left after dropping, from the oldest, those older than the window.
pub open spec fn pruned_samples<T>(s: Seq<MetricSample<T>>, now: i64, window_ms: u64) -> Seq<MetricSample<T>>
    decreases s.len(),
{
    if s.len() > 0 && age(now, s[0].timestamp) > window_ms {
        pruned_samples(s.drop_first(), now, window_ms)
    } else {
        s
    }
}

/// The values observed over a sliding window of time, oldest first.
#[derive(Debug, Clone)]
pub struct MetricWindow<T> {
    window: u64,
    samples: VecDeque<MetricSample<T>>,
}

impl<T: Copy> MetricWindow<T> {
    pub closed spec fn window_ms(&self) -> u64 {
        self.window
    }

    /// The samples kept, oldest first.
    pub closed spec fn samples(&self) -> Seq<MetricSample<T>> {
        self.samples@
    }

    /// An empty window of `window` milliseconds.
    pub fn new(window: u64) -> (w: Self)
        ensures
            w.window_ms() == window,
            w.samples() == Seq::<MetricSample<T>>::empty(),
    {
        MetricWindow { window, samples: VecDeque::new() }
    }

    fn prune(&mut self, now: i64)
        ensures
            final(self).samples() == pruned_samples(old(self).samples(), now, old(self).window_ms()),
            final(self).window_ms() == old(self).window_ms(),
    {
        while self.samples.len() > 0 && age_exceeds(now, self.samples[0].timestamp, self.window)
            invariant
                pruned_samples(self.samples@, now, self.window) == pruned_samples(
                    old(self).samples@,
                    now,
                    old(self).window,
                ),
                self.window == old(self).window,
            decreases self.samples@.len(),
        {
            let ghost before = self.samples@;
            self.samples.pop_front();
            assert(self.samples@ == before.drop_first());
        }
    }

    /// Records `value` as observed at `now`, after dropping the samples that have left the
    /// window.
    pub fn record_at(&mut self, value: T, now: i64)
        ensures
            final(self).samples() == pruned_samples(old(self).samples(), now, old(self).window_ms()).push(
                MetricSample { timestamp: now, value },
            ),
            final(self).window_ms() == old(self).window_ms(),
    {
        self.prune(now);
        self.samples.push_back(MetricSample { timestamp: now, value });
    }

    /// Records `value` as observed now.
    pub fn record(&mut self, value: T)
        ensures
            exists|now: i64|
                final(self).samples() == #[trigger] pruned_samples(old(self).samples(), now, old(self).window_ms()).push(
                    MetricSample { timestamp: now, value },
                ),
            final(self).window_ms() == old(self).window_ms(),
    {
        let now = wall_clock_millis();
        self.record_at(value, now);
    }

    /// The values still inside the window at `now`, oldest first; older samples are dropped.
    pub fn values_at(&mut self, now: i64) -> (r: Vec<T>)
        ensures
            final(self).samples() == pruned_samples(old(self).samples(), now, old(self).window_ms()),
            r@ == final(self).samples().map_values(|s: MetricSample<T>| s.value),
            final(self).window_ms() == old(self).window_ms(),
    {
        self.prune(now);
        let mut out: Vec<T> = Vec::new();
        let mut i: usize = 0;
        while i < self.samples.len()
            invariant
                i <= self.samples@.len(),
                out@ == self.samples@.take(i as int).map_values(|s: MetricSample<T>| s.value),
            decreases self.samples@.len() - i,
        {
            out.push(self.samples[i].value);
            assert(self.samples@.take(i + 1).map_values(|s: MetricSample<T>| s.value) =~= self.samples@.take(
                i as int,
            ).map_values(|s: MetricSample<T>| s.value).push(self.samples@[i as int].value));
            i += 1;
        }
        assert(self.samples@.take(self.samples@.len() as int) =~= self.samples@);
        out
    }

    /// The values inside the window now, oldest first.
    pub fn values(&mut self) -> (r: Vec<T>)
        ensures
            exists|now: i64|
                final(self).samples() == #[trigger] pruned_samples(old(self).samples(), now, old(self).window_ms())
                    && r@ == final(self).samples().map_values(|s: MetricSample<T>| s.value),
            final(self).window_ms() == old(self).window_ms(),
    {
        let now = wall_clock_millis();
        self.values_at(now)
    }

    /// The number of samples inside the window at `now`; older samples are dropped.
    pub fn len_at(&mut self, now: i64) -> (n: usize)
        ensures
            final(self).samples() == pruned_samples(old(self).samples(), now, old(self).window_ms()),
            n == final(self).samples().len(),
            final(self).window_ms() == old(self).window_ms(),
    {
        self.prune(now);
        self.samples.len()
    }

    /// The number of samples inside the window now.
    pub fn len(&mut self) -> (n: usize)
        ensures
            exists|now: i64|
                final(self).samples() == #[trigger] pruned_samples(old(self).samples(), now, old(self).window_ms())
                    && n == final(self).samples().len(),
            final(self).window_ms() == old(self).window_ms(),
    {
        let now = wall_clock_millis();
        self.len_at(now)
    }

    /// Whether no sample is inside the window now.
    pub fn is_empty(&mut self) -> (b: bool)
        ensures
            exists|now: i64|
                final(self).samples() == #[trigger] pruned_samples(old(self).samples(), now, old(self).window_ms())
                    && b == (final(self).samples().len() == 0),
            final(self).window_ms() == old(self).window_ms(),
    {
        self.len() == 0
    }
}

/// Pruning keeps the newest samples: what is left is a suffix of what was there, and every
/// sample left is within the window.
pub proof fn lemma_pruned_samples_is_suffix<T>(s: Seq<MetricSample<T>>, now: i64, window_ms: u64)
    ensures
        pruned_samples(s, now, window_ms).len() <= s.len(),
        pruned_samples(s, now, window_ms) == s.skip(s.len() - pruned_samples(s, now, window_ms).len()),
        pruned_samples(s, now, window_ms).len() > 0 ==> age(now, pruned_samples(s, now, window_ms)[0].timestamp)
            <= window_ms,
    decreases s.len(),
{
    if s.len() > 0 && age(now, s[0].timestamp) > window_ms {
        lemma_pruned_samples_is_suffix(s.drop_first(), now, window_ms);
        let p = pruned_samples(s.drop_first(), now, window_ms);
        assert(s.drop_first().skip(s.drop_first().len() - p.len()) =~= s.skip(s.len() - p.len()));
    } else {
        assert(s.skip(0) =~= s);
    }
}

} // verus!
