//! Circuit breaker configuration. Durations are milliseconds; rates and thresholds are in
//! parts per million (`PPM` stands for 1).
use vstd::prelude::*;

use crate::circuit::action::CircuitAction;

verus! {

/// One, in parts per million.
pub const PPM: u64 = 1_000_000;

#[derive(Debug, PartialEq, Eq)]
pub struct CircuitConfig {
    pub enabled: bool,
    pub key: String,
    pub cooldown_ms: u64,
    pub half_open: HalfOpenConfig,
    pub triggers: Vec<CircuitTriggerConfig>,
    pub actions: Vec<CircuitAction>,
}

impl Default for CircuitConfig {
    fn default() -> (c: Self)
        ensures
            c.enabled,
            c.key@ == Seq::<char>::empty(),
            c.cooldown_ms == 30_000,
            c.half_open == HalfOpenConfig::spec_default(),
            c.triggers@ == Seq::<CircuitTriggerConfig>::empty(),
            c.actions@ == Seq::<CircuitAction>::empty(),
    {
        CircuitConfig {
            enabled: true,
            key: String::new(),
            cooldown_ms: 30_000,
            half_open: HalfOpenConfig::default(),
            triggers: Vec::new(),
            actions: Vec::new(),
        }
    }
}

impl CircuitConfig {
    /// A copy of this configuration under another key.
    pub fn with_key(&self, key: &str) -> (c: CircuitConfig)
        ensures
            c.enabled == self.enabled,
            c.key@ == key@,
            c.cooldown_ms == self.cooldown_ms,
            c.half_open == self.half_open,
            c.triggers@ == self.triggers@,
            c.actions@ == self.actions@,
    {
        let mut triggers: Vec<CircuitTriggerConfig> = Vec::new();
        let mut i: usize = 0;
        while i < self.triggers.len()
            invariant
                i <= self.triggers@.len(),
                triggers@ == self.triggers@.take(i as int),
            decreases self.triggers@.len() - i,
        {
            triggers.push(self.triggers[i].clone());
            assert(triggers@ =~= self.triggers@.take(i + 1));
            i += 1;
        }
        assert(self.triggers@.take(self.triggers@.len() as int) == self.triggers@);
        let mut actions: Vec<CircuitAction> = Vec::new();
        let mut j: usize = 0;
        while j < self.actions.len()
            invariant
                j <= self.actions@.len(),
                actions@ == self.actions@.take(j as int),
            decreases self.actions@.len() - j,
        {
            actions.push(self.actions[j].clone());
            assert(actions@ =~= self.actions@.take(j + 1));
            j += 1;
        }
        assert(self.actions@.take(self.actions@.len() as int) == self.actions@);
        CircuitConfig {
            enabled: self.enabled,
            key: key.to_owned(),
            cooldown_ms: self.cooldown_ms,
            half_open: self.half_open,
            triggers,
            actions,
        }
    }
}

/// How a half-open breaker probes: it completes after `max_probes` probes, closes when the
/// share of successful probes reaches `success_rate_ppm`, and lets at most
/// `max_concurrent_probes` run at once.
#[derive(Debug, Clone, Copy, PartialEq, Eq, Structural)]
pub struct HalfOpenConfig {
    pub max_probes: usize,
    pub success_rate_ppm: u64,
    pub max_concurrent_probes: usize,
}

impl HalfOpenConfig {
    pub open spec fn spec_default() -> HalfOpenConfig {
        HalfOpenConfig { max_probes: 5, success_rate_ppm: 800_000, max_concurrent_probes: 2 }
    }
}

impl Default for HalfOpenConfig {
    fn default() -> (c: Self)
        ensures
            c == HalfOpenConfig::spec_default(),
    {
        HalfOpenConfig { max_probes: 5, success_rate_ppm: 800_000, max_concurrent_probes: 2 }
    }
}

/// A condition that opens the breaker. For consecutive failures `threshold_ppm` counts
/// failures (two failures are `2 * PPM`); for the rates it is the share of requests.
#[derive(Debug, PartialEq, Eq)]
pub struct CircuitTriggerConfig {
    pub name: String,
    pub kind: TriggerKind,
    pub window_ms: u64,
    pub threshold_ppm: u64,
}

impl Clone for CircuitTriggerConfig {
    fn clone(&self) -> (r: Self)
        ensures
            r == *self,
    {
        CircuitTriggerConfig {
            name: self.name.clone(),
            kind: self.kind,
            window_ms: self.window_ms,
            threshold_ppm: self.threshold_ppm,
        }
    }
}

#[derive(Debug, Clone, Copy, PartialEq, Eq, Structural)]
pub enum TriggerKind {
    ConsecutiveFailures,
    ErrorRate,
    TimeoutRate,
}

} // verus!
