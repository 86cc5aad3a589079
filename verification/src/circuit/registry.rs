//! One breaker per routing key, created on demand from a default configuration.
use vstd::prelude::*;

use crate::circuit::breaker::CircuitBreaker;
use crate::circuit::config::CircuitConfig;
use crate::circuit::state::{CircuitState, CircuitStateView};

verus! {

pub struct CircuitBreakerRegistry {
    breakers: Vec<CircuitBreaker>,
    default_config: CircuitConfig,
}

/// The keys of a list of breakers.
pub open spec fn keys_of(bs: Seq<CircuitBreaker>) -> Seq<Seq<char>> {
    bs.map_values(|b: CircuitBreaker| b.key_view())
}

/// No two breakers share a key, and every breaker keeps its invariant.
spec fn breakers_wf(bs: Seq<CircuitBreaker>) -> bool {
    &&& forall|i: int, j: int|
        0 <= i < j < bs.len() ==> #[trigger] bs[i].key_view() != #[trigger] bs[j].key_view()
    &&& forall|i: int| 0 <= i < bs.len() ==> #[trigger] bs[i].wf()
}

impl CircuitBreakerRegistry {
    /// The breakers, in the order they were created.
    pub closed spec fn breakers(&self) -> Seq<CircuitBreaker> {
        self.breakers@
    }

    pub closed spec fn default_configuration(&self) -> CircuitConfig {
        self.default_config
    }

    /// Each key has at most one breaker, every breaker keeps its invariant, and the default
    /// configuration can create breakers.
    pub closed spec fn wf(&self) -> bool {
        &&& breakers_wf(self.breakers@)
        &&& forall|i: int|
            0 <= i < self.default_config.triggers@.len() ==> #[trigger] self.default_config.triggers@[i].window_ms
                > 0
    }

    /// A registry stays well formed when one breaker is put back in its slot, under its key
    /// and keeping its invariant, or appended under a new key: what `get_or_create` does.
    pub proof fn lemma_slot_keeps_wf(old: &Self, new: &Self, i: int, b: CircuitBreaker)
        requires
            old.wf(),
            b.wf(),
            new.default_configuration() == old.default_configuration(),
            (0 <= i < old.breakers().len() && old.breakers()[i].key_view() == b.key_view()
                && new.breakers() == old.breakers().update(i, b)) || (i == old.breakers().len()
                && !keys_of(old.breakers()).contains(b.key_view()) && new.breakers()
                == old.breakers().push(b)),
        ensures
            new.wf(),
    {
        assert forall|x: int, y: int| 0 <= x < y < new.breakers@.len() implies #[trigger] new.breakers@[x].key_view()
            != #[trigger] new.breakers@[y].key_view() by {
            if y == old.breakers@.len() {
                assert(keys_of(old.breakers@)[x] == old.breakers@[x].key_view());
            }
        }
    }

    /// Each key names at most one breaker of a well-formed registry: two breakers under one
    /// key are the same breaker.
    pub proof fn lemma_one_breaker_per_key(&self, i: int, j: int)
        requires
            self.wf(),
            0 <= i < self.breakers().len(),
            0 <= j < self.breakers().len(),
            self.breakers()[i].key_view() == self.breakers()[j].key_view(),
        ensures
            i == j,
    {
        if i < j {
            assert(self.breakers@[i].key_view() != self.breakers@[j].key_view());
        } else if j < i {
            assert(self.breakers@[j].key_view() != self.breakers@[i].key_view());
        }
    }

    pub fn new(default_config: CircuitConfig) -> (r: Self)
        requires
            forall|i: int|
                0 <= i < default_config.triggers@.len() ==> #[trigger] default_config.triggers@[i].window_ms > 0,
        ensures
            r.wf(),
            r.breakers() == Seq::<CircuitBreaker>::empty(),
            r.default_configuration() == default_config,
    {
        CircuitBreakerRegistry { breakers: Vec::new(), default_config }
    }

    fn find(&self, key: &str) -> (r: Option<usize>)
        ensures
            r matches Some(i) ==> i < self.breakers@.len() && self.breakers@[i as int].key_view() == key@,
            r is None ==> !keys_of(self.breakers@).contains(key@),
    {
        let mut i: usize = 0;
        while i < self.breakers.len()
            invariant
                i <= self.breakers@.len(),
                forall|j: int| 0 <= j < i ==> #[trigger] self.breakers@[j].key_view() != key@,
            decreases self.breakers@.len() - i,
        {
            if self.breakers[i].has_key(key) {
                return Some(i);
            }
            i += 1;
        }
        assert forall|j: int| 0 <= j < keys_of(self.breakers@).len() implies #[trigger] keys_of(self.breakers@)[j] != key@ by {
            assert(keys_of(self.breakers@)[j] == self.breakers@[j].key_view());
        }
        None
    }

    /// The breaker for `key`, if there is one.
    pub fn get(&self, key: &str) -> (r: Option<&CircuitBreaker>)
        ensures
            r is Some == keys_of(self.breakers()).contains(key@),
            r matches Some(b) ==> b.key_view() == key@ && self.breakers().contains(*b),
    {
        match self.find(key) {
            Some(i) => {
                assert(keys_of(self.breakers@)[i as int] == key@);
                Some(&self.breakers[i])
            },
            None => None,
        }
    }

    /// The breaker for `key`, created from the default configuration when there is none.
    pub fn get_or_create(&mut self, key: &str) -> (r: &mut CircuitBreaker)
        requires
            old(self).wf(),
        ensures
            r.wf(),
            r.key_view() == key@,
            final(r).wf() && final(r).key_view() == key@ ==> final(self).wf(),
            final(self).default_configuration() == old(self).default_configuration(),
            keys_of(old(self).breakers()).contains(key@) ==> exists|i: int|
                0 <= i < old(self).breakers().len() && #[trigger] old(self).breakers()[i] == *r
                    && final(self).breakers() == old(self).breakers().update(i, *final(r)),
            !keys_of(old(self).breakers()).contains(key@) ==> {
                &&& r.current() == CircuitStateView::Closed
                &&& r.configuration().key@ == key@
                &&& r.configuration().enabled == old(self).default_configuration().enabled
                &&& r.configuration().actions@ == old(self).default_configuration().actions@
                &&& r.configuration().triggers@ == old(self).default_configuration().triggers@
                &&& r.configuration().half_open == old(self).default_configuration().half_open
                &&& r.configuration().cooldown_ms == old(self).default_configuration().cooldown_ms
                &&& final(self).breakers() == old(self).breakers().push(*final(r))
            },
    {
        match self.find(key) {
            Some(i) => {
                proof {
                    assert(keys_of(self.breakers@).contains(key@)) by {
                        assert(keys_of(self.breakers@)[i as int] == key@);
                    }
                    let bs = self.breakers@;
                    assert forall|b: CircuitBreaker| b.wf() && b.key_view() == key@ implies #[trigger] breakers_wf(
                        bs.update(i as int, b),
                    ) by {
                        let nb = bs.update(i as int, b);
                        assert forall|x: int, y: int| 0 <= x < y < nb.len() implies #[trigger] nb[x].key_view()
                            != #[trigger] nb[y].key_view() by {
                            assert(bs[x].key_view() != bs[y].key_view());
                        }
                    }
                }
                &mut self.breakers[i]
            },
            None => {
                let config = self.default_config.with_key(key);
                let breaker = CircuitBreaker::new(key, config);
                let ghost bs = self.breakers@;
                self.breakers.push(breaker);
                let n = self.breakers.len() - 1;
                proof {
                    let pushed = self.breakers@;
                    assert forall|b: CircuitBreaker| b.wf() && b.key_view() == key@ implies #[trigger] breakers_wf(
                        pushed.update(n as int, b),
                    ) by {
                        let nb = pushed.update(n as int, b);
                        assert(nb =~= bs.push(b));
                        assert forall|x: int, y: int| 0 <= x < y < nb.len() implies #[trigger] nb[x].key_view()
                            != #[trigger] nb[y].key_view() by {
                            if y == bs.len() {
                                assert(keys_of(bs)[x] == bs[x].key_view());
                            }
                        }
                    }
                }
                &mut self.breakers[n]
            },
        }
    }

    /// Removes and returns the breaker for `key`, if there is one.
    pub fn remove(&mut self, key: &str) -> (r: Option<CircuitBreaker>)
        requires
            old(self).wf(),
        ensures
            final(self).wf(),
            r is Some == keys_of(old(self).breakers()).contains(key@),
            r matches Some(b) ==> b.key_view() == key@,
            !keys_of(final(self).breakers()).contains(key@),
            forall|k: Seq<char>| k != key@ ==> (keys_of(final(self).breakers()).contains(k) <==> keys_of(old(self).breakers()).contains(k)),
            final(self).default_configuration() == old(self).default_configuration(),
    {
        match self.find(key) {
            Some(i) => {
                let ghost old_bs = self.breakers@;
                let b = self.breakers.remove(i);
                proof {
                    assert(keys_of(old_bs)[i as int] == key@);
                    assert(keys_of(self.breakers@) =~= keys_of(old_bs).remove(i as int));
                    assert forall|j: int| 0 <= j < keys_of(self.breakers@).len() implies #[trigger] keys_of(self.breakers@)[j] != key@ by {
                        if j < i {
                            assert(keys_of(self.breakers@)[j] == old_bs[j].key_view());
                        } else {
                            assert(keys_of(self.breakers@)[j] == old_bs[j + 1].key_view());
                        }
                    }
                    assert forall|k: Seq<char>| k != key@ implies (keys_of(self.breakers@).contains(k) <==> keys_of(old_bs).contains(k)) by {
                        if keys_of(old_bs).contains(k) {
                            let j = choose|j: int| 0 <= j < keys_of(old_bs).len() && keys_of(old_bs)[j] == k;
                            if j < i {
                                assert(keys_of(self.breakers@)[j] == k);
                            } else {
                                assert(j != i);
                                assert(keys_of(self.breakers@)[j - 1] == k);
                            }
                        }
                    }
                }
                Some(b)
            },
            None => None,
        }
    }

    /// The key and state of every breaker.
    pub fn snapshot(&self) -> (r: Vec<(String, CircuitState)>)
        ensures
            r@.len() == self.breakers().len(),
            forall|i: int| 0 <= i < r@.len() ==> #[trigger] r@[i].0@ == self.breakers()[i].key_view()
                && r@[i].1@ == self.breakers()[i].current(),
    {
        let mut out: Vec<(String, CircuitState)> = Vec::new();
        let mut i: usize = 0;
        while i < self.breakers.len()
            invariant
                i <= self.breakers@.len(),
                out@.len() == i,
                forall|j: int| 0 <= j < i ==> #[trigger] out@[j].0@ == self.breakers@[j].key_view()
                    && out@[j].1@ == self.breakers@[j].current(),
            decreases self.breakers@.len() - i,
        {
            let b = &self.breakers[i];
            out.push((b.routing_key(), b.state()));
            i += 1;
        }
        out
    }
}

impl Default for CircuitBreakerRegistry {
    fn default() -> (r: Self)
        ensures
            r.wf(),
            r.breakers() == Seq::<CircuitBreaker>::empty(),
    {
        CircuitBreakerRegistry::new(CircuitConfig::default())
    }
}


} // verus!
