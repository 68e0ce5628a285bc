//! Telemetry of the entanglement scheduler: request tallies, queueing delay,
//! and how often each link fired.
use vstd::prelude::*;

use crate::binary64::Binary64;
use crate::qnet::link_key_of;

verus! {

/// Scheduler telemetry. Each link key occurs at most once in `link_firings`.
#[derive(Clone, Debug)]
pub struct NetworkTelemetry {
    pub total_requests: usize,
    pub successful_requests: usize,
    pub cumulative_queue_delay_ms: Binary64,
    pub link_firings: Vec<(String, usize)>,
}

/// The key under which the hop from `from` to `to` is counted.
pub fn firing_key(from: &String, to: &String) -> (r: String)
    ensures
        r@ == link_key_of(from@, to@),
{
    let mut key = from.clone();
    key.append("->");
    key.append(to.as_str());
    key
}

impl NetworkTelemetry {
    /// Link keys are distinct.
    pub open spec fn wf(self) -> bool {
        forall|i: int, j: int|
            0 <= i < j < self.link_firings@.len() ==> #[trigger] self.link_firings@[i].0@
                != #[trigger] self.link_firings@[j].0@
    }

    /// How often the link with key `k` fired.
    pub open spec fn firings_of(self, k: Seq<char>) -> nat {
        if exists|i: int| 0 <= i < self.link_firings@.len() && #[trigger] self.link_firings@[i].0@ == k {
            let i = choose|i: int| 0 <= i < self.link_firings@.len() && #[trigger] self.link_firings@[i].0@ == k;
            self.link_firings@[i].1 as nat
        } else {
            0
        }
    }

    /// Empty telemetry: no requests, no delay, no firings.
    pub fn new() -> (r: NetworkTelemetry)
        ensures
            r.wf(),
            r.total_requests == 0,
            r.successful_requests == 0,
            r.cumulative_queue_delay_ms == Binary64::spec_zero(),
            r.link_firings@.len() == 0,
            forall|k: Seq<char>| r.firings_of(k) == 0,
    {
        NetworkTelemetry {
            total_requests: 0,
            successful_requests: 0,
            cumulative_queue_delay_ms: Binary64::zero(),
            link_firings: Vec::new(),
        }
    }

    /// Counts `count` more firings of the link with key `link_id`.
    pub fn add_link_firings(&mut self, link_id: &str, count: usize)
        requires
            old(self).wf(),
            old(self).firings_of(link_id@) + count <= usize::MAX,
        ensures
            final(self).wf(),
            final(self).firings_of(link_id@) == old(self).firings_of(link_id@) + count,
            forall|k: Seq<char>| k != link_id@ ==> #[trigger] final(self).firings_of(k) == old(self).firings_of(k),
            final(self).total_requests == old(self).total_requests,
            final(self).successful_requests == old(self).successful_requests,
            final(self).cumulative_queue_delay_ms == old(self).cumulative_queue_delay_ms,
    {
        let key = String::from_str(link_id);
        let ghost before = self.link_firings@;
        let mut i: usize = 0;
        while i < self.link_firings.len()
            invariant
                i <= self.link_firings@.len(),
                self.link_firings@ == before,
                before == old(self).link_firings@,
                *self == *old(self),
                old(self).wf(),
                old(self).firings_of(link_id@) + count <= usize::MAX,
                key@ == link_id@,
                forall|j: int| 0 <= j < i ==> #[trigger] before[j].0@ != key@,
            decreases self.link_firings.len() - i,
        {
            if self.link_firings[i].0 == key {
                proof {
                    Self::lemma_firings_at(*old(self), i as int);
                }
                let n = self.link_firings[i].1 + count;
                self.link_firings.set(i, (key, n));
                proof {
                    let t = *self;
                    let ii = i as int;
                    assert forall|p: int, q: int|
                        0 <= p < q < t.link_firings@.len() implies #[trigger] t.link_firings@[p].0@
                        != #[trigger] t.link_firings@[q].0@ by {
                        assert(before[p].0@ != before[q].0@);
                    }
                    Self::lemma_firings_at(t, ii);
                    assert forall|k: Seq<char>| k != link_id@ implies #[trigger] t.firings_of(k)
                        == old(self).firings_of(k) by {
                        if exists|j: int| 0 <= j < before.len() && #[trigger] before[j].0@ == k {
                            let j = choose|j: int| 0 <= j < before.len() && #[trigger] before[j].0@ == k;
                            Self::lemma_firings_at(*old(self), j);
                            Self::lemma_firings_at(t, j);
                        } else {
                            if exists|j: int| 0 <= j < t.link_firings@.len() && #[trigger] t.link_firings@[j].0@ == k {
                                let j = choose|j: int| 0 <= j < t.link_firings@.len() && #[trigger] t.link_firings@[j].0@ == k;
                                assert(before[j].0@ == k);
                            }
                        }
                    }
                }
                return;
            }
            i = i + 1;
        }
        self.link_firings.push((key, count));
        proof {
            let t = *self;
            let n = before.len() as int;
            assert forall|p: int, q: int|
                0 <= p < q < t.link_firings@.len() implies #[trigger] t.link_firings@[p].0@
                != #[trigger] t.link_firings@[q].0@ by {
                if q < n {
                    assert(before[p].0@ != before[q].0@);
                }
            }
            Self::lemma_firings_at(t, n);
            assert forall|k: Seq<char>| k != link_id@ implies #[trigger] t.firings_of(k)
                == old(self).firings_of(k) by {
                if exists|j: int| 0 <= j < before.len() && #[trigger] before[j].0@ == k {
                    let j = choose|j: int| 0 <= j < before.len() && #[trigger] before[j].0@ == k;
                    Self::lemma_firings_at(*old(self), j);
                    Self::lemma_firings_at(t, j);
                } else {
                    if exists|j: int| 0 <= j < t.link_firings@.len() && #[trigger] t.link_firings@[j].0@ == k {
                        let j = choose|j: int| 0 <= j < t.link_firings@.len() && #[trigger] t.link_firings@[j].0@ == k;
                        assert(j != n);
                        assert(before[j].0@ == k);
                    }
                }
            }
            assert(!(exists|j: int| 0 <= j < before.len() && #[trigger] before[j].0@ == link_id@));
        }
    }

    /// Counts one more firing of the link with key `link_id`.
    pub fn record_link_firing(&mut self, link_id: &str)
        requires
            old(self).wf(),
            old(self).firings_of(link_id@) < usize::MAX,
        ensures
            final(self).wf(),
            final(self).firings_of(link_id@) == old(self).firings_of(link_id@) + 1,
            forall|k: Seq<char>| k != link_id@ ==> #[trigger] final(self).firings_of(k) == old(self).firings_of(k),
            final(self).total_requests == old(self).total_requests,
            final(self).successful_requests == old(self).successful_requests,
            final(self).cumulative_queue_delay_ms == old(self).cumulative_queue_delay_ms,
    {
        self.add_link_firings(link_id, 1);
    }

    /// Closes a run's telemetry; nothing changes.
    pub fn finalize(&mut self)
        ensures
            *final(self) == *old(self),
    {
    }

    /// In telemetry with distinct keys, the count of the key at `i` is the one
    /// stored at `i`.
    pub proof fn lemma_firings_at(t: NetworkTelemetry, i: int)
        requires
            t.wf(),
            0 <= i < t.link_firings@.len(),
        ensures
            t.firings_of(t.link_firings@[i].0@) == t.link_firings@[i].1 as nat,
    {
        let k = t.link_firings@[i].0@;
        assert(t.link_firings@[i].0@ == k);
        let j = choose|j: int| 0 <= j < t.link_firings@.len() && #[trigger] t.link_firings@[j].0@ == k;
        if j < i {
            assert(t.link_firings@[j].0@ != t.link_firings@[i].0@);
        } else if i < j {
            assert(t.link_firings@[i].0@ != t.link_firings@[j].0@);
        }
    }
}

} // verus!
