//! The event timeline of a simulation run.
//!
//! Events wait on the timeline until they fall due; the earliest one is taken
//! first. A link-generation attempt that falls due either establishes its link
//! or fails its swap, as the caller's random draw decides; a memory-decay event
//! counts as a congestion drop.
use vstd::prelude::*;

use rand::Rng;

use crate::binary64::Binary64;
use crate::routing::running_best;

verus! {

/// What happens at an event.
#[derive(Clone, Debug)]
pub enum EventType {
    AttemptLinkGeneration { from: String, to: String, base_fidelity: Binary64 },
    MemoryDecayDropout { node_id: String },
}

/// An event and the time at which it happens.
#[derive(Clone, Debug)]
pub struct SimulationEvent {
    pub time: Binary64,
    pub event_type: EventType,
}

/// The pending events and the tallies of a simulation run.
#[derive(Debug)]
pub struct SimulationRuntime {
    pub timeline: Vec<SimulationEvent>,
    pub metrics_failed_swaps: usize,
    pub metrics_dropped_congestion: usize,
    /// Links established in the current time step: both ends and the fidelity.
    pub link_establishments: Vec<(String, String, Binary64)>,
}

/// The times of the pending events, in timeline order.
pub open spec fn event_times(timeline: Seq<SimulationEvent>) -> Seq<Binary64> {
    timeline.map_values(|e: SimulationEvent| e.time)
}

/// The event taken next: the first one that no other precedes.
pub open spec fn earliest_index(timeline: Seq<SimulationEvent>) -> int {
    running_best(event_times(timeline), timeline.len() as int, false)
}

/// An event is due at `deadline` unless it happens after it.
pub open spec fn is_due(event: SimulationEvent, deadline: Binary64) -> bool {
    !deadline.below(event.time)
}

/// No pending event happens strictly before the one at `i`.
pub open spec fn none_before(timeline: Seq<SimulationEvent>, i: int) -> bool {
    forall|j: int| 0 <= j < timeline.len() ==> !(#[trigger] timeline[j].time).below(timeline[i].time)
}

/// The running minimum keeps an event that no earlier-compared one precedes.
proof fn lemma_running_min_is_earliest(times: Seq<Binary64>, n: int)
    requires
        1 <= n <= times.len(),
    ensures
        0 <= running_best(times, n, false) < n,
        forall|j: int| 0 <= j < n ==> !(#[trigger] times[j]).below(times[running_best(times, n, false)]),
        times[running_best(times, n, false)].nan() ==> running_best(times, n, false) == 0,
    decreases n,
{
    if n > 1 {
        lemma_running_min_is_earliest(times, n - 1);
    }
}

/// How many of `events` are memory-decay events.
pub open spec fn decay_count(events: Seq<SimulationEvent>) -> nat
    decreases events.len(),
{
    if events.len() == 0 {
        0
    } else {
        decay_count(events.drop_last()) + if events.last().event_type is MemoryDecayDropout {
            1nat
        } else {
            0nat
        }
    }
}

/// The links that the attempts among `events` establish, in order, where
/// `fails[i]` says whether the swap of event `i` failed.
pub open spec fn established_links(events: Seq<SimulationEvent>, fails: Seq<bool>) -> Seq<(String, String, Binary64)>
    decreases events.len(),
{
    if events.len() == 0 {
        seq![]
    } else {
        let prev = established_links(events.drop_last(), fails.drop_last());
        match events.last().event_type {
            EventType::AttemptLinkGeneration { from, to, base_fidelity } => if fails.last() {
                prev
            } else {
                prev.push((from, to, base_fidelity))
            },
            EventType::MemoryDecayDropout { .. } => prev,
        }
    }
}

/// How many attempts among `events` failed their swap.
pub open spec fn failed_swaps(events: Seq<SimulationEvent>, fails: Seq<bool>) -> nat
    decreases events.len(),
{
    if events.len() == 0 {
        0
    } else {
        failed_swaps(events.drop_last(), fails.drop_last()) + if events.last().event_type is AttemptLinkGeneration
            && fails.last() {
            1nat
        } else {
            0nat
        }
    }
}

/// `done` are the events a pass at `deadline` took off the timeline of
/// `before`, leaving that of `after`: all of them due, taken in time order,
/// and none of them later than an event left behind. Each decay counts as a
/// congestion drop, and each attempt either failed its swap (as `fails` says)
/// or established its link.
pub open spec fn processed(
    before: SimulationRuntime,
    after: SimulationRuntime,
    done: Seq<SimulationEvent>,
    fails: Seq<bool>,
    deadline: Binary64,
) -> bool {
    &&& before.timeline@.to_multiset() == after.timeline@.to_multiset().add(done.to_multiset())
    &&& forall|i: int| 0 <= i < done.len() ==> is_due(#[trigger] done[i], deadline)
    &&& forall|i: int, j: int| 0 <= i < j < done.len() ==> !(#[trigger] done[j].time).below(#[trigger] done[i].time)
    &&& forall|i: int, k: int|
        0 <= i < done.len() && 0 <= k < after.timeline@.len() ==> !(
        #[trigger] after.timeline@[k].time).below(#[trigger] done[i].time)
    &&& fails.len() == done.len()
    &&& after.metrics_dropped_congestion == before.metrics_dropped_congestion + decay_count(done)
    &&& after.metrics_failed_swaps == before.metrics_failed_swaps + failed_swaps(done, fails)
    &&& after.link_establishments@ == before.link_establishments@ + established_links(done, fails)
}

/// `rand::Rng::gen_ratio` on the thread's generator: `true` with probability
/// `numerator / denominator`. The outcome is random; the crate's source shows
/// that it is never `true` for a zero numerator and always `true` when the
/// numerator equals the denominator, and that it panics unless
/// `0 < denominator` and `numerator <= denominator`.
#[verifier::external_body]
fn random_ratio(numerator: u32, denominator: u32) -> (r: bool)
    requires
        0 < denominator,
        numerator <= denominator,
    ensures
        numerator == 0 ==> !r,
        numerator == denominator ==> r,
{
    rand::thread_rng().gen_ratio(numerator, denominator)
}

impl SimulationRuntime {
    /// A runtime with no pending events and zero tallies.
    pub fn new() -> (r: SimulationRuntime)
        ensures
            r.timeline@.len() == 0,
            r.metrics_failed_swaps == 0,
            r.metrics_dropped_congestion == 0,
            r.link_establishments@.len() == 0,
    {
        SimulationRuntime {
            timeline: Vec::new(),
            metrics_failed_swaps: 0,
            metrics_dropped_congestion: 0,
            link_establishments: Vec::new(),
        }
    }

    /// Adds an event to the timeline.
    pub fn schedule(&mut self, event: SimulationEvent)
        ensures
            final(self).timeline@ == old(self).timeline@.push(event),
            final(self).metrics_failed_swaps == old(self).metrics_failed_swaps,
            final(self).metrics_dropped_congestion == old(self).metrics_dropped_congestion,
            final(self).link_establishments@ == old(self).link_establishments@,
    {
        self.timeline.push(event);
    }

    /// Takes the earliest pending event off the timeline if it is due at
    /// `deadline`; otherwise leaves the timeline as it is.
    pub fn next_due(&mut self, deadline: Binary64) -> (r: Option<SimulationEvent>)
        ensures
            old(self).timeline@.len() == 0 ==> r is None && final(self).timeline@ == old(
                self,
            ).timeline@,
            old(self).timeline@.len() > 0 ==> ({
                let i = earliest_index(old(self).timeline@);
                &&& 0 <= i < old(self).timeline@.len()
                &&& none_before(old(self).timeline@, i)
                &&& if is_due(old(self).timeline@[i], deadline) {
                    r == Some(old(self).timeline@[i]) && final(self).timeline@ == old(
                        self,
                    ).timeline@.remove(i)
                } else {
                    r is None && final(self).timeline@ == old(self).timeline@
                }
            }),
            final(self).metrics_failed_swaps == old(self).metrics_failed_swaps,
            final(self).metrics_dropped_congestion == old(self).metrics_dropped_congestion,
            final(self).link_establishments@ == old(self).link_establishments@,
    {
        let n = self.timeline.len();
        if n == 0 {
            return None;
        }
        let ghost times = event_times(self.timeline@);
        let mut best: usize = 0;
        let mut j: usize = 1;
        while j < n
            invariant
                1 <= j <= n,
                n == self.timeline@.len(),
                times == event_times(self.timeline@),
                best as int == running_best(times, j as int, false),
                best < j,
            decreases n - j,
        {
            if self.timeline[j].time.less_than(&self.timeline[best].time) {
                best = j;
            }
            j = j + 1;
        }
        proof {
            lemma_running_min_is_earliest(times, n as int);
            assert forall|k: int| 0 <= k < n implies !(#[trigger] self.timeline@[k].time).below(
                self.timeline@[best as int].time,
            ) by {
                assert(times[k] == self.timeline@[k].time);
            }
        }
        if deadline.less_than(&self.timeline[best].time) {
            None
        } else {
            Some(self.timeline.remove(best))
        }
    }

    /// Applies a due event: an attempt establishes its link unless its swap
    /// failed, and a decay counts as a congestion drop.
    pub fn apply_event(&mut self, event: SimulationEvent, swap_failed: bool)
        requires
            old(self).metrics_failed_swaps < usize::MAX,
            old(self).metrics_dropped_congestion < usize::MAX,
        ensures
            final(self).timeline@ == old(self).timeline@,
            match event.event_type {
                EventType::AttemptLinkGeneration { from, to, base_fidelity } => if swap_failed {
                    &&& final(self).metrics_failed_swaps == old(self).metrics_failed_swaps + 1
                    &&& final(self).link_establishments@ == old(self).link_establishments@
                } else {
                    &&& final(self).metrics_failed_swaps == old(self).metrics_failed_swaps
                    &&& final(self).link_establishments@ == old(self).link_establishments@.push(
                        (from, to, base_fidelity),
                    )
                },
                EventType::MemoryDecayDropout { .. } => {
                    &&& final(self).metrics_failed_swaps == old(self).metrics_failed_swaps
                    &&& final(self).link_establishments@ == old(self).link_establishments@
                },
            },
            final(self).metrics_dropped_congestion == old(self).metrics_dropped_congestion + if event.event_type is MemoryDecayDropout {
                1int
            } else {
                0int
            },
    {
        match event.event_type {
            EventType::AttemptLinkGeneration { from, to, base_fidelity } => {
                if swap_failed {
                    self.metrics_failed_swaps += 1;
                } else {
                    self.link_establishments.push((from, to, base_fidelity));
                }
            },
            EventType::MemoryDecayDropout { .. } => {
                self.metrics_dropped_congestion += 1;
            },
        }
    }

    /// Processes, earliest first, every pending event that is due at
    /// `deadline`. A link-generation attempt fails its swap with a chance of
    /// one in ten, drawn from the thread's random generator, and otherwise
    /// establishes its link; a decay counts as a congestion drop. Afterwards
    /// no pending event is due.
    pub fn process_events_up_to(&mut self, deadline: Binary64)
        requires
            old(self).metrics_failed_swaps + old(self).timeline@.len() <= usize::MAX,
            old(self).metrics_dropped_congestion + old(self).timeline@.len() <= usize::MAX,
        ensures
            final(self).timeline@.len() == 0 || !is_due(
                final(self).timeline@[earliest_index(final(self).timeline@)],
                deadline,
            ),
            exists|done: Seq<SimulationEvent>, fails: Seq<bool>|
                #[trigger] processed(*old(self), *final(self), done, fails, deadline),
    {
        broadcast use vstd::seq_lib::group_to_multiset_ensures, vstd::multiset::group_multiset_axioms;

        let ghost start = *self;
        let ghost mut done: Seq<SimulationEvent> = seq![];
        let ghost mut fails: Seq<bool> = seq![];
        assert(start.timeline@.to_multiset() =~= self.timeline@.to_multiset().add(done.to_multiset()));
        assert(self.link_establishments@ =~= start.link_establishments@ + established_links(done, fails));
        loop
            invariant
                start == *old(self),
                self.timeline@.len() + done.len() == start.timeline@.len(),
                start.metrics_failed_swaps + start.timeline@.len() <= usize::MAX,
                start.metrics_dropped_congestion + start.timeline@.len() <= usize::MAX,
                failed_swaps(done, fails) <= done.len(),
                decay_count(done) <= done.len(),
                processed(start, *self, done, fails, deadline),
            ensures
                self.timeline@.len() == 0 || !is_due(
                    self.timeline@[earliest_index(self.timeline@)],
                    deadline,
                ),
                processed(start, *self, done, fails, deadline),
            decreases self.timeline@.len(),
        {
            let ghost before = *self;
            match self.next_due(deadline) {
                None => {
                    break;
                },
                Some(event) => {
                    let ghost e = event;
                    let ghost i = earliest_index(before.timeline@);
                    let failed = match &event.event_type {
                        EventType::AttemptLinkGeneration { .. } => random_ratio(1, 10),
                        EventType::MemoryDecayDropout { .. } => false,
                    };
                    self.apply_event(event, failed);
                    proof {
                        let d2 = done.push(e);
                        let f2 = fails.push(failed);
                        assert(d2.drop_last() =~= done);
                        assert(f2.drop_last() =~= fails);
                        assert(d2.last() == e);
                        assert(f2.last() == failed);
                        assert(0 <= i < before.timeline@.len());
                        assert(before.timeline@[i] == e);
                        assert(self.timeline@ == before.timeline@.remove(i));
                        vstd::seq_lib::to_multiset_remove(before.timeline@, i);
                        vstd::seq_lib::to_multiset_contains(before.timeline@, e);
                        assert(before.timeline@.contains(e));
                        assert(before.timeline@.to_multiset().count(e) > 0);
                        assert(before.timeline@.to_multiset() =~= self.timeline@.to_multiset().insert(e));
                        vstd::seq_lib::to_multiset_build(done, e);
                        assert(d2.to_multiset() =~= done.to_multiset().insert(e));
                        assert(start.timeline@.to_multiset() == before.timeline@.to_multiset().add(
                            done.to_multiset(),
                        ));
                        assert(start.timeline@.to_multiset() =~= self.timeline@.to_multiset().add(
                            d2.to_multiset(),
                        ));
                        assert forall|j: int| 0 <= j < d2.len() implies is_due(#[trigger] d2[j], deadline) by {
                            if j < done.len() {
                                assert(d2[j] == done[j]);
                            }
                        }
                        // What remains was pending when `e` was taken, and none of it precedes `e`.
                        assert forall|k: int| 0 <= k < self.timeline@.len() implies
                            #[trigger] self.timeline@[k] == before.timeline@[if k < i { k } else { k + 1 }] by {}
                        assert forall|a: int, b: int| 0 <= a < b < d2.len() implies !(#[trigger] d2[b].time).below(
                            #[trigger] d2[a].time,
                        ) by {
                            if b < done.len() {
                                assert(d2[a] == done[a] && d2[b] == done[b]);
                            } else {
                                assert(d2[a] == done[a]);
                                assert(before.timeline@[i].time == e.time);
                                assert(!before.timeline@[i].time.below(done[a].time));
                            }
                        }
                        assert forall|a: int, k: int|
                            0 <= a < d2.len() && 0 <= k < self.timeline@.len() implies !(
                            #[trigger] self.timeline@[k].time).below(#[trigger] d2[a].time) by {
                            let kk = if k < i { k } else { k + 1 };
                            assert(self.timeline@[k] == before.timeline@[kk]);
                            if a < done.len() {
                                assert(d2[a] == done[a]);
                                assert(!before.timeline@[kk].time.below(done[a].time));
                            } else {
                                assert(!before.timeline@[kk].time.below(before.timeline@[i].time));
                            }
                        }
                        done = d2;
                        fails = f2;
                    }
                },
            }
        }
    }
}
} // verus!
