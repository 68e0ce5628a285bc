use qnet_core::binary64::Binary64;
use qnet_core::metrics::{firing_key, NetworkTelemetry};
use qnet_core::scheduler::{all_hops_established, hop_fidelities};
use qnet_core::simulation::{EventType, SimulationEvent, SimulationRuntime};

fn b(x: f64) -> Binary64 {
    Binary64 { bits: x.to_bits() }
}

fn s(x: &str) -> String {
    x.to_string()
}

fn attempt(t: f64, from: &str, to: &str, f: f64) -> SimulationEvent {
    SimulationEvent { time: b(t), event_type: EventType::AttemptLinkGeneration { from: s(from), to: s(to), base_fidelity: b(f) } }
}

fn decay(t: f64, node: &str) -> SimulationEvent {
    SimulationEvent { time: b(t), event_type: EventType::MemoryDecayDropout { node_id: s(node) } }
}

fn time(e: &SimulationEvent) -> f64 {
    f64::from_bits(e.time.bits)
}

#[test]
fn the_earliest_due_event_comes_first() {
    let mut rt = SimulationRuntime::new();
    rt.schedule(decay(3.0, "A"));
    rt.schedule(decay(1.0, "B"));
    rt.schedule(decay(2.0, "C"));
    rt.schedule(decay(1.0, "D"));
    let first = rt.next_due(b(5.0)).unwrap();
    assert_eq!(time(&first), 1.0);
    match first.event_type {
        EventType::MemoryDecayDropout { node_id } => assert_eq!(node_id, "B"),
        _ => panic!("wrong event"),
    }
    assert_eq!(time(&rt.next_due(b(5.0)).unwrap()), 1.0);
    assert_eq!(time(&rt.next_due(b(5.0)).unwrap()), 2.0);
    assert!(rt.next_due(b(2.5)).is_none());
    assert_eq!(rt.timeline.len(), 1);
    assert_eq!(time(&rt.next_due(b(3.0)).unwrap()), 3.0);
    assert!(rt.next_due(b(100.0)).is_none());
}

#[test]
fn applying_events_updates_the_tallies() {
    let mut rt = SimulationRuntime::new();
    rt.apply_event(attempt(0.0, "A", "B", 0.9), false);
    rt.apply_event(attempt(0.0, "B", "C", 0.8), true);
    rt.apply_event(decay(0.0, "A"), false);
    assert_eq!(rt.link_establishments.len(), 1);
    assert_eq!(rt.link_establishments[0].0, "A");
    assert_eq!(rt.link_establishments[0].2.bits, 0.9f64.to_bits());
    assert_eq!(rt.metrics_failed_swaps, 1);
    assert_eq!(rt.metrics_dropped_congestion, 1);
}

#[test]
fn processing_takes_every_due_event_and_accounts_for_each() {
    let mut rt = SimulationRuntime::new();
    rt.schedule(attempt(0.0, "A", "B", 0.9));
    rt.schedule(decay(1.0, "B"));
    rt.schedule(attempt(2.0, "B", "C", 0.8));
    rt.schedule(decay(7.0, "C"));
    rt.schedule(attempt(9.0, "C", "D", 0.7));
    rt.process_events_up_to(b(2.0));
    assert_eq!(rt.timeline.len(), 2);
    assert!(rt.timeline.iter().all(|e| time(e) > 2.0));
    assert_eq!(rt.metrics_dropped_congestion, 1);
    assert_eq!(rt.metrics_failed_swaps + rt.link_establishments.len(), 2);
    rt.process_events_up_to(b(100.0));
    assert!(rt.timeline.is_empty());
    assert_eq!(rt.metrics_dropped_congestion, 2);
    assert_eq!(rt.metrics_failed_swaps + rt.link_establishments.len(), 3);
}

#[test]
fn roughly_one_attempt_in_ten_fails_its_swap() {
    let mut rt = SimulationRuntime::new();
    for i in 0..2000 {
        rt.schedule(attempt(i as f64, "A", "B", 0.9));
    }
    rt.process_events_up_to(b(1e9));
    assert_eq!(rt.metrics_failed_swaps + rt.link_establishments.len(), 2000);
    assert!(rt.metrics_failed_swaps > 100 && rt.metrics_failed_swaps < 320, "{}", rt.metrics_failed_swaps);
}

#[test]
fn hops_are_established_in_either_direction() {
    let path = vec![s("A"), s("B"), s("C")];
    let est = vec![(s("B"), s("A"), b(0.9)), (s("B"), s("C"), b(0.8)), (s("A"), s("B"), b(0.95))];
    assert!(all_hops_established(&path, &est));
    assert!(!all_hops_established(&path, &est[..1].to_vec()));
    assert!(all_hops_established(&vec![s("A")], &vec![]));
    let f = hop_fidelities(&path, &est);
    assert_eq!(f.iter().map(|x| x.map(|v| f64::from_bits(v.bits))).collect::<Vec<_>>(), vec![Some(0.95), Some(0.8)]);
    assert_eq!(hop_fidelities(&path, &vec![]).len(), 2);
    assert!(hop_fidelities(&path, &vec![])[0].is_none());
}

#[test]
fn telemetry_counts_each_link_under_its_key() {
    let mut t = NetworkTelemetry::new();
    assert_eq!(t.total_requests, 0);
    let ab = firing_key(&s("A"), &s("B"));
    assert_eq!(ab, "A->B");
    t.record_link_firing(&ab);
    t.record_link_firing("B->C");
    t.record_link_firing(&ab);
    t.add_link_firings("B->C", 5);
    t.finalize();
    let mut counts = t.link_firings.clone();
    counts.sort();
    assert_eq!(counts, vec![(s("A->B"), 2), (s("B->C"), 6)]);
    assert_eq!(t.cumulative_queue_delay_ms.bits, 0.0f64.to_bits());
}

#[test]
fn due_attempts_establish_their_links_in_time_order() {
    let mut rt = SimulationRuntime::new();
    let times = [5.0, 1.0, 4.0, 2.0, 3.0, 9.0, 0.5, 7.0, 6.0, 8.0];
    for t in times.iter() {
        rt.schedule(attempt(*t, &format!("{}", t), "X", 0.9));
    }
    rt.process_events_up_to(b(6.5));
    assert_eq!(rt.timeline.len(), 3);
    assert_eq!(rt.metrics_failed_swaps + rt.link_establishments.len(), 7);
    let established: Vec<f64> = rt.link_establishments.iter().map(|e| e.0.parse::<f64>().unwrap()).collect();
    for w in established.windows(2) {
        assert!(w[0] < w[1], "{:?}", established);
    }
    assert!(established.iter().all(|t| *t <= 6.5));
}
