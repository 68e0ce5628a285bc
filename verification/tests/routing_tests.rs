use qnet_core::binary64::Binary64;
use qnet_core::network::QuantumNetwork;
use qnet_core::request::LinkType;
use qnet_core::routing::{hop_links, route_candidates, select_candidate, StrategyType};

fn b(x: f64) -> Binary64 {
    Binary64 { bits: x.to_bits() }
}

fn s(x: &str) -> String {
    x.to_string()
}

fn network(nodes: &[&str], links: &[(&str, &str)]) -> QuantumNetwork {
    let mut net = QuantumNetwork::new();
    for id in nodes {
        net.add_node(&s(id), b(100.0));
    }
    for (from, to) in links {
        net.add_link(&s(from), &s(to), b(10.0), b(0.9), b(1000.0), LinkType::Fiber);
    }
    net
}

fn path(p: &[&str]) -> Vec<String> {
    p.iter().map(|x| s(x)).collect()
}

fn diamond() -> QuantumNetwork {
    network(&["A", "B", "C", "D"], &[("A", "B"), ("B", "D"), ("A", "C"), ("C", "D")])
}

#[test]
fn diamond_candidates_come_in_depth_first_order() {
    let c = route_candidates(&diamond(), &s("A"), &s("D")).unwrap();
    assert_eq!(
        c,
        vec![path(&["A", "C", "D"]), path(&["A", "C", "D"]), path(&["A", "B", "D"]), path(&["A", "B", "D"])]
    );
}

#[test]
fn every_candidate_is_a_simple_route_and_every_simple_route_is_a_candidate() {
    let net = network(
        &["A", "B", "C", "D", "E"],
        &[("A", "B"), ("B", "C"), ("C", "E"), ("A", "D"), ("D", "E"), ("B", "D")],
    );
    let c = route_candidates(&net, &s("A"), &s("E")).unwrap();
    let adjacent = |x: &String, y: &String| {
        net.links.iter().any(|l| (l.from == *x && l.to == *y) || (l.to == *x && l.from == *y))
    };
    for p in &c {
        assert_eq!(p[0], "A");
        assert_eq!(p[p.len() - 1], "E");
        for i in 0..p.len() {
            for j in (i + 1)..p.len() {
                assert_ne!(p[i], p[j]);
            }
        }
        for w in p.windows(2) {
            assert!(adjacent(&w[0], &w[1]));
        }
    }
    let simple = vec![
        path(&["A", "B", "C", "E"]),
        path(&["A", "D", "E"]),
        path(&["A", "B", "D", "E"]),
        path(&["A", "D", "B", "C", "E"]),
    ];
    for p in &simple {
        assert!(c.contains(p), "{:?}", p);
    }
    for p in &c {
        assert!(simple.contains(p), "{:?}", p);
    }
}

#[test]
fn unknown_endpoints_give_no_candidates() {
    assert!(route_candidates(&diamond(), &s("A"), &s("Z")).is_none());
    assert!(route_candidates(&diamond(), &s("Z"), &s("A")).is_none());
}

#[test]
fn a_route_to_itself_is_the_single_node() {
    let c = route_candidates(&diamond(), &s("B"), &s("B")).unwrap();
    assert_eq!(c, vec![path(&["B"])]);
}

#[test]
fn disconnected_ends_have_no_candidate() {
    let net = network(&["A", "B", "C"], &[("A", "B")]);
    let c = route_candidates(&net, &s("A"), &s("C")).unwrap();
    assert!(c.is_empty());
}

#[test]
fn highest_ranking_keeps_the_last_of_the_greatest() {
    let scores = vec![b(0.5), b(0.9), b(0.9), b(0.1)];
    assert_eq!(select_candidate(&scores, StrategyType::HighestFidelity), Some(2));
    assert_eq!(select_candidate(&scores, StrategyType::HighestSuccess), Some(2));
}

#[test]
fn lowest_ranking_keeps_the_first_of_the_least() {
    let scores = vec![b(3.0), b(1.0), b(1.0), b(5.0)];
    assert_eq!(select_candidate(&scores, StrategyType::LowestLatency), Some(1));
}

#[test]
fn selection_treats_nan_as_equal() {
    assert_eq!(select_candidate(&vec![b(f64::NAN), b(0.5)], StrategyType::HighestFidelity), Some(1));
    assert_eq!(select_candidate(&vec![b(0.5), b(f64::NAN)], StrategyType::LowestLatency), Some(0));
    assert_eq!(select_candidate(&vec![b(f64::NAN), b(0.2)], StrategyType::LowestLatency), Some(0));
    assert_eq!(select_candidate(&vec![], StrategyType::LowestLatency), None);
}

#[test]
fn selection_agrees_with_max_by_and_min_by() {
    let values = vec![0.3, 0.7, 0.7, f64::NAN, 0.1, 0.7, 0.05, 0.05];
    let scores: Vec<Binary64> = values.iter().map(|x| b(*x)).collect();
    let max = values
        .iter()
        .enumerate()
        .max_by(|a, c| a.1.partial_cmp(c.1).unwrap_or(std::cmp::Ordering::Equal))
        .map(|p| p.0);
    let min = values
        .iter()
        .enumerate()
        .min_by(|a, c| a.1.partial_cmp(c.1).unwrap_or(std::cmp::Ordering::Equal))
        .map(|p| p.0);
    assert_eq!(select_candidate(&scores, StrategyType::HighestFidelity), max);
    assert_eq!(select_candidate(&scores, StrategyType::LowestLatency), min);
}

#[test]
fn hop_links_join_each_hop() {
    let net = diamond();
    assert_eq!(hop_links(&net, &path(&["A", "C", "D"])), vec![Some(2), Some(3)]);
    assert_eq!(hop_links(&net, &path(&["D", "B", "A"])), vec![Some(1), Some(0)]);
    assert_eq!(hop_links(&net, &path(&["A", "D"])), vec![None]);
    assert_eq!(hop_links(&net, &vec![]), vec![]);
}

fn weighted(links: &[(&str, &str, f64, f64)]) -> QuantumNetwork {
    let mut net = QuantumNetwork::new();
    for id in ["A", "B", "C"] {
        net.add_node(&s(id), b(1.0));
    }
    for (from, to, d, f) in links {
        net.add_link(&s(from), &s(to), b(*d), b(*f), b(1000.0), LinkType::Fiber);
    }
    net
}

fn best_route(net: &QuantumNetwork, strategy: StrategyType) -> Vec<String> {
    let c = route_candidates(net, &s("A"), &s("C")).unwrap();
    let scores: Vec<Binary64> = c
        .iter()
        .map(|p| {
            let hops: Vec<usize> = hop_links(net, p).iter().map(|k| k.unwrap()).collect();
            let value = match strategy {
                StrategyType::HighestFidelity => {
                    hops.iter().map(|k| f64::from_bits(net.links[*k].base_fidelity.bits)).fold(1.0, |a, x| a * x)
                },
                _ => hops.iter().map(|k| f64::from_bits(net.links[*k].distance.bits)).sum::<f64>(),
            };
            b(value)
        })
        .collect();
    c[select_candidate(&scores, strategy).unwrap()].clone()
}

#[test]
fn highest_fidelity_takes_the_two_good_hops_over_the_poor_direct_link() {
    let net = weighted(&[("A", "B", 10.0, 0.95), ("B", "C", 10.0, 0.95), ("A", "C", 10.0, 0.5)]);
    assert_eq!(best_route(&net, StrategyType::HighestFidelity), path(&["A", "B", "C"]));
}

#[test]
fn lowest_latency_takes_the_two_short_hops_over_the_long_direct_link() {
    let net = weighted(&[("A", "B", 10.0, 0.9), ("B", "C", 10.0, 0.9), ("A", "C", 100.0, 0.9)]);
    assert_eq!(best_route(&net, StrategyType::LowestLatency), path(&["A", "B", "C"]));
    let direct = weighted(&[("A", "B", 60.0, 0.9), ("B", "C", 60.0, 0.9), ("A", "C", 100.0, 0.9)]);
    assert_eq!(best_route(&direct, StrategyType::LowestLatency), path(&["A", "C"]));
}

#[test]
fn every_hop_of_a_candidate_has_a_joining_link() {
    let net = diamond();
    for p in route_candidates(&net, &s("A"), &s("D")).unwrap() {
        assert!(hop_links(&net, &p).iter().all(|k| k.is_some()));
    }
}
