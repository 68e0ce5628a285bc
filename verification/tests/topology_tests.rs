use qnet_core::request::{LinkType, NetworkTopologyPayload};
use qnet_core::topology::generator::{generate_topology, topology_by_name, TopologyType};
use qnet_core::topology::hybrid::build as build_hybrid;
use qnet_core::topology::repeater_chain::build as build_repeater_chain;
use qnet_core::topology::telecom::build as build_telecom;

fn value(x: qnet_core::binary64::Binary64) -> f64 {
    f64::from_bits(x.bits)
}

fn nodes(p: &NetworkTopologyPayload) -> Vec<(String, f64)> {
    p.nodes.iter().map(|n| (n.id.clone(), value(n.memory_lifetime_t2))).collect()
}

fn links(p: &NetworkTopologyPayload) -> Vec<(String, String, f64, f64, f64, LinkType, Option<(f64, f64)>)> {
    p.links
        .iter()
        .map(|l| {
            (
                l.from_node.clone(),
                l.to.clone(),
                value(l.distance_km),
                value(l.base_fidelity),
                value(l.generation_rate_hz),
                l.link_type,
                l.satellite_conditions.map(|c| (value(c.visibility), value(c.weather_factor))),
            )
        })
        .collect()
}

fn s(x: &str) -> String {
    x.to_string()
}

#[test]
fn the_telecom_backbone_has_six_nodes_and_seven_fiber_links() {
    let p = build_telecom();
    assert_eq!(
        nodes(&p),
        vec![(s("A"), 120.0), (s("B"), 150.0), (s("C"), 200.0), (s("D"), 200.0), (s("E"), 250.0), (s("F"), 180.0)]
    );
    let f = LinkType::Fiber;
    assert_eq!(
        links(&p),
        vec![
            (s("A"), s("B"), 5.0, 0.97, 2000.0, f, None),
            (s("B"), s("C"), 80.0, 0.93, 1200.0, f, None),
            (s("C"), s("D"), 600.0, 0.88, 600.0, f, None),
            (s("D"), s("E"), 5500.0, 0.75, 150.0, f, None),
            (s("C"), s("F"), 900.0, 0.91, 500.0, f, None),
            (s("F"), s("E"), 4800.0, 0.80, 200.0, f, None),
            (s("B"), s("F"), 1200.0, 0.85, 400.0, f, None),
        ]
    );
}

#[test]
fn the_hybrid_network_has_two_satellite_links() {
    let p = build_hybrid();
    assert_eq!(nodes(&p), vec![(s("Toronto"), 150.0), (s("Montreal"), 180.0), (s("London"), 220.0), (s("SAT-1"), 300.0)]);
    assert_eq!(
        links(&p),
        vec![
            (s("Toronto"), s("Montreal"), 500.0, 0.90, 1000.0, LinkType::Fiber, None),
            (s("Montreal"), s("London"), 5500.0, 0.75, 200.0, LinkType::Fiber, None),
            (s("Toronto"), s("SAT-1"), 1000.0, 0.98, 50.0, LinkType::Satellite, Some((0.95, 0.98))),
            (s("SAT-1"), s("London"), 6000.0, 0.97, 50.0, LinkType::Satellite, Some((0.85, 0.90))),
        ]
    );
}

#[test]
fn a_repeater_chain_joins_consecutive_repeaters() {
    let p = build_repeater_chain(12);
    let n = nodes(&p);
    assert_eq!(n.len(), 12);
    for (i, (id, t2)) in n.iter().enumerate() {
        assert_eq!(*id, format!("N{}", i));
        assert_eq!(*t2, 150.0);
    }
    let l = links(&p);
    assert_eq!(l.len(), 11);
    for (i, link) in l.iter().enumerate() {
        assert_eq!(*link, (format!("N{}", i), format!("N{}", i + 1), 100.0, 0.92, 800.0, LinkType::Fiber, None));
    }
}

#[test]
fn a_chain_of_one_repeater_has_no_link() {
    let p = build_repeater_chain(1);
    assert_eq!(nodes(&p), vec![(s("N0"), 150.0)]);
    assert!(p.links.is_empty());
}

#[test]
fn generate_topology_dispatches_on_the_kind() {
    assert_eq!(nodes(&generate_topology(TopologyType::TelecomBackbone)), nodes(&build_telecom()));
    assert_eq!(links(&generate_topology(TopologyType::HybridSatelliteFiber)), links(&build_hybrid()));
    assert_eq!(nodes(&generate_topology(TopologyType::RepeaterChain { length: 3 })).len(), 3);
}

#[test]
fn topology_names_resolve_to_their_kind() {
    assert!(matches!(topology_by_name("fiber_only"), Some(TopologyType::TelecomBackbone)));
    assert!(matches!(topology_by_name("telecom_backbone"), Some(TopologyType::TelecomBackbone)));
    assert!(matches!(topology_by_name("repeater_chain"), Some(TopologyType::RepeaterChain { length: 4 })));
    assert!(matches!(topology_by_name("hybrid"), Some(TopologyType::HybridSatelliteFiber)));
    assert!(matches!(topology_by_name("hybrid_satellite_fiber"), Some(TopologyType::HybridSatelliteFiber)));
    assert!(topology_by_name("ring").is_none());
    assert!(topology_by_name("").is_none());
}
