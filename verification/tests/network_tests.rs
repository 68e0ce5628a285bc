use qnet_core::binary64::Binary64;
use qnet_core::network::QuantumNetwork;
use qnet_core::request::{LinkDefinition, LinkType, NetworkTopologyPayload, NodeDefinition, SatelliteConditions, TopologyConfig};

fn b(x: f64) -> Binary64 {
    Binary64 { bits: x.to_bits() }
}

fn node(id: &str, t2: f64) -> NodeDefinition {
    NodeDefinition { id: id.to_string(), memory_lifetime_t2: b(t2) }
}

fn link(from: &str, to: &str, kind: LinkType) -> LinkDefinition {
    LinkDefinition {
        from_node: from.to_string(),
        to: to.to_string(),
        distance_km: b(12.5),
        base_fidelity: b(0.93),
        generation_rate_hz: b(750.0),
        link_type: kind,
        satellite_conditions: if kind == LinkType::Satellite { Some(SatelliteConditions::default()) } else { None },
    }
}

fn lifetime(net: &QuantumNetwork, id: &str) -> Option<f64> {
    net.nodes.iter().find(|n| n.id == id).map(|n| f64::from_bits(n.t2_lifetime.bits))
}

#[test]
fn a_later_node_definition_replaces_an_earlier_one() {
    let payload = NetworkTopologyPayload {
        nodes: vec![node("A", 1.0), node("B", 2.0), node("A", 3.0)],
        links: vec![link("A", "B", LinkType::Fiber), link("B", "A", LinkType::Satellite)],
    };
    let net = QuantumNetwork::from_payload(&payload);
    assert_eq!(net.nodes.len(), 2);
    assert_eq!(lifetime(&net, "A"), Some(3.0));
    assert_eq!(lifetime(&net, "B"), Some(2.0));
    assert!(net.contains_node(&"A".to_string()));
    assert!(!net.contains_node(&"C".to_string()));
    assert_eq!(net.links.len(), 2);
    assert_eq!(net.links[1].from, "B");
    assert_eq!(net.links[1].to, "A");
    assert_eq!(net.links[1].link_type, LinkType::Satellite);
    assert_eq!(net.links[0].distance.bits, 12.5f64.to_bits());
    assert_eq!(net.links[0].base_fidelity.bits, 0.93f64.to_bits());
    assert_eq!(net.links[0].rate_hz.bits, 750.0f64.to_bits());
}

#[test]
fn add_node_keeps_identifiers_distinct() {
    let mut net = QuantumNetwork::new();
    net.add_node(&"X".to_string(), b(5.0));
    net.add_node(&"Y".to_string(), b(6.0));
    net.add_node(&"X".to_string(), b(7.0));
    assert_eq!(net.nodes.len(), 2);
    assert_eq!(lifetime(&net, "X"), Some(7.0));
    assert_eq!(lifetime(&net, "Y"), Some(6.0));
}

#[test]
fn a_snapshot_records_each_link_with_its_medium() {
    let payload = NetworkTopologyPayload {
        nodes: vec![node("A", 1.0), node("B", 2.0)],
        links: vec![link("A", "B", LinkType::Satellite)],
    };
    let net = QuantumNetwork::from_payload(&payload);
    let config = TopologyConfig { alpha_loss: b(1.2), gamma_swapping: b(0.12) };
    let snap = net.to_snapshot("exported_topology", "1.0", config);
    assert_eq!(snap.metadata.name, "exported_topology");
    assert_eq!(snap.metadata.version, "1.0");
    assert_eq!(snap.config.alpha_loss.bits, 1.2f64.to_bits());
    assert_eq!(snap.nodes.len(), 2);
    assert_eq!(snap.nodes[0].id, "A");
    assert_eq!(snap.nodes[1].memory_lifetime_t2.bits, 2.0f64.to_bits());
    assert_eq!(snap.links.len(), 1);
    assert_eq!(snap.links[0].link_type, LinkType::Satellite);
    assert!(snap.links[0].satellite_conditions.is_none());
    assert_eq!(snap.links[0].generation_rate_hz.bits, 750.0f64.to_bits());
}

#[test]
fn defaults_match_the_documented_values() {
    let d = LinkDefinition::default();
    assert_eq!(d.from_node, "");
    assert_eq!(d.distance_km.bits, 0.0f64.to_bits());
    assert_eq!(d.link_type, LinkType::Fiber);
    assert!(d.satellite_conditions.is_none());
    let c = TopologyConfig::default();
    assert_eq!(c.alpha_loss.bits, 0.2f64.to_bits());
    assert_eq!(c.gamma_swapping.bits, 0.85f64.to_bits());
    let sc = SatelliteConditions::default();
    assert_eq!(sc.visibility.bits, 1.0f64.to_bits());
    assert_eq!(sc.weather_factor.bits, 1.0f64.to_bits());
    assert_eq!(LinkType::default(), LinkType::Fiber);
    let m = qnet_core::request::TopologyMetadata::default();
    assert_eq!(m.name, "unnamed");
    assert_eq!(m.version, "1.0");
}

#[test]
fn exporting_then_importing_keeps_the_network() {
    let payload = NetworkTopologyPayload {
        nodes: vec![node("A", 1.0), node("B", 2.0), node("A", 4.0), node("C", 8.0)],
        links: vec![link("A", "B", LinkType::Satellite), link("C", "B", LinkType::Fiber)],
    };
    let net = QuantumNetwork::from_payload(&payload);
    let snap = net.to_snapshot("x", "1.0", TopologyConfig::default());
    let back = QuantumNetwork::from_definitions(&snap.nodes, &snap.links);
    for id in ["A", "B", "C", "D"] {
        assert_eq!(lifetime(&back, id), lifetime(&net, id));
    }
    assert_eq!(lifetime(&back, "A"), Some(4.0));
    assert_eq!(back.links.len(), net.links.len());
    for (x, y) in back.links.iter().zip(net.links.iter()) {
        assert_eq!((&x.from, &x.to, x.distance.bits, x.base_fidelity.bits, x.rate_hz.bits), (&y.from, &y.to, y.distance.bits, y.base_fidelity.bits, y.rate_hz.bits));
        assert_eq!(x.link_type, y.link_type);
    }
    assert_eq!(back.links[0].link_type, LinkType::Satellite);
    assert_eq!(back.links[1].link_type, LinkType::Fiber);
}
