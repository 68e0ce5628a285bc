use qnet_core::binary64::Binary64;
use qnet_core::request::{LinkDefinition, LinkType, SatelliteConditions, TopologyDiff, TopologySnapshot};
use qnet_core::snapshot::{compare_snapshots, definition_equals};

fn b(x: f64) -> Binary64 {
    Binary64 { bits: x.to_bits() }
}

fn texts(v: &Vec<String>) -> Vec<&str> {
    v.iter().map(|s| s.as_str()).collect()
}

#[test]
fn new_snapshots_are_empty_with_the_default_configuration() {
    let s = TopologySnapshot::new("net", "2.1");
    assert_eq!(s.metadata.name, "net");
    assert_eq!(s.metadata.version, "2.1");
    assert!(s.nodes.is_empty() && s.links.is_empty());
    assert_eq!(s.config.alpha_loss.bits, 0.2f64.to_bits());
    assert_eq!(s.config.gamma_swapping.bits, 0.85f64.to_bits());
}

#[test]
fn snapshots_compare_by_identifier_and_key() {
    let mut a = TopologySnapshot::new("first", "1.0");
    a.add_node("A", b(1.0));
    a.add_node("B", b(2.0));
    a.add_node("C", b(3.0));
    a.add_link("A", "B", b(1.0), b(0.9), b(10.0));
    a.add_link("B", "C", b(1.0), b(0.9), b(10.0));
    let mut c = TopologySnapshot::new("second", "1.0");
    c.add_node("B", b(2.0005));
    c.add_node("C", b(4.0));
    c.add_node("D", b(5.0));
    c.add_link("A", "B", b(1.0), b(0.95), b(10.0));
    c.add_link("C", "D", b(1.0), b(0.9), b(10.0));
    let r = compare_snapshots(&a, &c);
    assert_eq!(r.diff.name, "first vs second");
    assert_eq!(texts(&r.diff.nodes_added), vec!["D"]);
    assert_eq!(texts(&r.diff.nodes_removed), vec!["A"]);
    assert!(r.diff.nodes_modified.is_empty());
    assert_eq!(texts(&r.diff.links_added), vec!["C->D"]);
    assert_eq!(texts(&r.diff.links_removed), vec!["B->C"]);
    assert_eq!(texts(&r.diff.links_modified), vec!["A->B"]);
    assert_eq!(r.diff.summary, "");
    let shared: Vec<(String, f64, f64)> = r
        .shared_nodes
        .iter()
        .map(|(n, x, y)| (n.clone(), f64::from_bits(x.bits), f64::from_bits(y.bits)))
        .collect();
    assert_eq!(shared, vec![("B".to_string(), 2.0, 2.0005), ("C".to_string(), 3.0, 4.0)]);
}

#[test]
fn a_repeated_node_stands_for_its_last_lifetime() {
    let mut a = TopologySnapshot::new("a", "1.0");
    a.add_node("A", b(1.0));
    a.add_node("A", b(9.0));
    let mut c = TopologySnapshot::new("c", "1.0");
    c.add_node("A", b(3.0));
    let r = compare_snapshots(&a, &c);
    assert_eq!(r.shared_nodes.len(), 1);
    assert_eq!(r.shared_nodes[0].1.bits, 9.0f64.to_bits());
    assert_eq!(r.shared_nodes[0].2.bits, 3.0f64.to_bits());
}

#[test]
fn link_definitions_compare_every_field() {
    let base = LinkDefinition {
        from_node: "A".to_string(),
        to: "B".to_string(),
        distance_km: b(1.0),
        base_fidelity: b(0.9),
        generation_rate_hz: b(5.0),
        link_type: LinkType::Satellite,
        satellite_conditions: Some(SatelliteConditions { visibility: b(0.9), weather_factor: b(0.8) }),
    };
    assert!(definition_equals(&base, &base.clone()));
    let mut other = base.clone();
    other.satellite_conditions = Some(SatelliteConditions { visibility: b(0.9), weather_factor: b(0.81) });
    assert!(!definition_equals(&base, &other));
    let mut other = base.clone();
    other.link_type = LinkType::Fiber;
    assert!(!definition_equals(&base, &other));
    let mut other = base.clone();
    other.distance_km = b(-0.0);
    let mut zero = base.clone();
    zero.distance_km = b(0.0);
    assert!(definition_equals(&zero, &other));
}

#[test]
fn topology_diff_summaries_count_each_list() {
    let mut d = TopologyDiff::new("first vs second");
    assert_eq!(d.summary, "");
    d.nodes_added = vec!["D".to_string()];
    d.links_removed = (0..12).map(|i| format!("L{}", i)).collect();
    assert_eq!(
        d.generate_summary(),
        "Diff for 'first vs second': 1 nodes added, 0 nodes removed, 0 nodes modified. 0 links added, 12 links removed, 0 links modified."
    );
}

#[test]
fn a_snapshot_compared_with_itself_shows_no_change() {
    let mut a = TopologySnapshot::new("same", "1.0");
    a.add_node("A", b(1.0));
    a.add_node("B", b(f64::NAN));
    a.add_node("A", b(3.0));
    a.add_link("A", "B", b(1.0), b(0.9), b(10.0));
    a.add_link("A", "B", b(2.0), b(0.8), b(10.0));
    let r = compare_snapshots(&a, &a);
    assert!(r.diff.nodes_added.is_empty() && r.diff.nodes_removed.is_empty());
    assert!(r.diff.links_added.is_empty() && r.diff.links_removed.is_empty() && r.diff.links_modified.is_empty());
    let shared: Vec<&str> = r.shared_nodes.iter().map(|(n, _, _)| n.as_str()).collect();
    assert_eq!(shared, vec!["A", "B"]);
    assert_eq!(r.shared_nodes[0].1.bits, 3.0f64.to_bits());
    assert_eq!(r.shared_nodes[0].2.bits, 3.0f64.to_bits());
}

#[test]
fn a_nan_link_quantity_makes_a_snapshot_differ_from_itself() {
    let mut a = TopologySnapshot::new("same", "1.0");
    a.add_link("A", "B", b(f64::NAN), b(0.9), b(10.0));
    let r = compare_snapshots(&a, &a);
    assert_eq!(texts(&r.diff.links_modified), vec!["A->B"]);
}
