use qnet_core::binary64::Binary64;
use qnet_core::diff::compare_qnet_files;
use qnet_core::json::{JsonNumber, JsonValue};
use qnet_core::qnet::{QNetConfig, QNetConstraints, QNetExtensions, QNetFile, QNetLink, QNetLinkType, QNetNode, QNetNodeType};

fn b(x: f64) -> Binary64 {
    Binary64 { bits: x.to_bits() }
}

fn node(id: &str, lifetime: Option<f64>) -> QNetNode {
    QNetNode { id: id.to_string(), memory_lifetime_ms: lifetime.map(b), memory_capacity: None, node_type: None }
}

fn link(from: &str, to: &str, f: f64) -> QNetLink {
    QNetLink {
        id: None,
        from: from.to_string(),
        to: to.to_string(),
        distance_km: b(10.0),
        base_fidelity: b(f),
        generation_rate_hz: b(100.0),
        link_type: None,
        satellite: None,
    }
}

fn file(name: &str) -> QNetFile {
    QNetFile::new(name)
}

fn texts(v: &Vec<String>) -> Vec<&str> {
    v.iter().map(|s| s.as_str()).collect()
}

#[test]
fn nodes_are_matched_by_identifier() {
    let mut s = file("net");
    s.nodes = vec![node("A", None), node("B", Some(1.0)), node("C", Some(2.0))];
    let mut t = file("net");
    t.nodes = vec![node("D", None), node("C", Some(2.5)), node("B", Some(1.0))];
    let d = compare_qnet_files("s.qnet", "t.qnet", &s, &t);
    assert_eq!(d.source_file, "s.qnet");
    assert_eq!(d.target_file, "t.qnet");
    assert_eq!(texts(&d.nodes_added), vec!["D"]);
    assert_eq!(texts(&d.nodes_removed), vec!["A"]);
    assert_eq!(texts(&d.nodes_modified), vec!["C"]);
    assert!(d.version_changed.is_none());
    assert!(d.metadata_changed.is_none());
    assert!(d.config_changed.is_none());
    assert!(d.constraints_changed.is_none());
    assert_eq!(d.extensions_changed, Some(false));
    assert_eq!(d.summary, "");
}

#[test]
fn node_type_and_capacity_count_as_modifications() {
    let mut s = file("net");
    s.nodes = vec![node("A", None), node("B", None)];
    let mut t = file("net");
    let mut a = node("A", None);
    a.node_type = Some(QNetNodeType::Repeater);
    let mut bb = node("B", None);
    bb.memory_capacity = Some(4);
    t.nodes = vec![a, bb];
    let d = compare_qnet_files("s", "t", &s, &t);
    assert_eq!(texts(&d.nodes_modified), vec!["A", "B"]);
}

#[test]
fn links_are_matched_by_their_key_and_the_last_record_counts() {
    let mut s = file("net");
    s.links = vec![link("A", "B", 0.9), link("B", "C", 0.8), link("A", "B", 0.7)];
    let mut t = file("net");
    t.links = vec![link("B", "A", 0.9), link("A", "B", 0.7), link("B", "C", 0.85)];
    let d = compare_qnet_files("s", "t", &s, &t);
    assert_eq!(texts(&d.links_added), vec!["B->A"]);
    assert!(d.links_removed.is_empty());
    assert_eq!(texts(&d.links_modified), vec!["B->C"]);
}

#[test]
fn link_types_count_as_modifications() {
    let mut s = file("net");
    s.links = vec![link("A", "B", 0.9)];
    let mut t = file("net");
    let mut l = link("A", "B", 0.9);
    l.link_type = Some(QNetLinkType::Fiber);
    t.links = vec![l];
    let d = compare_qnet_files("s", "t", &s, &t);
    assert_eq!(texts(&d.links_modified), vec!["A->B"]);
}

#[test]
fn version_and_metadata_changes_are_reported_field_by_field() {
    let mut s = file("old");
    s.metadata.author = Some("me".to_string());
    let mut t = file("new");
    t.version = "2.0".to_string();
    t.metadata.author = Some("me".to_string());
    t.metadata.created_at = Some("today".to_string());
    let d = compare_qnet_files("s", "t", &s, &t);
    assert_eq!(d.version_changed, Some(("1.0".to_string(), "2.0".to_string())));
    let m = d.metadata_changed.unwrap();
    assert_eq!(m.name_changed, Some(("old".to_string(), "new".to_string())));
    assert!(m.description_changed.is_none());
    assert!(m.author_changed.is_none());
    assert_eq!(m.created_at_changed, Some((None, Some("today".to_string()))));
}

#[test]
fn config_changes_compare_each_field() {
    let mut s = file("net");
    s.config = Some(QNetConfig { alpha_loss: Some(b(0.04)), beta_fidelity_decay: Some(b(0.02)), gamma_swapping: None, max_attempts: Some(100) });
    let mut t = file("net");
    t.config = Some(QNetConfig { alpha_loss: Some(b(0.05)), beta_fidelity_decay: Some(b(0.02)), gamma_swapping: Some(b(0.85)), max_attempts: Some(100) });
    let d = compare_qnet_files("s", "t", &s, &t);
    let c = d.config_changed.unwrap();
    let (a1, a2) = c.alpha_loss_changed.unwrap();
    assert_eq!(a1.unwrap().bits, 0.04f64.to_bits());
    assert_eq!(a2.unwrap().bits, 0.05f64.to_bits());
    assert!(c.beta_fidelity_decay_changed.is_none());
    let (g1, g2) = c.gamma_swapping_changed.unwrap();
    assert!(g1.is_none());
    assert_eq!(g2.unwrap().bits, 0.85f64.to_bits());
    assert!(c.max_attempts_changed.is_none());
}

#[test]
fn a_config_that_appears_reports_every_field_it_sets() {
    let s = file("net");
    let mut t = file("net");
    t.config = Some(QNetConfig { alpha_loss: None, beta_fidelity_decay: None, gamma_swapping: None, max_attempts: Some(3) });
    let d = compare_qnet_files("s", "t", &s, &t);
    let c = d.config_changed.unwrap();
    assert_eq!(c.alpha_loss_changed.map(|p| (p.0.is_none(), p.1.is_none())), Some((true, true)));
    assert_eq!(c.max_attempts_changed, Some((None, Some(3))));
}

#[test]
fn constraints_changes_compare_each_field() {
    let mut s = file("net");
    s.constraints = Some(QNetConstraints { fidelity_target: Some(b(0.9)), max_latency_ms: None });
    let mut t = file("net");
    t.constraints = Some(QNetConstraints { fidelity_target: Some(b(0.9)), max_latency_ms: Some(b(50.0)) });
    let d = compare_qnet_files("s", "t", &s, &t);
    let c = d.constraints_changed.unwrap();
    assert!(c.fidelity_target_changed.is_none());
    let (l1, l2) = c.max_latency_ms_changed.unwrap();
    assert!(l1.is_none());
    assert_eq!(l2.unwrap().bits, 50.0f64.to_bits());
}

#[test]
fn extensions_are_compared_as_json() {
    let mut s = file("net");
    s.extensions = Some(QNetExtensions { custom: Some(JsonValue::Array(vec![JsonValue::Number(JsonNumber::PosInt(1))])) });
    let mut t = file("net");
    t.extensions = Some(QNetExtensions { custom: Some(JsonValue::Array(vec![JsonValue::Number(JsonNumber::PosInt(1))])) });
    assert_eq!(compare_qnet_files("s", "t", &s, &t).extensions_changed, Some(false));
    t.extensions = Some(QNetExtensions { custom: Some(JsonValue::Array(vec![JsonValue::Number(JsonNumber::PosInt(2))])) });
    assert_eq!(compare_qnet_files("s", "t", &s, &t).extensions_changed, Some(true));
    t.extensions = None;
    assert_eq!(compare_qnet_files("s", "t", &s, &t).extensions_changed, Some(true));
}

fn rich_file() -> QNetFile {
    let mut f = file("net");
    f.metadata.description = Some("d".to_string());
    f.nodes = vec![node("A", Some(1.0)), node("B", None), node("A", Some(2.0))];
    f.links = vec![link("A", "B", 0.9), link("B", "A", 0.8)];
    f.config = Some(QNetConfig { alpha_loss: Some(b(0.04)), beta_fidelity_decay: None, gamma_swapping: Some(b(0.85)), max_attempts: Some(1) });
    f.constraints = Some(QNetConstraints { fidelity_target: Some(b(0.9)), max_latency_ms: Some(b(10.0)) });
    f.extensions = Some(QNetExtensions { custom: Some(JsonValue::Number(JsonNumber::Float(b(1.5)))) });
    f
}

#[test]
fn a_file_differs_from_itself_in_nothing() {
    let f = rich_file();
    let g = rich_file();
    let d = compare_qnet_files("f", "f", &f, &g);
    assert!(d.version_changed.is_none());
    assert!(d.metadata_changed.is_none());
    assert!(d.nodes_added.is_empty() && d.nodes_removed.is_empty() && d.nodes_modified.is_empty());
    assert!(d.links_added.is_empty() && d.links_removed.is_empty() && d.links_modified.is_empty());
    assert!(d.config_changed.is_none());
    assert!(d.constraints_changed.is_none());
    assert_eq!(d.extensions_changed, Some(false));
}

#[test]
fn a_nan_value_makes_a_file_differ_from_itself() {
    let mut f = file("net");
    f.nodes = vec![node("A", Some(f64::NAN))];
    let mut g = file("net");
    g.nodes = vec![node("A", Some(f64::NAN))];
    let d = compare_qnet_files("f", "f", &f, &g);
    assert_eq!(texts(&d.nodes_modified), vec!["A"]);
}
