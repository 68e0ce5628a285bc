use qnet_core::binary64::Binary64;
use qnet_core::io::{accept_loaded_file, QNetError};
use qnet_core::qnet::{QNetFile, QNetLink, QNetNode};
use qnet_core::validation::{QNetValidator, ValidationError, ValidationErrorKind, ValidationResult, ValidationWarning};

fn b(x: f64) -> Binary64 {
    Binary64 { bits: x.to_bits() }
}

fn node(id: &str) -> QNetNode {
    QNetNode { id: id.to_string(), memory_lifetime_ms: None, memory_capacity: None, node_type: None }
}

fn link(id: Option<&str>, from: &str, to: &str, d: f64, f: f64, r: f64) -> QNetLink {
    QNetLink {
        id: id.map(|x| x.to_string()),
        from: from.to_string(),
        to: to.to_string(),
        distance_km: b(d),
        base_fidelity: b(f),
        generation_rate_hz: b(r),
        link_type: None,
        satellite: None,
    }
}

fn kind_text(k: &ValidationErrorKind) -> String {
    match k {
        ValidationErrorKind::DuplicateNodeId { id } => format!("dup {}", id),
        ValidationErrorKind::UnknownNodeReference { node_id, link_id } => format!("unknown {} {:?}", node_id, link_id),
        ValidationErrorKind::SelfLoop { link_id } => format!("loop {}", link_id),
        ValidationErrorKind::InvalidDistance { link_id, value } => format!("distance {} {}", link_id, f64::from_bits(value.bits)),
        ValidationErrorKind::InvalidFidelity { link_id, value } => format!("fidelity {} {}", link_id, f64::from_bits(value.bits)),
        ValidationErrorKind::InvalidGenerationRate { link_id, value } => format!("rate {} {}", link_id, f64::from_bits(value.bits)),
        ValidationErrorKind::GraphDisconnected { component_count } => format!("components {}", component_count),
    }
}

fn kinds(r: &ValidationResult) -> Vec<String> {
    for e in &r.errors {
        assert_eq!(e.message, "");
        assert!(e.path.is_none());
    }
    r.errors.iter().map(|e| kind_text(&e.error_type)).collect()
}

#[test]
fn each_repeated_identifier_is_reported_once_per_repeat() {
    let r = QNetValidator::validate_nodes(&vec![node("A"), node("B"), node("A"), node("A")]);
    assert_eq!(kinds(&r), vec!["dup A", "dup A"]);
    assert!(!r.is_valid);
    let ok = QNetValidator::validate_nodes(&vec![node("A"), node("B")]);
    assert!(ok.is_valid);
    assert!(ok.errors.is_empty());
}

#[test]
fn link_errors_come_in_checking_order() {
    let nodes = vec![node("A"), node("B")];
    let links = vec![
        link(Some("L1"), "X", "X", -1.0, 1.5, 0.0),
        link(None, "A", "B", 10.0, 0.9, 100.0),
        link(None, "A", "Y", 0.0, 0.0, -3.0),
    ];
    let r = QNetValidator::validate_links(&nodes, &links);
    assert_eq!(
        kinds(&r),
        vec![
            "loop L1",
            "unknown X Some(\"L1\")",
            "unknown X Some(\"L1\")",
            "distance L1 -1",
            "fidelity L1 1.5",
            "rate L1 0",
            "unknown Y None",
            "distance unknown 0",
            "fidelity unknown 0",
            "rate unknown -3",
        ]
    );
}

#[test]
fn fidelity_bounds_and_nan_values() {
    let nodes = vec![node("A"), node("B")];
    let links = vec![
        link(Some("one"), "A", "B", 1.0, 1.0, 1.0),
        link(Some("tiny"), "A", "B", 1.0, 1e-300, 1.0),
        link(Some("above"), "A", "B", 1.0, 1.0000001, 1.0),
        link(Some("nan"), "A", "B", f64::NAN, f64::NAN, f64::NAN),
    ];
    let r = QNetValidator::validate_links(&nodes, &links);
    let k = kinds(&r);
    assert_eq!(k, vec!["fidelity above 1.0000001", "distance nan NaN", "fidelity nan NaN", "rate nan NaN"]);
}

#[test]
fn disconnected_graphs_report_their_component_count() {
    let nodes = vec![node("A"), node("B"), node("C")];
    let r = QNetValidator::validate_graph_connected(&nodes, &vec![link(None, "A", "B", 1.0, 0.9, 1.0)]);
    assert_eq!(kinds(&r), vec!["components 2"]);
    let none = QNetValidator::validate_graph_connected(&nodes, &vec![]);
    assert_eq!(kinds(&none), vec!["components 3"]);
    let joined = QNetValidator::validate_graph_connected(
        &nodes,
        &vec![link(None, "B", "A", 1.0, 0.9, 1.0), link(None, "C", "B", 1.0, 0.9, 1.0)],
    );
    assert!(joined.is_valid);
    assert!(joined.errors.is_empty());
}

#[test]
fn links_to_unknown_nodes_do_not_join_components() {
    let nodes = vec![node("A"), node("B")];
    let r = QNetValidator::validate_graph_connected(
        &nodes,
        &vec![link(None, "A", "Z", 1.0, 0.9, 1.0), link(None, "Z", "B", 1.0, 0.9, 1.0)],
    );
    assert_eq!(kinds(&r), vec!["components 2"]);
}

#[test]
fn a_repeated_name_joins_through_its_last_entry() {
    let nodes = vec![node("A"), node("B"), node("A")];
    let r = QNetValidator::validate_graph_connected(&nodes, &vec![link(None, "A", "B", 1.0, 0.9, 1.0)]);
    assert_eq!(kinds(&r), vec!["components 2"]);
}

#[test]
fn an_empty_or_single_node_graph_is_connected() {
    assert!(QNetValidator::validate_graph_connected(&vec![], &vec![]).is_valid);
    assert!(QNetValidator::validate_graph_connected(&vec![node("A")], &vec![]).is_valid);
}

fn file(version: &str, nodes: Vec<QNetNode>, links: Vec<QNetLink>) -> QNetFile {
    let mut f = QNetFile::new("net");
    f.version = version.to_string();
    f.nodes = nodes;
    f.links = links;
    f
}

#[test]
fn validate_all_lists_node_errors_then_link_errors_and_warns_of_disconnection() {
    let f = file(
        "1.0",
        vec![node("A"), node("B"), node("A"), node("C")],
        vec![link(None, "A", "Q", 1.0, 0.9, 1.0)],
    );
    let r = QNetValidator::validate_all(&f);
    assert_eq!(kinds(&r), vec!["dup A", "unknown Q None"]);
    assert_eq!(r.warnings.len(), 1);
    assert_eq!(r.warnings[0].message, "Graph is disconnected with 4 components");
    let disconnected = file("1.0", vec![node("A"), node("B")], vec![]);
    let ok = QNetValidator::validate_all(&disconnected);
    assert!(ok.is_valid);
    assert!(ok.errors.is_empty());
    assert_eq!(ok.warnings.len(), 1);
    assert_eq!(ok.warnings[0].warning_type, "GraphDisconnected");
    assert_eq!(ok.warnings[0].message, "Graph is disconnected with 2 components");
    assert!(ok.warnings[0].path.is_none());
    let connected = file("1.0", vec![node("A"), node("B")], vec![link(None, "A", "B", 1.0, 0.9, 1.0)]);
    assert!(QNetValidator::validate_all(&connected).warnings.is_empty());
}

#[test]
fn accepting_a_file_checks_the_version_first() {
    match accept_loaded_file(file("2.0", vec![node("A"), node("A")], vec![])) {
        Err(QNetError::VersionNotSupported(v)) => assert_eq!(v, "2.0"),
        other => panic!("unexpected {:?}", other),
    }
}

#[test]
fn accepting_an_invalid_file_returns_its_validation() {
    match accept_loaded_file(file("1.0", vec![node("A")], vec![link(Some("x"), "A", "A", 1.0, 0.9, 1.0)])) {
        Err(QNetError::ValidationError(r)) => {
            assert!(!r.is_valid);
            assert_eq!(kinds(&r), vec!["loop x"]);
        },
        other => panic!("unexpected {:?}", other),
    }
}

#[test]
fn accepting_a_valid_file_returns_it() {
    match accept_loaded_file(file("1.0", vec![node("A"), node("B")], vec![link(None, "A", "B", 1.0, 0.9, 1.0)])) {
        Ok(f) => {
            assert_eq!(f.nodes.len(), 2);
            assert_eq!(f.metadata.name, "net");
        },
        other => panic!("unexpected {:?}", other),
    }
}

#[test]
fn results_record_errors_and_warnings() {
    let mut r = ValidationResult::new();
    assert!(r.is_valid);
    r.add_warning(ValidationWarning { warning_type: "w".to_string(), message: "m".to_string(), path: None });
    assert!(r.is_valid);
    r.add_error(ValidationError {
        error_type: ValidationErrorKind::SelfLoop { link_id: "L".to_string() },
        message: String::new(),
        path: None,
    });
    assert!(!r.is_valid);
    assert_eq!(r.errors.len(), 1);
    assert_eq!(r.warnings.len(), 1);
    let d = ValidationResult::default();
    assert!(d.is_valid && d.errors.is_empty() && d.warnings.is_empty());
}

#[test]
fn nan_quantities_are_rejected() {
    let ok = file("1.0", vec![node("A"), node("B")], vec![link(None, "A", "B", f64::NAN, 0.5, f64::NAN)]);
    assert!(accept_loaded_file(ok).is_err());
    let bad = file("1.0", vec![node("A"), node("B")], vec![link(None, "A", "B", 1.0, f64::NAN, 1.0)]);
    assert!(accept_loaded_file(bad).is_err());
}

#[test]
fn loading_rejects_a_disconnected_file() {
    let f = file("1.0", vec![node("A"), node("B"), node("C")], vec![link(None, "A", "B", 1.0, 0.9, 1.0)]);
    match accept_loaded_file(f) {
        Err(QNetError::ValidationError(r)) => {
            assert!(!r.is_valid);
            assert_eq!(kinds(&r), vec!["components 2"]);
            assert_eq!(r.warnings.len(), 1);
        },
        other => panic!("unexpected {:?}", other),
    }
}

#[test]
fn loading_lists_link_errors_before_the_disconnection() {
    let f = file("1.0", vec![node("A"), node("B"), node("C")], vec![link(Some("l"), "A", "B", -1.0, 0.9, 1.0)]);
    match accept_loaded_file(f) {
        Err(QNetError::ValidationError(r)) => assert_eq!(kinds(&r), vec!["distance l -1", "components 2"]),
        other => panic!("unexpected {:?}", other),
    }
}
