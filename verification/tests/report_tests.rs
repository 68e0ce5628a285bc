use qnet_core::binary64::Binary64;
use qnet_core::diff::{ConfigDiff, ConstraintsDiff, MetadataDiff, QNetDiff};
use qnet_core::validation::{ValidationError, ValidationErrorKind, ValidationResult, ValidationWarning};

fn b(x: f64) -> Binary64 {
    Binary64 { bits: x.to_bits() }
}

fn error(kind: ValidationErrorKind, path: Option<&str>) -> ValidationError {
    ValidationError { error_type: kind, message: String::new(), path: path.map(|p| p.to_string()) }
}

#[test]
fn each_error_kind_has_its_text() {
    let s = |x: &str| x.to_string();
    assert_eq!(
        error(ValidationErrorKind::DuplicateNodeId { id: s("A") }, None).describe(""),
        "Duplicate node ID: A"
    );
    assert_eq!(
        error(ValidationErrorKind::DuplicateNodeId { id: s("A") }, Some("nodes[2]")).describe(""),
        "Duplicate node ID: A [nodes[2]]"
    );
    assert_eq!(
        error(ValidationErrorKind::UnknownNodeReference { node_id: s("Z"), link_id: Some(s("L1")) }, None).describe(""),
        "Unknown node reference 'Z' in link 'L1'"
    );
    assert_eq!(
        error(ValidationErrorKind::UnknownNodeReference { node_id: s("Z"), link_id: None }, Some("p")).describe(""),
        "Unknown node reference 'Z' [p]"
    );
    assert_eq!(
        error(ValidationErrorKind::SelfLoop { link_id: s("L") }, Some("ignored")).describe(""),
        "Self-loop detected in link 'L'"
    );
    assert_eq!(
        error(ValidationErrorKind::InvalidDistance { link_id: s("L"), value: b(-1.0) }, None).describe(&format!("{}", -1.0f64)),
        "Invalid distance -1 km for link 'L' (must be > 0)"
    );
    assert_eq!(
        error(ValidationErrorKind::InvalidFidelity { link_id: s("L"), value: b(1.5) }, Some("x")).describe(&format!("{}", 1.5f64)),
        "Invalid fidelity 1.5 for link 'L' (must be 0 < x <= 1) [x]"
    );
    assert_eq!(
        error(ValidationErrorKind::InvalidGenerationRate { link_id: s("L"), value: b(0.0) }, None).describe("0"),
        "Invalid generation rate 0 Hz for link 'L' (must be > 0)"
    );
    assert_eq!(
        error(ValidationErrorKind::GraphDisconnected { component_count: 12 }, None).describe(""),
        "Graph is disconnected with 12 components"
    );
}

#[test]
fn a_passing_report_is_one_line() {
    assert_eq!(ValidationResult::new().generate_report(&vec![]), "Validation passed.\n");
}

#[test]
fn a_failing_report_lists_errors_then_warnings() {
    let mut r = ValidationResult::new();
    r.add_error(error(ValidationErrorKind::DuplicateNodeId { id: "A".to_string() }, None));
    r.add_error(error(ValidationErrorKind::InvalidDistance { link_id: "L".to_string(), value: b(-2.5) }, None));
    r.add_warning(ValidationWarning { warning_type: "t".to_string(), message: "weak link".to_string(), path: None });
    r.add_warning(ValidationWarning { warning_type: "t".to_string(), message: "slow".to_string(), path: Some("links[0]".to_string()) });
    let texts = vec![String::new(), format!("{}", -2.5f64)];
    assert_eq!(
        r.generate_report(&texts),
        "Validation failed.\n\nErrors:\n   - Duplicate node ID: A\n   - Invalid distance -2.5 km for link 'L' (must be > 0)\n\nWarnings:\n   - weak link [unknown]\n   - slow [links[0]]\n"
    );
}

#[test]
fn a_valid_result_with_warnings_still_passes() {
    let mut r = ValidationResult::new();
    r.add_warning(ValidationWarning { warning_type: "t".to_string(), message: "m".to_string(), path: None });
    assert_eq!(r.generate_report(&vec![]), "Validation passed.\n\nWarnings:\n   - m [unknown]\n");
}

#[test]
fn an_empty_diff_summary_is_its_heading() {
    let d = QNetDiff::new("a.qnet", "b.qnet");
    assert_eq!(d.generate_summary(&None, &None), "Diff between 'a.qnet' and 'b.qnet':\n");
}

#[test]
fn a_full_diff_summary_lists_every_change() {
    let s = |x: &str| x.to_string();
    let mut d = QNetDiff::new("a.qnet", "b.qnet");
    d.version_changed = Some((s("1.0"), s("2.0")));
    d.metadata_changed = Some(MetadataDiff {
        name_changed: Some((s("old"), s("new"))),
        description_changed: None,
        author_changed: Some((None, Some(s("me")))),
        created_at_changed: None,
    });
    d.nodes_added = vec![s("D")];
    d.nodes_removed = vec![s("A"), s("B")];
    d.nodes_modified = vec![s("C")];
    d.links_added = vec![s("C->D")];
    d.links_removed = vec![s("A->B"), s("B->C"), s("A->C")];
    d.links_modified = vec![];
    d.config_changed = Some(ConfigDiff {
        alpha_loss_changed: Some((Some(b(0.04)), None)),
        beta_fidelity_decay_changed: None,
        gamma_swapping_changed: None,
        max_attempts_changed: None,
    });
    d.constraints_changed = Some(ConstraintsDiff { fidelity_target_changed: None, max_latency_ms_changed: Some((None, Some(b(3.0)))) });
    d.extensions_changed = Some(true);
    let alpha = Some((format!("{:?}", Some(0.04f64)), format!("{:?}", None::<f64>)));
    assert_eq!(
        d.generate_summary(&alpha, &None),
        "Diff between 'a.qnet' and 'b.qnet':\n  Version: 1.0 -> 2.0\n  Metadata changes:\n     - name: 'old' -> 'new'\n  Nodes added: 1 (D)\n  Nodes removed: 2 (A, B)\n  Nodes modified: 1 (C)\n  Links added: 1 (C->D)\n  Links removed: 3 (A->B, B->C, A->C)\n  Config changes:\n     - alpha_loss: Some(0.04) -> None\n  Constraints changes:\n  Extensions changed\n"
    );
}

#[test]
fn unchanged_extensions_are_not_mentioned() {
    let mut d = QNetDiff::new("x", "y");
    d.extensions_changed = Some(false);
    d.metadata_changed = Some(MetadataDiff { name_changed: None, description_changed: Some((None, None)), author_changed: None, created_at_changed: None });
    assert_eq!(d.generate_summary(&None, &None), "Diff between 'x' and 'y':\n  Metadata changes:\n");
}
