use qnet_core::binary64::Binary64;
use qnet_core::json::{json_equals, JsonNumber, JsonValue};
use qnet_core::qnet::{link_key, QNetConfig, QNetFile, QNetLinkType, QNetNodeType, QNetSatelliteExtension, QNetVersion};

fn b(x: f64) -> Binary64 {
    Binary64 { bits: x.to_bits() }
}

fn obj(members: Vec<(&str, JsonValue)>) -> JsonValue {
    JsonValue::Object(members.into_iter().map(|(k, v)| (k.to_string(), v)).collect())
}

fn sample() -> JsonValue {
    obj(vec![
        ("a", JsonValue::Array(vec![JsonValue::Null, JsonValue::Bool(true), JsonValue::Number(JsonNumber::NegInt(-3))])),
        ("b", JsonValue::String("x".to_string())),
        ("c", JsonValue::Number(JsonNumber::Float(b(0.5)))),
    ])
}

#[test]
fn json_values_equal_themselves() {
    assert!(json_equals(&sample(), &sample()));
    assert!(json_equals(&JsonValue::Null, &JsonValue::Null));
}

#[test]
fn json_values_differ_by_kind_and_content() {
    assert!(!json_equals(&JsonValue::Null, &JsonValue::Bool(false)));
    assert!(!json_equals(&JsonValue::Number(JsonNumber::PosInt(1)), &JsonValue::Number(JsonNumber::Float(b(1.0)))));
    assert!(!json_equals(&JsonValue::Number(JsonNumber::Float(b(f64::NAN))), &JsonValue::Number(JsonNumber::Float(b(f64::NAN)))));
    assert!(json_equals(&JsonValue::Number(JsonNumber::Float(b(0.0))), &JsonValue::Number(JsonNumber::Float(b(-0.0)))));
    assert!(!json_equals(&JsonValue::Array(vec![JsonValue::Null]), &JsonValue::Array(vec![])));
    assert!(!json_equals(&obj(vec![("a", JsonValue::Null)]), &obj(vec![("b", JsonValue::Null)])));
    assert!(!json_equals(&sample(), &obj(vec![])));
}

#[test]
fn the_only_version_is_one_point_zero() {
    assert_eq!(QNetVersion::parse("1.0"), Ok(QNetVersion::V1_0));
    assert_eq!(QNetVersion::parse("2.0"), Err("Unsupported version: 2.0".to_string()));
    assert_eq!(QNetVersion::V1_0.text(), "1.0");
}

#[test]
fn a_new_file_is_empty_and_current() {
    let mut f = QNetFile::new("lab");
    assert_eq!(f.version, "1.0");
    assert_eq!(f.metadata.name, "lab");
    assert!(f.metadata.description.is_none() && f.config.is_none() && f.constraints.is_none() && f.extensions.is_none());
    f.add_node("A");
    f.add_node("B");
    f.add_link("A", "B", b(10.0), b(0.9), b(100.0));
    assert_eq!(f.nodes.len(), 2);
    assert_eq!(f.nodes[1].id, "B");
    assert!(f.nodes[1].memory_lifetime_ms.is_none() && f.nodes[1].node_type.is_none());
    assert_eq!(f.links.len(), 1);
    assert!(f.links[0].id.is_none() && f.links[0].link_type.is_none() && f.links[0].satellite.is_none());
    assert_eq!(f.links[0].base_fidelity.bits, 0.9f64.to_bits());
    assert_eq!(link_key(&f.links[0]), "A->B");
}

#[test]
fn format_defaults() {
    assert_eq!(QNetNodeType::default(), QNetNodeType::Ground);
    assert_eq!(QNetLinkType::default(), QNetLinkType::Fiber);
    let s = QNetSatelliteExtension::default();
    assert_eq!(s.visibility.bits, 1.0f64.to_bits());
    assert_eq!(s.weather_factor.bits, 1.0f64.to_bits());
    let c = QNetConfig::default();
    assert_eq!(c.alpha_loss.map(|x| x.bits), Some(0.04f64.to_bits()));
    assert_eq!(c.beta_fidelity_decay.map(|x| x.bits), Some(0.02f64.to_bits()));
    assert_eq!(c.gamma_swapping.map(|x| x.bits), Some(0.85f64.to_bits()));
    assert_eq!(c.max_attempts, Some(100));
}
