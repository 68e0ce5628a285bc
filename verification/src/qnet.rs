//! The `.qnet` topology file format: its records, their equality, and the
//! constructors that build a file programmatically.
use vstd::prelude::*;

use crate::binary64::{optional_equals, same_optional, Binary64};
use crate::json::{json_eq, json_equals, JsonValue};

verus! {

/// The version of the `.qnet` format.
#[derive(Clone, Copy, Debug, PartialEq, Eq, Structural)]
pub enum QNetVersion {
    V1_0,
}

impl QNetVersion {
    /// The version as written in a file.
    pub fn text(&self) -> (r: String)
        ensures
            r@ == "1.0"@,
    {
        String::from_str("1.0")
    }

    /// Reads a version; anything but `"1.0"` is unsupported, and the error
    /// names it.
    pub fn parse(s: &str) -> (r: Result<QNetVersion, String>)
        ensures
            s@ == "1.0"@ ==> r == Ok::<QNetVersion, String>(QNetVersion::V1_0),
            s@ != "1.0"@ ==> (r matches Err(e) && e@ == "Unsupported version: "@ + s@),
    {
        let one = String::from_str("1.0");
        let given = String::from_str(s);
        if given == one {
            Ok(QNetVersion::V1_0)
        } else {
            let mut e = String::from_str("Unsupported version: ");
            e.append(s);
            Err(e)
        }
    }
}

/// The kind of a node.
#[derive(Clone, Copy, Debug, PartialEq, Eq, Structural)]
pub enum QNetNodeType {
    Ground,
    Satellite,
    Repeater,
}

impl Default for QNetNodeType {
    fn default() -> (r: QNetNodeType)
        ensures
            r == QNetNodeType::Ground,
    {
        QNetNodeType::Ground
    }
}

/// The kind of a link.
#[derive(Clone, Copy, Debug, PartialEq, Eq, Structural)]
pub enum QNetLinkType {
    Fiber,
    Satellite,
}

impl Default for QNetLinkType {
    fn default() -> (r: QNetLinkType)
        ensures
            r == QNetLinkType::Fiber,
    {
        QNetLinkType::Fiber
    }
}

/// Atmospheric conditions of a satellite link.
#[derive(Clone, Copy, Debug)]
pub struct QNetSatelliteExtension {
    pub visibility: Binary64,
    pub weather_factor: Binary64,
}

impl Default for QNetSatelliteExtension {
    /// Clear sky: both factors are one.
    fn default() -> (r: QNetSatelliteExtension)
        ensures
            r.visibility == Binary64::spec_one(),
            r.weather_factor == Binary64::spec_one(),
    {
        QNetSatelliteExtension { visibility: Binary64::one(), weather_factor: Binary64::one() }
    }
}

/// A node record.
#[derive(Clone, Debug)]
pub struct QNetNode {
    pub id: String,
    pub memory_lifetime_ms: Option<Binary64>,
    pub memory_capacity: Option<u32>,
    pub node_type: Option<QNetNodeType>,
}

/// A link record.
#[derive(Clone, Debug)]
pub struct QNetLink {
    pub id: Option<String>,
    pub from: String,
    pub to: String,
    pub distance_km: Binary64,
    pub base_fidelity: Binary64,
    pub generation_rate_hz: Binary64,
    pub link_type: Option<QNetLinkType>,
    pub satellite: Option<QNetSatelliteExtension>,
}

/// Simulation parameters carried by a file.
#[derive(Clone, Copy, Debug)]
pub struct QNetConfig {
    pub alpha_loss: Option<Binary64>,
    pub beta_fidelity_decay: Option<Binary64>,
    pub gamma_swapping: Option<Binary64>,
    pub max_attempts: Option<u32>,
}

impl Default for QNetConfig {
    /// The default simulation parameters: alpha loss 0.04, fidelity decay
    /// 0.02, swapping factor 0.85 and at most 100 attempts.
    fn default() -> (r: QNetConfig)
        ensures
            r.alpha_loss == Some(Binary64 { bits: 0x3FA4_7AE1_47AE_147B }),
            r.beta_fidelity_decay == Some(Binary64 { bits: 0x3F94_7AE1_47AE_147B }),
            r.gamma_swapping == Some(Binary64 { bits: 0x3FEB_3333_3333_3333 }),
            r.max_attempts == Some(100u32),
    {
        QNetConfig {
            alpha_loss: Some(Binary64 { bits: 0x3FA4_7AE1_47AE_147B }),
            beta_fidelity_decay: Some(Binary64 { bits: 0x3F94_7AE1_47AE_147B }),
            gamma_swapping: Some(Binary64 { bits: 0x3FEB_3333_3333_3333 }),
            max_attempts: Some(100),
        }
    }
}

/// Request constraints carried by a file.
#[derive(Clone, Copy, Debug)]
pub struct QNetConstraints {
    pub fidelity_target: Option<Binary64>,
    pub max_latency_ms: Option<Binary64>,
}

/// Descriptive metadata of a file.
#[derive(Clone, Debug)]
pub struct QNetMetadata {
    pub name: String,
    pub description: Option<String>,
    pub author: Option<String>,
    pub created_at: Option<String>,
}

/// Free-form extensions of a file.
#[derive(Debug)]
pub struct QNetExtensions {
    pub custom: Option<JsonValue>,
}

/// A whole `.qnet` file.
#[derive(Debug)]
pub struct QNetFile {
    pub version: String,
    pub metadata: QNetMetadata,
    pub nodes: Vec<QNetNode>,
    pub links: Vec<QNetLink>,
    pub config: Option<QNetConfig>,
    pub constraints: Option<QNetConstraints>,
    pub extensions: Option<QNetExtensions>,
}

/// The text of an optional string.
pub open spec fn opt_text(s: Option<String>) -> Option<Seq<char>> {
    match s {
        Some(x) => Some(x@),
        None => None,
    }
}

/// `==` on optional strings.
pub fn optional_text_equals(a: &Option<String>, b: &Option<String>) -> (r: bool)
    ensures
        r == (opt_text(*a) == opt_text(*b)),
{
    match (a, b) {
        (None, None) => true,
        (Some(x), Some(y)) => *x == *y,
        _ => false,
    }
}

/// `==` on satellite extensions.
pub open spec fn satellite_eq(a: QNetSatelliteExtension, b: QNetSatelliteExtension) -> bool {
    a.visibility.same_value(b.visibility) && a.weather_factor.same_value(b.weather_factor)
}

/// `==` on optional satellite extensions.
pub open spec fn opt_satellite_eq(a: Option<QNetSatelliteExtension>, b: Option<QNetSatelliteExtension>) -> bool {
    match (a, b) {
        (None, None) => true,
        (Some(x), Some(y)) => satellite_eq(x, y),
        _ => false,
    }
}

/// `==` on node records: every field equal.
pub open spec fn node_eq(a: QNetNode, b: QNetNode) -> bool {
    &&& a.id@ == b.id@
    &&& same_optional(a.memory_lifetime_ms, b.memory_lifetime_ms)
    &&& a.memory_capacity == b.memory_capacity
    &&& a.node_type == b.node_type
}

/// `==` on link records: every field equal.
pub open spec fn link_eq(a: QNetLink, b: QNetLink) -> bool {
    &&& opt_text(a.id) == opt_text(b.id)
    &&& a.from@ == b.from@
    &&& a.to@ == b.to@
    &&& a.distance_km.same_value(b.distance_km)
    &&& a.base_fidelity.same_value(b.base_fidelity)
    &&& a.generation_rate_hz.same_value(b.generation_rate_hz)
    &&& a.link_type == b.link_type
    &&& opt_satellite_eq(a.satellite, b.satellite)
}

/// `==` on configurations: every field equal.
pub open spec fn config_eq(a: QNetConfig, b: QNetConfig) -> bool {
    &&& same_optional(a.alpha_loss, b.alpha_loss)
    &&& same_optional(a.beta_fidelity_decay, b.beta_fidelity_decay)
    &&& same_optional(a.gamma_swapping, b.gamma_swapping)
    &&& a.max_attempts == b.max_attempts
}

/// `==` on optional configurations.
pub open spec fn opt_config_eq(a: Option<QNetConfig>, b: Option<QNetConfig>) -> bool {
    match (a, b) {
        (None, None) => true,
        (Some(x), Some(y)) => config_eq(x, y),
        _ => false,
    }
}

/// `==` on constraints: every field equal.
pub open spec fn constraints_eq(a: QNetConstraints, b: QNetConstraints) -> bool {
    same_optional(a.fidelity_target, b.fidelity_target) && same_optional(
        a.max_latency_ms,
        b.max_latency_ms,
    )
}

/// `==` on optional constraints.
pub open spec fn opt_constraints_eq(a: Option<QNetConstraints>, b: Option<QNetConstraints>) -> bool {
    match (a, b) {
        (None, None) => true,
        (Some(x), Some(y)) => constraints_eq(x, y),
        _ => false,
    }
}

/// `==` on optional extensions.
pub open spec fn opt_extensions_eq(a: Option<QNetExtensions>, b: Option<QNetExtensions>) -> bool {
    match (a, b) {
        (None, None) => true,
        (Some(x), Some(y)) => match (x.custom, y.custom) {
            (None, None) => true,
            (Some(u), Some(v)) => json_eq(u, v),
            _ => false,
        },
        _ => false,
    }
}

/// `==` on optional satellite extensions.
pub fn optional_satellite_equals(a: &Option<QNetSatelliteExtension>, b: &Option<QNetSatelliteExtension>) -> (r: bool)
    ensures
        r == opt_satellite_eq(*a, *b),
{
    match (a, b) {
        (None, None) => true,
        (Some(x), Some(y)) => x.visibility.equals(&y.visibility) && x.weather_factor.equals(
            &y.weather_factor,
        ),
        _ => false,
    }
}

/// `==` on node records.
pub fn node_equals(a: &QNetNode, b: &QNetNode) -> (r: bool)
    ensures
        r == node_eq(*a, *b),
{
    a.id == b.id && optional_equals(&a.memory_lifetime_ms, &b.memory_lifetime_ms)
        && a.memory_capacity == b.memory_capacity && a.node_type == b.node_type
}

/// `==` on link records.
pub fn link_equals(a: &QNetLink, b: &QNetLink) -> (r: bool)
    ensures
        r == link_eq(*a, *b),
        r ==> opt_text(a.id) == opt_text(b.id) && a.from@ == b.from@ && a.to@ == b.to@,
        r ==> a.distance_km.same_value(b.distance_km) && a.base_fidelity.same_value(b.base_fidelity)
            && a.generation_rate_hz.same_value(b.generation_rate_hz),
        r ==> a.link_type == b.link_type,
{
    optional_text_equals(&a.id, &b.id) && a.from == b.from && a.to == b.to
        && a.distance_km.equals(&b.distance_km) && a.base_fidelity.equals(&b.base_fidelity)
        && a.generation_rate_hz.equals(&b.generation_rate_hz) && a.link_type == b.link_type
        && optional_satellite_equals(&a.satellite, &b.satellite)
}

/// `==` on optional configurations.
pub fn optional_config_equals(a: &Option<QNetConfig>, b: &Option<QNetConfig>) -> (r: bool)
    ensures
        r == opt_config_eq(*a, *b),
        r ==> (a is Some <==> b is Some),
        r && a is Some ==> a->0.max_attempts == b->0.max_attempts && same_optional(
            a->0.alpha_loss,
            b->0.alpha_loss,
        ) && same_optional(a->0.beta_fidelity_decay, b->0.beta_fidelity_decay) && same_optional(
            a->0.gamma_swapping,
            b->0.gamma_swapping,
        ),
{
    match (a, b) {
        (None, None) => true,
        (Some(x), Some(y)) => optional_equals(&x.alpha_loss, &y.alpha_loss) && optional_equals(
            &x.beta_fidelity_decay,
            &y.beta_fidelity_decay,
        ) && optional_equals(&x.gamma_swapping, &y.gamma_swapping) && x.max_attempts
            == y.max_attempts,
        _ => false,
    }
}

/// `==` on optional constraints.
pub fn optional_constraints_equals(a: &Option<QNetConstraints>, b: &Option<QNetConstraints>) -> (r: bool)
    ensures
        r == opt_constraints_eq(*a, *b),
{
    match (a, b) {
        (None, None) => true,
        (Some(x), Some(y)) => optional_equals(&x.fidelity_target, &y.fidelity_target)
            && optional_equals(&x.max_latency_ms, &y.max_latency_ms),
        _ => false,
    }
}

/// `==` on optional extensions.
pub fn optional_extensions_equals(a: &Option<QNetExtensions>, b: &Option<QNetExtensions>) -> (r: bool)
    ensures
        r == opt_extensions_eq(*a, *b),
{
    match (a, b) {
        (None, None) => true,
        (Some(x), Some(y)) => match (&x.custom, &y.custom) {
            (None, None) => true,
            (Some(u), Some(v)) => json_equals(u, v),
            _ => false,
        },
        _ => false,
    }
}

/// The key under which a link is compared across files: `from->to`.
pub open spec fn link_key_of(from: Seq<char>, to: Seq<char>) -> Seq<char> {
    from + "->"@ + to
}

/// The key under which a link is compared across files.
pub fn link_key(link: &QNetLink) -> (r: String)
    ensures
        r@ == link_key_of(link.from@, link.to@),
{
    let mut key = link.from.clone();
    key.append("->");
    key.append(link.to.as_str());
    key
}

impl QNetFile {
    /// An empty file of the current version, named `name`.
    pub fn new(name: &str) -> (r: QNetFile)
        ensures
            r.version@ == "1.0"@,
            r.metadata.name@ == name@,
            r.metadata.description is None,
            r.metadata.author is None,
            r.metadata.created_at is None,
            r.nodes@.len() == 0,
            r.links@.len() == 0,
            r.config is None,
            r.constraints is None,
            r.extensions is None,
    {
        QNetFile {
            version: String::from_str("1.0"),
            metadata: QNetMetadata {
                name: String::from_str(name),
                description: None,
                author: None,
                created_at: None,
            },
            nodes: Vec::new(),
            links: Vec::new(),
            config: None,
            constraints: None,
            extensions: None,
        }
    }

    /// Appends a node `id` with no optional attributes.
    pub fn add_node(&mut self, id: &str)
        ensures
            final(self).nodes@.len() == old(self).nodes@.len() + 1,
            final(self).nodes@.drop_last() == old(self).nodes@,
            final(self).nodes@.last().id@ == id@,
            final(self).nodes@.last().memory_lifetime_ms is None,
            final(self).nodes@.last().memory_capacity is None,
            final(self).nodes@.last().node_type is None,
            final(self).links@ == old(self).links@,
            final(self).version == old(self).version,
            final(self).metadata == old(self).metadata,
            final(self).config == old(self).config,
            final(self).constraints == old(self).constraints,
            final(self).extensions == old(self).extensions,
    {
        self.nodes.push(
            QNetNode {
                id: String::from_str(id),
                memory_lifetime_ms: None,
                memory_capacity: None,
                node_type: None,
            },
        );
        assert(self.nodes@.drop_last() =~= old(self).nodes@);
    }

    /// Appends a link with no identifier, type or satellite conditions.
    pub fn add_link(
        &mut self,
        from: &str,
        to: &str,
        distance_km: Binary64,
        base_fidelity: Binary64,
        generation_rate_hz: Binary64,
    )
        ensures
            final(self).links@.len() == old(self).links@.len() + 1,
            final(self).links@.drop_last() == old(self).links@,
            final(self).links@.last().id is None,
            final(self).links@.last().from@ == from@,
            final(self).links@.last().to@ == to@,
            final(self).links@.last().distance_km == distance_km,
            final(self).links@.last().base_fidelity == base_fidelity,
            final(self).links@.last().generation_rate_hz == generation_rate_hz,
            final(self).links@.last().link_type is None,
            final(self).links@.last().satellite is None,
            final(self).nodes@ == old(self).nodes@,
            final(self).version == old(self).version,
            final(self).metadata == old(self).metadata,
            final(self).config == old(self).config,
            final(self).constraints == old(self).constraints,
            final(self).extensions == old(self).extensions,
    {
        self.links.push(
            QNetLink {
                id: None,
                from: String::from_str(from),
                to: String::from_str(to),
                distance_km,
                base_fidelity,
                generation_rate_hz,
                link_type: None,
                satellite: None,
            },
        );
        assert(self.links@.drop_last() =~= old(self).links@);
    }
}

} // verus!
