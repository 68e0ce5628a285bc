//! Pre-built topologies: a telecom fiber backbone, a linear repeater chain,
//! and a hybrid satellite and fiber network, and the records of their
//! contents.
use vstd::prelude::*;

use crate::binary64::Binary64;
use crate::request::{LinkDefinition, LinkType, NetworkTopologyPayload, NodeDefinition, SatelliteConditions};
use crate::text::decimal_digits;

pub mod generator;
pub mod hybrid;
pub mod repeater_chain;
pub mod telecom;

verus! {

/// A node's identifier and the encoding of its T2 lifetime.
pub open spec fn node_entry(n: NodeDefinition) -> (Seq<char>, u64) {
    (n.id@, n.memory_lifetime_t2.bits)
}

/// A link's ends, the encodings of its distance, fidelity and rate, its type,
/// and the encodings of its satellite conditions.
pub open spec fn link_entry(l: LinkDefinition) -> (Seq<char>, Seq<char>, u64, u64, u64, LinkType, Option<(u64, u64)>) {
    (
        l.from_node@,
        l.to@,
        l.distance_km.bits,
        l.base_fidelity.bits,
        l.generation_rate_hz.bits,
        l.link_type,
        match l.satellite_conditions {
            Some(c) => Some((c.visibility.bits, c.weather_factor.bits)),
            None => None,
        },
    )
}

/// The entries of a topology's nodes, in order.
pub open spec fn node_entries(p: NetworkTopologyPayload) -> Seq<(Seq<char>, u64)> {
    p.nodes@.map_values(|n: NodeDefinition| node_entry(n))
}

/// The entries of a topology's links, in order.
pub open spec fn link_entries(p: NetworkTopologyPayload) -> Seq<(Seq<char>, Seq<char>, u64, u64, u64, LinkType, Option<(u64, u64)>)> {
    p.links@.map_values(|l: LinkDefinition| link_entry(l))
}

/// The nodes of the telecom backbone: identifiers and T2 lifetime encodings.
pub open spec fn telecom_nodes() -> Seq<(Seq<char>, u64)> {
    seq![
        ("A"@, 0x405E000000000000u64), // 120.0
        ("B"@, 0x4062C00000000000u64), // 150.0
        ("C"@, 0x4069000000000000u64), // 200.0
        ("D"@, 0x4069000000000000u64), // 200.0
        ("E"@, 0x406F400000000000u64), // 250.0
        ("F"@, 0x4066800000000000u64), // 180.0
    ]
}

/// The links of the telecom backbone.
pub open spec fn telecom_links() -> Seq<(Seq<char>, Seq<char>, u64, u64, u64, LinkType, Option<(u64, u64)>)> {
    seq![
        // 5 km, 0.97, 2000 Hz
        ("A"@, "B"@, 0x4014000000000000u64, 0x3FEF0A3D70A3D70Au64, 0x409F400000000000u64, LinkType::Fiber, None::<(u64, u64)>),
        // 80 km, 0.93, 1200 Hz
        ("B"@, "C"@, 0x4054000000000000u64, 0x3FEDC28F5C28F5C3u64, 0x4092C00000000000u64, LinkType::Fiber, None::<(u64, u64)>),
        // 600 km, 0.88, 600 Hz
        ("C"@, "D"@, 0x4082C00000000000u64, 0x3FEC28F5C28F5C29u64, 0x4082C00000000000u64, LinkType::Fiber, None::<(u64, u64)>),
        // 5500 km, 0.75, 150 Hz
        ("D"@, "E"@, 0x40B57C0000000000u64, 0x3FE8000000000000u64, 0x4062C00000000000u64, LinkType::Fiber, None::<(u64, u64)>),
        // 900 km, 0.91, 500 Hz
        ("C"@, "F"@, 0x408C200000000000u64, 0x3FED1EB851EB851Fu64, 0x407F400000000000u64, LinkType::Fiber, None::<(u64, u64)>),
        // 4800 km, 0.80, 200 Hz
        ("F"@, "E"@, 0x40B2C00000000000u64, 0x3FE999999999999Au64, 0x4069000000000000u64, LinkType::Fiber, None::<(u64, u64)>),
        // 1200 km, 0.85, 400 Hz
        ("B"@, "F"@, 0x4092C00000000000u64, 0x3FEB333333333333u64, 0x4079000000000000u64, LinkType::Fiber, None::<(u64, u64)>),
    ]
}

/// The nodes of the hybrid network.
pub open spec fn hybrid_nodes() -> Seq<(Seq<char>, u64)> {
    seq![
        ("Toronto"@, 0x4062C00000000000u64), // 150.0
        ("Montreal"@, 0x4066800000000000u64), // 180.0
        ("London"@, 0x406B800000000000u64), // 220.0
        ("SAT-1"@, 0x4072C00000000000u64), // 300.0
    ]
}

/// The links of the hybrid network.
pub open spec fn hybrid_links() -> Seq<(Seq<char>, Seq<char>, u64, u64, u64, LinkType, Option<(u64, u64)>)> {
    seq![
        // 500 km, 0.90, 1000 Hz
        ("Toronto"@, "Montreal"@, 0x407F400000000000u64, 0x3FECCCCCCCCCCCCDu64, 0x408F400000000000u64, LinkType::Fiber, None::<(u64, u64)>),
        // 5500 km, 0.75, 200 Hz
        ("Montreal"@, "London"@, 0x40B57C0000000000u64, 0x3FE8000000000000u64, 0x4069000000000000u64, LinkType::Fiber, None::<(u64, u64)>),
        // 1000 km, 0.98, 50 Hz; visibility 0.95, weather 0.98
        ("Toronto"@, "SAT-1"@, 0x408F400000000000u64, 0x3FEF5C28F5C28F5Cu64, 0x4049000000000000u64, LinkType::Satellite, Some((0x3FEE666666666666u64, 0x3FEF5C28F5C28F5Cu64))),
        // 6000 km, 0.97, 50 Hz; visibility 0.85, weather 0.90
        ("SAT-1"@, "London"@, 0x40B7700000000000u64, 0x3FEF0A3D70A3D70Au64, 0x4049000000000000u64, LinkType::Satellite, Some((0x3FEB333333333333u64, 0x3FECCCCCCCCCCCCDu64))),
    ]
}

/// A node definition from its identifier and lifetime encoding.
pub(crate) fn node(id: &str, t2_bits: u64) -> (r: NodeDefinition)
    ensures
        node_entry(r) == (id@, t2_bits),
{
    NodeDefinition { id: String::from_str(id), memory_lifetime_t2: Binary64 { bits: t2_bits } }
}

/// A fiber link definition from its ends and quantity encodings.
pub(crate) fn fiber(from: &str, to: &str, distance: u64, fidelity: u64, rate: u64) -> (r: LinkDefinition)
    ensures
        link_entry(r) == (from@, to@, distance, fidelity, rate, LinkType::Fiber, None::<(u64, u64)>),
{
    LinkDefinition {
        from_node: String::from_str(from),
        to: String::from_str(to),
        distance_km: Binary64 { bits: distance },
        base_fidelity: Binary64 { bits: fidelity },
        generation_rate_hz: Binary64 { bits: rate },
        link_type: LinkType::Fiber,
        satellite_conditions: None,
    }
}

/// A satellite link definition from its ends, quantity encodings and conditions.
pub(crate) fn satellite(
    from: &str,
    to: &str,
    distance: u64,
    fidelity: u64,
    rate: u64,
    visibility: u64,
    weather: u64,
) -> (r: LinkDefinition)
    ensures
        link_entry(r) == (from@, to@, distance, fidelity, rate, LinkType::Satellite, Some((visibility, weather))),
{
    LinkDefinition {
        from_node: String::from_str(from),
        to: String::from_str(to),
        distance_km: Binary64 { bits: distance },
        base_fidelity: Binary64 { bits: fidelity },
        generation_rate_hz: Binary64 { bits: rate },
        link_type: LinkType::Satellite,
        satellite_conditions: Some(
            SatelliteConditions {
                visibility: Binary64 { bits: visibility },
                weather_factor: Binary64 { bits: weather },
            },
        ),
    }
}

/// The name of the `i`-th repeater: `N` followed by `i` in decimal.
pub open spec fn repeater_name(i: nat) -> Seq<char> {
    "N"@ + decimal_digits(i)
}

/// The shape of a repeater chain of `length` repeaters.
pub open spec fn is_repeater_chain(r: NetworkTopologyPayload, length: nat) -> bool {
    &&& r.nodes@.len() == length
    &&& forall|i: int|
        0 <= i < length ==> #[trigger] node_entry(r.nodes@[i]) == (
            repeater_name(i as nat),
            0x4062C00000000000u64,
        )
    &&& r.links@.len() == length - 1
    &&& forall|i: int|
        0 <= i < length - 1 ==> #[trigger] link_entry(r.links@[i]) == (
            repeater_name(i as nat),
            repeater_name((i + 1) as nat),
            0x4059000000000000u64,
            0x3FED70A3D70A3D71u64,
            0x4089000000000000u64,
            LinkType::Fiber,
            None::<(u64, u64)>,
        )
}

} // verus!
