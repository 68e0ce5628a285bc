//! Generation of a pre-built topology by kind.
use vstd::prelude::*;

use crate::request::NetworkTopologyPayload;
use crate::topology::{
    hybrid, hybrid_links, hybrid_nodes, is_repeater_chain, link_entries, node_entries, repeater_chain, telecom,
    telecom_links, telecom_nodes,
};

verus! {

/// The kinds of pre-built topology.
#[derive(Clone, Copy, Debug)]
pub enum TopologyType {
    TelecomBackbone,
    RepeaterChain { length: usize },
    HybridSatelliteFiber,
}

/// Whether `t` can be generated: a repeater chain needs at least one repeater.
pub open spec fn generable(t: TopologyType) -> bool {
    match t {
        TopologyType::RepeaterChain { length } => length >= 1,
        _ => true,
    }
}

/// Generates a pre-built topology.
pub fn generate_topology(t: TopologyType) -> (r: NetworkTopologyPayload)
    requires
        generable(t),
    ensures
        t is TelecomBackbone ==> node_entries(r) == telecom_nodes() && link_entries(r)
            == telecom_links(),
        t is HybridSatelliteFiber ==> node_entries(r) == hybrid_nodes() && link_entries(r)
            == hybrid_links(),
        t matches TopologyType::RepeaterChain { length } ==> is_repeater_chain(r, length as nat),
{
    match t {
        TopologyType::TelecomBackbone => telecom::build(),
        TopologyType::RepeaterChain { length } => repeater_chain::build(length),
        TopologyType::HybridSatelliteFiber => hybrid::build(),
    }
}

/// Whether `name` reads `text`.
fn names(name: &String, text: &str) -> (r: bool)
    ensures
        r == (name@ == text@),
{
    *name == String::from_str(text)
}

/// The pre-built topology a name designates: `fiber_only` and
/// `telecom_backbone` the telecom backbone, `repeater_chain` a chain of four
/// repeaters, `hybrid_satellite_fiber` and `hybrid` the hybrid network; any
/// other name designates none.
pub fn topology_by_name(name: &str) -> (r: Option<TopologyType>)
    ensures
        (name@ == "fiber_only"@ || name@ == "telecom_backbone"@) ==> r == Some(
            TopologyType::TelecomBackbone,
        ),
        name@ == "repeater_chain"@ ==> r == Some(TopologyType::RepeaterChain { length: 4 }),
        (name@ == "hybrid_satellite_fiber"@ || name@ == "hybrid"@) ==> r == Some(
            TopologyType::HybridSatelliteFiber,
        ),
        name@ != "fiber_only"@ && name@ != "telecom_backbone"@ && name@ != "repeater_chain"@ && name@
            != "hybrid_satellite_fiber"@ && name@ != "hybrid"@ ==> r is None,
{
    proof {
        reveal_strlit("fiber_only");
        reveal_strlit("telecom_backbone");
        reveal_strlit("repeater_chain");
        reveal_strlit("hybrid_satellite_fiber");
        reveal_strlit("hybrid");
        assert("fiber_only"@.len() == 10 && "telecom_backbone"@.len() == 16);
        assert("repeater_chain"@.len() == 14 && "hybrid_satellite_fiber"@.len() == 22);
        assert("hybrid"@.len() == 6);
    }
    let given = String::from_str(name);
    if names(&given, "fiber_only") || names(&given, "telecom_backbone") {
        Some(TopologyType::TelecomBackbone)
    } else if names(&given, "repeater_chain") {
        Some(TopologyType::RepeaterChain { length: 4 })
    } else if names(&given, "hybrid_satellite_fiber") || names(&given, "hybrid") {
        Some(TopologyType::HybridSatelliteFiber)
    } else {
        None
    }
}

} // verus!
