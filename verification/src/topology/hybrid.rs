//! The hybrid satellite and fiber network.
use vstd::prelude::*;

use crate::request::{LinkDefinition, NetworkTopologyPayload, NodeDefinition};
use crate::topology::{fiber, hybrid_links, hybrid_nodes, link_entries, node, node_entries, satellite};

verus! {

/// A hybrid network: three ground stations joined by fiber, and a satellite
/// linked to two of them.
pub fn build() -> (r: NetworkTopologyPayload)
    ensures
        node_entries(r) == hybrid_nodes(),
        link_entries(r) == hybrid_links(),
{
    let mut nodes: Vec<NodeDefinition> = Vec::new();
    nodes.push(node("Toronto", 0x4062C00000000000));
    nodes.push(node("Montreal", 0x4066800000000000));
    nodes.push(node("London", 0x406B800000000000));
    nodes.push(node("SAT-1", 0x4072C00000000000));
    let mut links: Vec<LinkDefinition> = Vec::new();
    links.push(fiber("Toronto", "Montreal", 0x407F400000000000, 0x3FECCCCCCCCCCCCD, 0x408F400000000000));
    links.push(fiber("Montreal", "London", 0x40B57C0000000000, 0x3FE8000000000000, 0x4069000000000000));
    links.push(satellite("Toronto", "SAT-1", 0x408F400000000000, 0x3FEF5C28F5C28F5C, 0x4049000000000000, 0x3FEE666666666666, 0x3FEF5C28F5C28F5C));
    links.push(satellite("SAT-1", "London", 0x40B7700000000000, 0x3FEF0A3D70A3D70A, 0x4049000000000000, 0x3FEB333333333333, 0x3FECCCCCCCCCCCCD));
    let r = NetworkTopologyPayload { nodes, links };
    assert(node_entries(r) =~= hybrid_nodes());
    assert(link_entries(r) =~= hybrid_links());
    r
}

} // verus!
