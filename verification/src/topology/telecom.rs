//! The telecom fiber backbone.
use vstd::prelude::*;

use crate::request::{LinkDefinition, NetworkTopologyPayload, NodeDefinition};
use crate::topology::{fiber, link_entries, node, node_entries, telecom_links, telecom_nodes};

verus! {

/// A telecom fiber backbone of six nodes, `A` to `F`, and seven fiber links.
/// The constants are binary64 encodings; their decimal values are in the
/// comments.
pub fn build() -> (r: NetworkTopologyPayload)
    ensures
        node_entries(r) == telecom_nodes(),
        link_entries(r) == telecom_links(),
{
    let mut nodes: Vec<NodeDefinition> = Vec::new();
    nodes.push(node("A", 0x405E000000000000));
    nodes.push(node("B", 0x4062C00000000000));
    nodes.push(node("C", 0x4069000000000000));
    nodes.push(node("D", 0x4069000000000000));
    nodes.push(node("E", 0x406F400000000000));
    nodes.push(node("F", 0x4066800000000000));
    let mut links: Vec<LinkDefinition> = Vec::new();
    links.push(fiber("A", "B", 0x4014000000000000, 0x3FEF0A3D70A3D70A, 0x409F400000000000));
    links.push(fiber("B", "C", 0x4054000000000000, 0x3FEDC28F5C28F5C3, 0x4092C00000000000));
    links.push(fiber("C", "D", 0x4082C00000000000, 0x3FEC28F5C28F5C29, 0x4082C00000000000));
    links.push(fiber("D", "E", 0x40B57C0000000000, 0x3FE8000000000000, 0x4062C00000000000));
    links.push(fiber("C", "F", 0x408C200000000000, 0x3FED1EB851EB851F, 0x407F400000000000));
    links.push(fiber("F", "E", 0x40B2C00000000000, 0x3FE999999999999A, 0x4069000000000000));
    links.push(fiber("B", "F", 0x4092C00000000000, 0x3FEB333333333333, 0x4079000000000000));
    let r = NetworkTopologyPayload { nodes, links };
    assert(node_entries(r) =~= telecom_nodes());
    assert(link_entries(r) =~= telecom_links());
    r
}

} // verus!
