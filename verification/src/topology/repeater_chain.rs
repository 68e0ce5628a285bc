//! The linear repeater chain.
use vstd::prelude::*;

use crate::binary64::Binary64;
use crate::request::{LinkDefinition, LinkType, NetworkTopologyPayload, NodeDefinition};
use crate::text::decimal;
use crate::topology::{is_repeater_chain, link_entry, node_entry, repeater_name};

verus! {

/// A chain of `length` repeaters `N0 .. N{length-1}`, each with a T2 lifetime
/// of 150, joined in order by 100 km fiber links of fidelity 0.92 and rate
/// 800 Hz.
pub fn build(length: usize) -> (r: NetworkTopologyPayload)
    requires
        length >= 1,
    ensures
        is_repeater_chain(r, length as nat),
{
    let mut nodes: Vec<NodeDefinition> = Vec::new();
    let mut i: usize = 0;
    while i < length
        invariant
            i <= length,
            nodes@.len() == i,
            forall|j: int|
                0 <= j < i ==> #[trigger] node_entry(nodes@[j]) == (
                    repeater_name(j as nat),
                    0x4062C00000000000u64,
                ),
        decreases length - i,
    {
        let mut id = String::from_str("N");
        id.append(decimal(i).as_str());
        nodes.push(NodeDefinition { id, memory_lifetime_t2: Binary64 { bits: 0x4062C00000000000 } });
        i = i + 1;
    }
    let mut links: Vec<LinkDefinition> = Vec::new();
    let mut k: usize = 0;
    while k < length - 1
        invariant
            k <= length - 1,
            links@.len() == k,
            forall|j: int|
                0 <= j < k ==> #[trigger] link_entry(links@[j]) == (
                    repeater_name(j as nat),
                    repeater_name((j + 1) as nat),
                    0x4059000000000000u64,
                    0x3FED70A3D70A3D71u64,
                    0x4089000000000000u64,
                    LinkType::Fiber,
                    None::<(u64, u64)>,
                ),
        decreases length - 1 - k,
    {
        let mut from = String::from_str("N");
        from.append(decimal(k).as_str());
        let mut to = String::from_str("N");
        to.append(decimal(k + 1).as_str());
        links.push(
            LinkDefinition {
                from_node: from,
                to,
                distance_km: Binary64 { bits: 0x4059000000000000 },
                base_fidelity: Binary64 { bits: 0x3FED70A3D70A3D71 },
                generation_rate_hz: Binary64 { bits: 0x4089000000000000 },
                link_type: LinkType::Fiber,
                satellite_conditions: None,
            },
        );
        k = k + 1;
    }
    NetworkTopologyPayload { nodes, links }
}

} // verus!
