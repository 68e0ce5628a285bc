//! The request and topology types that callers hand the engine, and the
//! snapshot and diff records of a topology.
use vstd::prelude::*;

use crate::binary64::Binary64;
use crate::routing::StrategyType;
use crate::text::{
    begins_with, contains_text, decimal, decimal_digits, lemma_begins_extend, lemma_contains_extend,
    lemma_contains_first, lemma_contains_last,
};

verus! {

/// The physical medium of a link.
#[derive(Clone, Copy, Debug, PartialEq, Eq, Structural)]
pub enum LinkType {
    /// Fiber-optic link: high bandwidth, moderate loss over distance.
    Fiber,
    /// Satellite link: lower loss over long distances, limited bandwidth.
    Satellite,
}

impl Default for LinkType {
    fn default() -> (r: LinkType)
        ensures
            r == LinkType::Fiber,
    {
        LinkType::Fiber
    }
}

/// A node of a topology definition.
#[derive(Clone, Debug)]
pub struct NodeDefinition {
    pub id: String,
    pub memory_lifetime_t2: Binary64,
}

/// Atmospheric conditions of a satellite link.
#[derive(Clone, Copy, Debug)]
pub struct SatelliteConditions {
    /// Visibility factor, from 0 to 1.
    pub visibility: Binary64,
    /// Weather penalty factor, from 0 to 1.
    pub weather_factor: Binary64,
}

impl Default for SatelliteConditions {
    /// Clear sky: both factors are one.
    fn default() -> (r: SatelliteConditions)
        ensures
            r.visibility == Binary64::spec_one(),
            r.weather_factor == Binary64::spec_one(),
    {
        SatelliteConditions { visibility: Binary64::one(), weather_factor: Binary64::one() }
    }
}

/// A link of a topology definition.
#[derive(Clone, Debug)]
pub struct LinkDefinition {
    pub from_node: String,
    pub to: String,
    pub distance_km: Binary64,
    pub base_fidelity: Binary64,
    pub generation_rate_hz: Binary64,
    pub link_type: LinkType,
    pub satellite_conditions: Option<SatelliteConditions>,
}

impl Default for LinkDefinition {
    /// A fiber link between two unnamed nodes with every quantity zero.
    fn default() -> (r: LinkDefinition)
        ensures
            r.from_node@.len() == 0,
            r.to@.len() == 0,
            r.distance_km == Binary64::spec_zero(),
            r.base_fidelity == Binary64::spec_zero(),
            r.generation_rate_hz == Binary64::spec_zero(),
            r.link_type == LinkType::Fiber,
            r.satellite_conditions is None,
    {
        LinkDefinition {
            from_node: String::new(),
            to: String::new(),
            distance_km: Binary64::zero(),
            base_fidelity: Binary64::zero(),
            generation_rate_hz: Binary64::zero(),
            link_type: LinkType::Fiber,
            satellite_conditions: None,
        }
    }
}

/// A topology definition: nodes and links.
#[derive(Clone, Debug)]
pub struct NetworkTopologyPayload {
    pub nodes: Vec<NodeDefinition>,
    pub links: Vec<LinkDefinition>,
}

/// A request for end-to-end entanglement.
#[derive(Clone, Debug)]
pub struct EntanglementRequest {
    pub from_node: String,
    pub to: String,
    pub fidelity_target: Binary64,
    pub max_latency_ms: Binary64,
    pub strategy: Option<StrategyType>,
}

/// Loss and swapping parameters recorded with a topology snapshot.
#[derive(Clone, Copy, Debug)]
pub struct TopologyConfig {
    /// Fiber attenuation, in dB/km.
    pub alpha_loss: Binary64,
    /// Swapping fidelity factor of repeater operations.
    pub gamma_swapping: Binary64,
}

impl Default for TopologyConfig {
    /// 0.2 dB/km of attenuation and a swapping factor of 0.85.
    fn default() -> (r: TopologyConfig)
        ensures
            r.alpha_loss.bits == 0x3FC9_9999_9999_999A,
            r.gamma_swapping.bits == 0x3FEB_3333_3333_3333,
    {
        TopologyConfig {
            alpha_loss: Binary64 { bits: 0x3FC9_9999_9999_999A },
            gamma_swapping: Binary64 { bits: 0x3FEB_3333_3333_3333 },
        }
    }
}

/// The name and version of a topology snapshot.
#[derive(Clone, Debug)]
pub struct TopologyMetadata {
    pub name: String,
    pub version: String,
}

impl Default for TopologyMetadata {
    /// An unnamed topology of version 1.0.
    fn default() -> (r: TopologyMetadata)
        ensures
            r.name@ == "unnamed"@,
            r.version@ == "1.0"@,
    {
        TopologyMetadata { name: String::from_str("unnamed"), version: String::from_str("1.0") }
    }
}

/// A complete topology with its metadata and configuration.
#[derive(Clone, Debug)]
pub struct TopologySnapshot {
    pub metadata: TopologyMetadata,
    pub nodes: Vec<NodeDefinition>,
    pub links: Vec<LinkDefinition>,
    pub config: TopologyConfig,
}

impl TopologySnapshot {
    /// An empty snapshot named `name` at `version`, with the default
    /// configuration.
    pub fn new(name: &str, version: &str) -> (r: TopologySnapshot)
        ensures
            r.metadata.name@ == name@,
            r.metadata.version@ == version@,
            r.nodes@.len() == 0,
            r.links@.len() == 0,
            r.config.alpha_loss.bits == 0x3FC9_9999_9999_999A,
            r.config.gamma_swapping.bits == 0x3FEB_3333_3333_3333,
    {
        TopologySnapshot {
            metadata: TopologyMetadata {
                name: String::from_str(name),
                version: String::from_str(version),
            },
            nodes: Vec::new(),
            links: Vec::new(),
            config: TopologyConfig::default(),
        }
    }

    /// Appends a node.
    pub fn add_node(&mut self, id: &str, memory_lifetime_t2: Binary64)
        ensures
            final(self).nodes@.len() == old(self).nodes@.len() + 1,
            final(self).nodes@.drop_last() == old(self).nodes@,
            final(self).nodes@.last().id@ == id@,
            final(self).nodes@.last().memory_lifetime_t2 == memory_lifetime_t2,
            final(self).links@ == old(self).links@,
            final(self).metadata == old(self).metadata,
            final(self).config == old(self).config,
    {
        self.nodes.push(NodeDefinition { id: String::from_str(id), memory_lifetime_t2 });
        assert(self.nodes@.drop_last() =~= old(self).nodes@);
    }

    /// Appends a fiber link without satellite conditions.
    pub fn add_link(
        &mut self,
        from: &str,
        to: &str,
        distance_km: Binary64,
        base_fidelity: Binary64,
        generation_rate_hz: Binary64,
    )
        ensures
            final(self).links@.len() == old(self).links@.len() + 1,
            final(self).links@.drop_last() == old(self).links@,
            final(self).links@.last().from_node@ == from@,
            final(self).links@.last().to@ == to@,
            final(self).links@.last().distance_km == distance_km,
            final(self).links@.last().base_fidelity == base_fidelity,
            final(self).links@.last().generation_rate_hz == generation_rate_hz,
            final(self).links@.last().link_type == LinkType::Fiber,
            final(self).links@.last().satellite_conditions is None,
            final(self).nodes@ == old(self).nodes@,
            final(self).metadata == old(self).metadata,
            final(self).config == old(self).config,
    {
        self.links.push(
            LinkDefinition {
                from_node: String::from_str(from),
                to: String::from_str(to),
                distance_km,
                base_fidelity,
                generation_rate_hz,
                link_type: LinkType::Fiber,
                satellite_conditions: None,
            },
        );
        assert(self.links@.drop_last() =~= old(self).links@);
    }
}

/// The result of comparing two topology snapshots.
#[derive(Clone, Debug)]
pub struct TopologyDiff {
    pub name: String,
    pub nodes_added: Vec<String>,
    pub nodes_removed: Vec<String>,
    pub nodes_modified: Vec<String>,
    pub links_added: Vec<String>,
    pub links_removed: Vec<String>,
    pub links_modified: Vec<String>,
    pub summary: String,
}

/// The summary line of a topology diff.
pub open spec fn topology_summary(
    name: Seq<char>,
    nodes_added: nat,
    nodes_removed: nat,
    nodes_modified: nat,
    links_added: nat,
    links_removed: nat,
    links_modified: nat,
) -> Seq<char> {
    "Diff for '"@ + name + "': "@ + decimal_digits(nodes_added) + " nodes added, "@
        + decimal_digits(nodes_removed) + " nodes removed, "@ + decimal_digits(nodes_modified)
        + " nodes modified. "@ + decimal_digits(links_added) + " links added, "@ + decimal_digits(
        links_removed,
    ) + " links removed, "@ + decimal_digits(links_modified) + " links modified."@
}

impl TopologyDiff {
    /// An empty diff named `name`.
    pub fn new(name: &str) -> (r: TopologyDiff)
        ensures
            r.name@ == name@,
            r.nodes_added@.len() == 0,
            r.nodes_removed@.len() == 0,
            r.nodes_modified@.len() == 0,
            r.links_added@.len() == 0,
            r.links_removed@.len() == 0,
            r.links_modified@.len() == 0,
            r.summary@.len() == 0,
    {
        TopologyDiff {
            name: String::from_str(name),
            nodes_added: Vec::new(),
            nodes_removed: Vec::new(),
            nodes_modified: Vec::new(),
            links_added: Vec::new(),
            links_removed: Vec::new(),
            links_modified: Vec::new(),
            summary: String::new(),
        }
    }

    /// A one-line summary: the name and the size of each list.
    pub fn generate_summary(&self) -> (r: String)
        ensures
            r@ == topology_summary(
                self.name@,
                self.nodes_added@.len(),
                self.nodes_removed@.len(),
                self.nodes_modified@.len(),
                self.links_added@.len(),
                self.links_removed@.len(),
                self.links_modified@.len(),
            ),
    {
        let mut s = String::from_str("Diff for '");
        s.append(self.name.as_str());
        s.append("': ");
        s.append(decimal(self.nodes_added.len()).as_str());
        s.append(" nodes added, ");
        s.append(decimal(self.nodes_removed.len()).as_str());
        s.append(" nodes removed, ");
        s.append(decimal(self.nodes_modified.len()).as_str());
        s.append(" nodes modified. ");
        s.append(decimal(self.links_added.len()).as_str());
        s.append(" links added, ");
        s.append(decimal(self.links_removed.len()).as_str());
        s.append(" links removed, ");
        s.append(decimal(self.links_modified.len()).as_str());
        s.append(" links modified.");
        s
    }
}

/// Each count in a topology diff summary is the size of its own list: the
/// summary begins with the name and the number of added nodes, and each later
/// count stands between the label of the previous one and its own label.
pub proof fn law_topology_summary_counts(
    name: Seq<char>,
    nodes_added: nat,
    nodes_removed: nat,
    nodes_modified: nat,
    links_added: nat,
    links_removed: nat,
    links_modified: nat,
)
    ensures
        ({
            let text = topology_summary(
                name,
                nodes_added,
                nodes_removed,
                nodes_modified,
                links_added,
                links_removed,
                links_modified,
            );
            &&& begins_with(text, "Diff for '"@ + name + "': "@ + decimal_digits(nodes_added) + " nodes added, "@)
            &&& contains_text(text, " nodes added, "@ + decimal_digits(nodes_removed) + " nodes removed, "@)
            &&& contains_text(text, " nodes removed, "@ + decimal_digits(nodes_modified) + " nodes modified. "@)
            &&& contains_text(text, " nodes modified. "@ + decimal_digits(links_added) + " links added, "@)
            &&& contains_text(text, " links added, "@ + decimal_digits(links_removed) + " links removed, "@)
            &&& contains_text(text, " links removed, "@ + decimal_digits(links_modified) + " links modified."@)
        }),
{
    lemma_contains_triple("Diff for '"@ + name + "': "@ + decimal_digits(nodes_added), " nodes added, "@, decimal_digits(nodes_removed), " nodes removed, "@);
    lemma_contains_extend("Diff for '"@ + name + "': "@ + decimal_digits(nodes_added) + " nodes added, "@ + decimal_digits(nodes_removed) + " nodes removed, "@, " nodes added, "@ + decimal_digits(nodes_removed) + " nodes removed, "@, decimal_digits(nodes_modified));
    lemma_contains_extend("Diff for '"@ + name + "': "@ + decimal_digits(nodes_added) + " nodes added, "@ + decimal_digits(nodes_removed) + " nodes removed, "@ + decimal_digits(nodes_modified), " nodes added, "@ + decimal_digits(nodes_removed) + " nodes removed, "@, " nodes modified. "@);
    lemma_contains_extend("Diff for '"@ + name + "': "@ + decimal_digits(nodes_added) + " nodes added, "@ + decimal_digits(nodes_removed) + " nodes removed, "@ + decimal_digits(nodes_modified) + " nodes modified. "@, " nodes added, "@ + decimal_digits(nodes_removed) + " nodes removed, "@, decimal_digits(links_added));
    lemma_contains_extend("Diff for '"@ + name + "': "@ + decimal_digits(nodes_added) + " nodes added, "@ + decimal_digits(nodes_removed) + " nodes removed, "@ + decimal_digits(nodes_modified) + " nodes modified. "@ + decimal_digits(links_added), " nodes added, "@ + decimal_digits(nodes_removed) + " nodes removed, "@, " links added, "@);
    lemma_contains_extend("Diff for '"@ + name + "': "@ + decimal_digits(nodes_added) + " nodes added, "@ + decimal_digits(nodes_removed) + " nodes removed, "@ + decimal_digits(nodes_modified) + " nodes modified. "@ + decimal_digits(links_added) + " links added, "@, " nodes added, "@ + decimal_digits(nodes_removed) + " nodes removed, "@, decimal_digits(links_removed));
    lemma_contains_extend("Diff for '"@ + name + "': "@ + decimal_digits(nodes_added) + " nodes added, "@ + decimal_digits(nodes_removed) + " nodes removed, "@ + decimal_digits(nodes_modified) + " nodes modified. "@ + decimal_digits(links_added) + " links added, "@ + decimal_digits(links_removed), " nodes added, "@ + decimal_digits(nodes_removed) + " nodes removed, "@, " links removed, "@);
    lemma_contains_extend("Diff for '"@ + name + "': "@ + decimal_digits(nodes_added) + " nodes added, "@ + decimal_digits(nodes_removed) + " nodes removed, "@ + decimal_digits(nodes_modified) + " nodes modified. "@ + decimal_digits(links_added) + " links added, "@ + decimal_digits(links_removed) + " links removed, "@, " nodes added, "@ + decimal_digits(nodes_removed) + " nodes removed, "@, decimal_digits(links_modified));
    lemma_contains_extend("Diff for '"@ + name + "': "@ + decimal_digits(nodes_added) + " nodes added, "@ + decimal_digits(nodes_removed) + " nodes removed, "@ + decimal_digits(nodes_modified) + " nodes modified. "@ + decimal_digits(links_added) + " links added, "@ + decimal_digits(links_removed) + " links removed, "@ + decimal_digits(links_modified), " nodes added, "@ + decimal_digits(nodes_removed) + " nodes removed, "@, " links modified."@);
    lemma_contains_triple("Diff for '"@ + name + "': "@ + decimal_digits(nodes_added) + " nodes added, "@ + decimal_digits(nodes_removed), " nodes removed, "@, decimal_digits(nodes_modified), " nodes modified. "@);
    lemma_contains_extend("Diff for '"@ + name + "': "@ + decimal_digits(nodes_added) + " nodes added, "@ + decimal_digits(nodes_removed) + " nodes removed, "@ + decimal_digits(nodes_modified) + " nodes modified. "@, " nodes removed, "@ + decimal_digits(nodes_modified) + " nodes modified. "@, decimal_digits(links_added));
    lemma_contains_extend("Diff for '"@ + name + "': "@ + decimal_digits(nodes_added) + " nodes added, "@ + decimal_digits(nodes_removed) + " nodes removed, "@ + decimal_digits(nodes_modified) + " nodes modified. "@ + decimal_digits(links_added), " nodes removed, "@ + decimal_digits(nodes_modified) + " nodes modified. "@, " links added, "@);
    lemma_contains_extend("Diff for '"@ + name + "': "@ + decimal_digits(nodes_added) + " nodes added, "@ + decimal_digits(nodes_removed) + " nodes removed, "@ + decimal_digits(nodes_modified) + " nodes modified. "@ + decimal_digits(links_added) + " links added, "@, " nodes removed, "@ + decimal_digits(nodes_modified) + " nodes modified. "@, decimal_digits(links_removed));
    lemma_contains_extend("Diff for '"@ + name + "': "@ + decimal_digits(nodes_added) + " nodes added, "@ + decimal_digits(nodes_removed) + " nodes removed, "@ + decimal_digits(nodes_modified) + " nodes modified. "@ + decimal_digits(links_added) + " links added, "@ + decimal_digits(links_removed), " nodes removed, "@ + decimal_digits(nodes_modified) + " nodes modified. "@, " links removed, "@);
    lemma_contains_extend("Diff for '"@ + name + "': "@ + decimal_digits(nodes_added) + " nodes added, "@ + decimal_digits(nodes_removed) + " nodes removed, "@ + decimal_digits(nodes_modified) + " nodes modified. "@ + decimal_digits(links_added) + " links added, "@ + decimal_digits(links_removed) + " links removed, "@, " nodes removed, "@ + decimal_digits(nodes_modified) + " nodes modified. "@, decimal_digits(links_modified));
    lemma_contains_extend("Diff for '"@ + name + "': "@ + decimal_digits(nodes_added) + " nodes added, "@ + decimal_digits(nodes_removed) + " nodes removed, "@ + decimal_digits(nodes_modified) + " nodes modified. "@ + decimal_digits(links_added) + " links added, "@ + decimal_digits(links_removed) + " links removed, "@ + decimal_digits(links_modified), " nodes removed, "@ + decimal_digits(nodes_modified) + " nodes modified. "@, " links modified."@);
    lemma_contains_triple("Diff for '"@ + name + "': "@ + decimal_digits(nodes_added) + " nodes added, "@ + decimal_digits(nodes_removed) + " nodes removed, "@ + decimal_digits(nodes_modified), " nodes modified. "@, decimal_digits(links_added), " links added, "@);
    lemma_contains_extend("Diff for '"@ + name + "': "@ + decimal_digits(nodes_added) + " nodes added, "@ + decimal_digits(nodes_removed) + " nodes removed, "@ + decimal_digits(nodes_modified) + " nodes modified. "@ + decimal_digits(links_added) + " links added, "@, " nodes modified. "@ + decimal_digits(links_added) + " links added, "@, decimal_digits(links_removed));
    lemma_contains_extend("Diff for '"@ + name + "': "@ + decimal_digits(nodes_added) + " nodes added, "@ + decimal_digits(nodes_removed) + " nodes removed, "@ + decimal_digits(nodes_modified) + " nodes modified. "@ + decimal_digits(links_added) + " links added, "@ + decimal_digits(links_removed), " nodes modified. "@ + decimal_digits(links_added) + " links added, "@, " links removed, "@);
    lemma_contains_extend("Diff for '"@ + name + "': "@ + decimal_digits(nodes_added) + " nodes added, "@ + decimal_digits(nodes_removed) + " nodes removed, "@ + decimal_digits(nodes_modified) + " nodes modified. "@ + decimal_digits(links_added) + " links added, "@ + decimal_digits(links_removed) + " links removed, "@, " nodes modified. "@ + decimal_digits(links_added) + " links added, "@, decimal_digits(links_modified));
    lemma_contains_extend("Diff for '"@ + name + "': "@ + decimal_digits(nodes_added) + " nodes added, "@ + decimal_digits(nodes_removed) + " nodes removed, "@ + decimal_digits(nodes_modified) + " nodes modified. "@ + decimal_digits(links_added) + " links added, "@ + decimal_digits(links_removed) + " links removed, "@ + decimal_digits(links_modified), " nodes modified. "@ + decimal_digits(links_added) + " links added, "@, " links modified."@);
    lemma_contains_triple("Diff for '"@ + name + "': "@ + decimal_digits(nodes_added) + " nodes added, "@ + decimal_digits(nodes_removed) + " nodes removed, "@ + decimal_digits(nodes_modified) + " nodes modified. "@ + decimal_digits(links_added), " links added, "@, decimal_digits(links_removed), " links removed, "@);
    lemma_contains_extend("Diff for '"@ + name + "': "@ + decimal_digits(nodes_added) + " nodes added, "@ + decimal_digits(nodes_removed) + " nodes removed, "@ + decimal_digits(nodes_modified) + " nodes modified. "@ + decimal_digits(links_added) + " links added, "@ + decimal_digits(links_removed) + " links removed, "@, " links added, "@ + decimal_digits(links_removed) + " links removed, "@, decimal_digits(links_modified));
    lemma_contains_extend("Diff for '"@ + name + "': "@ + decimal_digits(nodes_added) + " nodes added, "@ + decimal_digits(nodes_removed) + " nodes removed, "@ + decimal_digits(nodes_modified) + " nodes modified. "@ + decimal_digits(links_added) + " links added, "@ + decimal_digits(links_removed) + " links removed, "@ + decimal_digits(links_modified), " links added, "@ + decimal_digits(links_removed) + " links removed, "@, " links modified."@);
    lemma_contains_triple("Diff for '"@ + name + "': "@ + decimal_digits(nodes_added) + " nodes added, "@ + decimal_digits(nodes_removed) + " nodes removed, "@ + decimal_digits(nodes_modified) + " nodes modified. "@ + decimal_digits(links_added) + " links added, "@ + decimal_digits(links_removed), " links removed, "@, decimal_digits(links_modified), " links modified."@);
    lemma_contains_first("Diff for '"@ + name + "': "@ + decimal_digits(nodes_added) + " nodes added, "@, Seq::<char>::empty());
    assert("Diff for '"@ + name + "': "@ + decimal_digits(nodes_added) + " nodes added, "@ + Seq::<char>::empty() =~= "Diff for '"@ + name + "': "@ + decimal_digits(nodes_added) + " nodes added, "@);
    lemma_begins_extend("Diff for '"@ + name + "': "@ + decimal_digits(nodes_added) + " nodes added, "@, "Diff for '"@ + name + "': "@ + decimal_digits(nodes_added) + " nodes added, "@, decimal_digits(nodes_removed));
    lemma_begins_extend("Diff for '"@ + name + "': "@ + decimal_digits(nodes_added) + " nodes added, "@ + decimal_digits(nodes_removed), "Diff for '"@ + name + "': "@ + decimal_digits(nodes_added) + " nodes added, "@, " nodes removed, "@);
    lemma_begins_extend("Diff for '"@ + name + "': "@ + decimal_digits(nodes_added) + " nodes added, "@ + decimal_digits(nodes_removed) + " nodes removed, "@, "Diff for '"@ + name + "': "@ + decimal_digits(nodes_added) + " nodes added, "@, decimal_digits(nodes_modified));
    lemma_begins_extend("Diff for '"@ + name + "': "@ + decimal_digits(nodes_added) + " nodes added, "@ + decimal_digits(nodes_removed) + " nodes removed, "@ + decimal_digits(nodes_modified), "Diff for '"@ + name + "': "@ + decimal_digits(nodes_added) + " nodes added, "@, " nodes modified. "@);
    lemma_begins_extend("Diff for '"@ + name + "': "@ + decimal_digits(nodes_added) + " nodes added, "@ + decimal_digits(nodes_removed) + " nodes removed, "@ + decimal_digits(nodes_modified) + " nodes modified. "@, "Diff for '"@ + name + "': "@ + decimal_digits(nodes_added) + " nodes added, "@, decimal_digits(links_added));
    lemma_begins_extend("Diff for '"@ + name + "': "@ + decimal_digits(nodes_added) + " nodes added, "@ + decimal_digits(nodes_removed) + " nodes removed, "@ + decimal_digits(nodes_modified) + " nodes modified. "@ + decimal_digits(links_added), "Diff for '"@ + name + "': "@ + decimal_digits(nodes_added) + " nodes added, "@, " links added, "@);
    lemma_begins_extend("Diff for '"@ + name + "': "@ + decimal_digits(nodes_added) + " nodes added, "@ + decimal_digits(nodes_removed) + " nodes removed, "@ + decimal_digits(nodes_modified) + " nodes modified. "@ + decimal_digits(links_added) + " links added, "@, "Diff for '"@ + name + "': "@ + decimal_digits(nodes_added) + " nodes added, "@, decimal_digits(links_removed));
    lemma_begins_extend("Diff for '"@ + name + "': "@ + decimal_digits(nodes_added) + " nodes added, "@ + decimal_digits(nodes_removed) + " nodes removed, "@ + decimal_digits(nodes_modified) + " nodes modified. "@ + decimal_digits(links_added) + " links added, "@ + decimal_digits(links_removed), "Diff for '"@ + name + "': "@ + decimal_digits(nodes_added) + " nodes added, "@, " links removed, "@);
    lemma_begins_extend("Diff for '"@ + name + "': "@ + decimal_digits(nodes_added) + " nodes added, "@ + decimal_digits(nodes_removed) + " nodes removed, "@ + decimal_digits(nodes_modified) + " nodes modified. "@ + decimal_digits(links_added) + " links added, "@ + decimal_digits(links_removed) + " links removed, "@, "Diff for '"@ + name + "': "@ + decimal_digits(nodes_added) + " nodes added, "@, decimal_digits(links_modified));
    lemma_begins_extend("Diff for '"@ + name + "': "@ + decimal_digits(nodes_added) + " nodes added, "@ + decimal_digits(nodes_removed) + " nodes removed, "@ + decimal_digits(nodes_modified) + " nodes modified. "@ + decimal_digits(links_added) + " links added, "@ + decimal_digits(links_removed) + " links removed, "@ + decimal_digits(links_modified), "Diff for '"@ + name + "': "@ + decimal_digits(nodes_added) + " nodes added, "@, " links modified."@);
}

/// A text ending in three pieces contains them together.
proof fn lemma_contains_triple(x: Seq<char>, a: Seq<char>, b: Seq<char>, c: Seq<char>)
    ensures
        contains_text(x + a + b + c, a + b + c),
{
    assert(x + a + b + c =~= x + (a + b + c));
    lemma_contains_last(x, a + b + c);
}

} // verus!
