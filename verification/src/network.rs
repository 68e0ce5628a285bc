//! The internal graph model: nodes keyed by their identifier, and the links
//! between them in the order they were defined.
use vstd::prelude::*;

use crate::binary64::Binary64;
use crate::request::{
    LinkDefinition, LinkType, NetworkTopologyPayload, NodeDefinition, TopologyConfig, TopologySnapshot,
};

verus! {

/// A node of the internal graph.
#[derive(Clone, Debug)]
pub struct InternalNode {
    pub id: String,
    pub t2_lifetime: Binary64,
}

/// A link of the internal graph.
#[derive(Clone, Debug)]
pub struct InternalLink {
    pub from: String,
    pub to: String,
    pub distance: Binary64,
    pub base_fidelity: Binary64,
    pub rate_hz: Binary64,
    pub link_type: LinkType,
}

/// The internal graph: a table of nodes with distinct identifiers, and a list
/// of links.
#[derive(Clone, Debug)]
pub struct QuantumNetwork {
    pub nodes: Vec<InternalNode>,
    pub links: Vec<InternalLink>,
}

/// An optional index, as a machine index.
pub open spec fn as_index(o: Option<int>) -> Option<usize> {
    match o {
        Some(k) => Some(k as usize),
        None => None,
    }
}

/// Whether some link joins `a` and `b`, in either direction.
pub open spec fn adjacent(links: Seq<InternalLink>, a: Seq<char>, b: Seq<char>) -> bool {
    exists|k: int|
        0 <= k < links.len() && #[trigger] joins(links[k], a, b)
}

/// Whether `link` runs from `a` to `b` or from `b` to `a`.
pub open spec fn joins(link: InternalLink, a: Seq<char>, b: Seq<char>) -> bool {
    (link.from@ == a && link.to@ == b) || (link.to@ == a && link.from@ == b)
}

/// The index of the first link that joins `a` and `b`, if there is one.
pub open spec fn first_joining(links: Seq<InternalLink>, a: Seq<char>, b: Seq<char>) -> Option<int>
    decreases links.len(),
{
    first_joining_from(links, a, b, 0)
}

/// The index of the first link at or after `start` that joins `a` and `b`.
pub open spec fn first_joining_from(
    links: Seq<InternalLink>,
    a: Seq<char>,
    b: Seq<char>,
    start: int,
) -> Option<int>
    decreases links.len() - start,
{
    if start < 0 || start >= links.len() {
        None
    } else if joins(links[start], a, b) {
        Some(start)
    } else {
        first_joining_from(links, a, b, start + 1)
    }
}

/// `first_joining_from` finds exactly the first joining link at or after `start`.
pub proof fn lemma_first_joining_from(links: Seq<InternalLink>, a: Seq<char>, b: Seq<char>, start: int)
    requires
        0 <= start,
    ensures
        match first_joining_from(links, a, b, start) {
            Some(k) => start <= k < links.len() && joins(links[k], a, b) && forall|j: int|
                start <= j < k ==> !#[trigger] joins(links[j], a, b),
            None => forall|j: int| start <= j < links.len() ==> !#[trigger] joins(links[j], a, b),
        },
    decreases links.len() - start,
{
    if start < links.len() && !joins(links[start], a, b) {
        lemma_first_joining_from(links, a, b, start + 1);
    }
}

/// The index of the first link joining `a` and `b`, in either direction.
pub fn find_joining_link(links: &Vec<InternalLink>, a: &String, b: &String) -> (r: Option<usize>)
    ensures
        r == as_index(first_joining(links@, a@, b@)),
        r is Some <==> adjacent(links@, a@, b@),
        r matches Some(k) ==> k < links@.len() && joins(links@[k as int], a@, b@),
{
    let mut i: usize = 0;
    while i < links.len()
        invariant
            i <= links.len(),
            first_joining(links@, a@, b@) == first_joining_from(links@, a@, b@, i as int),
        decreases links.len() - i,
    {
        let l = &links[i];
        if (l.from == *a && l.to == *b) || (l.to == *a && l.from == *b) {
            proof {
                lemma_first_joining_from(links@, a@, b@, 0);
            }
            return Some(i);
        }
        i = i + 1;
    }
    proof {
        lemma_first_joining_from(links@, a@, b@, 0);
        if adjacent(links@, a@, b@) {
            let k = choose|k: int| 0 <= k < links@.len() && #[trigger] joins(links@[k], a@, b@);
            assert(joins(links@[k], a@, b@));
        }
    }
    None
}

impl QuantumNetwork {
    /// Node identifiers are distinct.
    pub open spec fn wf(self) -> bool {
        forall|i: int, j: int|
            0 <= i < j < self.nodes@.len() ==> #[trigger] self.nodes@[i].id@
                != #[trigger] self.nodes@[j].id@
    }

    /// Whether a node with identifier `id` is defined.
    pub open spec fn has_node(self, id: Seq<char>) -> bool {
        exists|i: int| 0 <= i < self.nodes@.len() && #[trigger] self.nodes@[i].id@ == id
    }

    /// The T2 lifetime recorded for `id`, if it is defined.
    pub open spec fn lifetime_of(self, id: Seq<char>) -> Option<Binary64> {
        if self.has_node(id) {
            let i = choose|i: int| 0 <= i < self.nodes@.len() && #[trigger] self.nodes@[i].id@ == id;
            Some(self.nodes@[i].t2_lifetime)
        } else {
            None
        }
    }

    /// An empty network.
    pub fn new() -> (r: QuantumNetwork)
        ensures
            r.wf(),
            r.nodes@.len() == 0,
            r.links@.len() == 0,
            forall|id: Seq<char>| !r.has_node(id),
    {
        QuantumNetwork { nodes: Vec::new(), links: Vec::new() }
    }

    /// Whether a node with identifier `id` is defined.
    pub fn contains_node(&self, id: &String) -> (r: bool)
        ensures
            r == self.has_node(id@),
    {
        let mut i: usize = 0;
        while i < self.nodes.len()
            invariant
                i <= self.nodes.len(),
                forall|j: int| 0 <= j < i ==> #[trigger] self.nodes@[j].id@ != id@,
            decreases self.nodes.len() - i,
        {
            if self.nodes[i].id == *id {
                return true;
            }
            i = i + 1;
        }
        false
    }

    /// Defines the node `id` with lifetime `t2`, replacing the lifetime of a
    /// node already defined under that identifier.
    pub fn add_node(&mut self, id: &String, t2: Binary64)
        requires
            old(self).wf(),
        ensures
            final(self).wf(),
            final(self).links@ == old(self).links@,
            final(self).lifetime_of(id@) == Some(t2),
            forall|k: Seq<char>| k != id@ ==> #[trigger] final(self).lifetime_of(k) == old(self).lifetime_of(k),
    {
        let ghost before = self.nodes@;
        let mut i: usize = 0;
        while i < self.nodes.len()
            invariant
                i <= self.nodes.len(),
                self.nodes@ == before,
                before == old(self).nodes@,
                self.links@ == old(self).links@,
                old(self).wf(),
                forall|j: int| 0 <= j < i ==> #[trigger] self.nodes@[j].id@ != id@,
            decreases self.nodes.len() - i,
        {
            if self.nodes[i].id == *id {
                self.nodes.set(i, InternalNode { id: id.clone(), t2_lifetime: t2 });
                proof {
                    let net = *self;
                    let ii = i as int;
                    assert(net.nodes@ == before.update(ii, net.nodes@[ii]));
                    assert forall|p: int, q: int|
                        0 <= p < q < net.nodes@.len() implies #[trigger] net.nodes@[p].id@
                        != #[trigger] net.nodes@[q].id@ by {
                        assert(before[p].id@ != before[q].id@);
                    }
                    Self::lemma_lifetime_at(net, ii);
                    assert forall|k: Seq<char>| k != id@ implies #[trigger] net.lifetime_of(k)
                        == old(self).lifetime_of(k) by {
                        if old(self).has_node(k) {
                            let j = choose|j: int| 0 <= j < before.len() && #[trigger] before[j].id@ == k;
                            Self::lemma_lifetime_at(*old(self), j);
                            Self::lemma_lifetime_at(net, j);
                        }
                        if net.has_node(k) {
                            let j = choose|j: int| 0 <= j < net.nodes@.len() && #[trigger] net.nodes@[j].id@ == k;
                            assert(before[j].id@ == k);
                        }
                    }
                }
                return;
            }
            i = i + 1;
        }
        self.nodes.push(InternalNode { id: id.clone(), t2_lifetime: t2 });
        proof {
            let net = *self;
            let n = before.len() as int;
            assert(net.nodes@ == before.push(net.nodes@[n]));
            assert forall|p: int, q: int|
                0 <= p < q < net.nodes@.len() implies #[trigger] net.nodes@[p].id@
                != #[trigger] net.nodes@[q].id@ by {
                if q < n {
                    assert(before[p].id@ != before[q].id@);
                } else {
                    assert(before[p].id@ != id@);
                }
            }
            Self::lemma_lifetime_at(net, n);
            assert forall|k: Seq<char>| k != id@ implies #[trigger] net.lifetime_of(k)
                == old(self).lifetime_of(k) by {
                if old(self).has_node(k) {
                    let j = choose|j: int| 0 <= j < before.len() && #[trigger] before[j].id@ == k;
                    Self::lemma_lifetime_at(*old(self), j);
                    Self::lemma_lifetime_at(net, j);
                }
                if net.has_node(k) {
                    let j = choose|j: int| 0 <= j < net.nodes@.len() && #[trigger] net.nodes@[j].id@ == k;
                    assert(j != n);
                    assert(before[j].id@ == k);
                }
            }
        }
    }

    /// In a well-formed table, the lifetime of the identifier at `i` is the one
    /// stored at `i`.
    pub proof fn lemma_lifetime_at(net: QuantumNetwork, i: int)
        requires
            net.wf(),
            0 <= i < net.nodes@.len(),
        ensures
            net.has_node(net.nodes@[i].id@),
            net.lifetime_of(net.nodes@[i].id@) == Some(net.nodes@[i].t2_lifetime),
    {
        let id = net.nodes@[i].id@;
        assert(net.nodes@[i].id@ == id);
        let j = choose|j: int| 0 <= j < net.nodes@.len() && #[trigger] net.nodes@[j].id@ == id;
        if j < i {
            assert(net.nodes@[j].id@ != net.nodes@[i].id@);
        } else if i < j {
            assert(net.nodes@[i].id@ != net.nodes@[j].id@);
        }
    }

    /// Appends a link.
    pub fn add_link(
        &mut self,
        from: &String,
        to: &String,
        dist: Binary64,
        fidelity: Binary64,
        rate: Binary64,
        link_type: LinkType,
    )
        ensures
            final(self).nodes@ == old(self).nodes@,
            final(self).links@.len() == old(self).links@.len() + 1,
            final(self).links@.drop_last() == old(self).links@,
            final(self).links@.last().from@ == from@,
            final(self).links@.last().to@ == to@,
            final(self).links@.last().distance == dist,
            final(self).links@.last().base_fidelity == fidelity,
            final(self).links@.last().rate_hz == rate,
            final(self).links@.last().link_type == link_type,
    {
        self.links.push(
            InternalLink {
                from: from.clone(),
                to: to.clone(),
                distance: dist,
                base_fidelity: fidelity,
                rate_hz: rate,
                link_type,
            },
        );
        proof {
            assert(self.links@.drop_last() =~= old(self).links@);
        }
    }
}

/// The lifetime that the last definition of `id` among `nodes` gives it.
pub open spec fn defined_lifetime(nodes: Seq<NodeDefinition>, id: Seq<char>) -> Option<Binary64>
    decreases nodes.len(),
{
    if nodes.len() == 0 {
        None
    } else if nodes.last().id@ == id {
        Some(nodes.last().memory_lifetime_t2)
    } else {
        defined_lifetime(nodes.drop_last(), id)
    }
}

/// The internal link built from a link definition.
pub open spec fn internal_link_of(l: LinkDefinition, k: InternalLink) -> bool {
    &&& k.from@ == l.from_node@
    &&& k.to@ == l.to@
    &&& k.distance == l.distance_km
    &&& k.base_fidelity == l.base_fidelity
    &&& k.rate_hz == l.generation_rate_hz
    &&& k.link_type == l.link_type
}

/// `net` is the internal graph of the definitions: each identifier has the
/// lifetime of its last definition, and the links are those defined, in order.
pub open spec fn built_from(net: QuantumNetwork, nodes: Seq<NodeDefinition>, links: Seq<LinkDefinition>) -> bool {
    &&& net.wf()
    &&& forall|id: Seq<char>| #[trigger] net.lifetime_of(id) == defined_lifetime(nodes, id)
    &&& net.links@.len() == links.len()
    &&& forall|k: int| 0 <= k < net.links@.len() ==> internal_link_of(links[k], #[trigger] net.links@[k])
}

impl QuantumNetwork {
    /// The internal graph of a topology definition: its nodes in order, a
    /// later definition of an identifier replacing an earlier one, and its
    /// links in order.
    pub fn from_payload(payload: &NetworkTopologyPayload) -> (r: QuantumNetwork)
        ensures
            built_from(r, payload.nodes@, payload.links@),
    {
        Self::from_definitions(&payload.nodes, &payload.links)
    }

    /// The internal graph of node and link definitions, as `from_payload`
    /// builds it.
    pub fn from_definitions(nodes: &Vec<NodeDefinition>, links: &Vec<LinkDefinition>) -> (r: QuantumNetwork)
        ensures
            built_from(r, nodes@, links@),
    {
        let payload_nodes = nodes;
        let payload_links = links;
        let mut net = QuantumNetwork::new();
        let mut i: usize = 0;
        while i < payload_nodes.len()
            invariant
                i <= payload_nodes@.len(),
                net.wf(),
                net.links@.len() == 0,
                forall|id: Seq<char>| #[trigger] net.lifetime_of(id) == defined_lifetime(
                    payload_nodes@.subrange(0, i as int),
                    id,
                ),
            decreases payload_nodes.len() - i,
        {
            let node = &payload_nodes[i];
            net.add_node(&node.id, node.memory_lifetime_t2);
            assert(payload_nodes@.subrange(0, i + 1).drop_last() =~= payload_nodes@.subrange(0, i as int));
            i = i + 1;
        }
        assert(payload_nodes@.subrange(0, i as int) =~= payload_nodes@);
        let mut j: usize = 0;
        while j < payload_links.len()
            invariant
                j <= payload_links@.len(),
                net.wf(),
                forall|id: Seq<char>| #[trigger] net.lifetime_of(id) == defined_lifetime(payload_nodes@, id),
                net.links@.len() == j,
                forall|k: int|
                    0 <= k < j ==> internal_link_of(payload_links@[k], #[trigger] net.links@[k]),
            decreases payload_links.len() - j,
        {
            let l = &payload_links[j];
            let ghost before = net;
            net.add_link(
                &l.from_node,
                &l.to,
                l.distance_km,
                l.base_fidelity,
                l.generation_rate_hz,
                l.link_type,
            );
            assert forall|k: int| 0 <= k < j + 1 implies internal_link_of(
                payload_links@[k],
                #[trigger] net.links@[k],
            ) by {
                if k < j {
                    assert(net.links@[k] == net.links@.drop_last()[k]);
                }
            }
            assert forall|id: Seq<char>| #[trigger] net.lifetime_of(id) == defined_lifetime(
                payload_nodes@,
                id,
            ) by {
                assert(net.lifetime_of(id) == before.lifetime_of(id));
            }
            j = j + 1;
        }
        net
    }
}

/// Node and link definitions that record `net`: its nodes in table order with
/// their lifetimes, and its links in order with their own medium. The
/// internal graph keeps no satellite conditions, so none are recorded.
pub open spec fn records(nodes: Seq<NodeDefinition>, links: Seq<LinkDefinition>, net: QuantumNetwork) -> bool {
    &&& nodes.len() == net.nodes@.len()
    &&& forall|i: int|
        0 <= i < nodes.len() ==> (#[trigger] nodes[i]).id@ == net.nodes@[i].id@
            && nodes[i].memory_lifetime_t2 == net.nodes@[i].t2_lifetime
    &&& links.len() == net.links@.len()
    &&& forall|k: int|
        0 <= k < links.len() ==> {
            &&& (#[trigger] links[k]).from_node@ == net.links@[k].from@
            &&& links[k].to@ == net.links@[k].to@
            &&& links[k].distance_km == net.links@[k].distance
            &&& links[k].base_fidelity == net.links@[k].base_fidelity
            &&& links[k].generation_rate_hz == net.links@[k].rate_hz
            &&& links[k].link_type == net.links@[k].link_type
            &&& links[k].satellite_conditions is None
        }
}

impl QuantumNetwork {
    /// A snapshot of this network named `name` at `version`: its nodes in
    /// table order with their lifetimes, and its links in order with their
    /// own medium.
    pub fn to_snapshot(&self, name: &str, version: &str, config: TopologyConfig) -> (r: TopologySnapshot)
        ensures
            r.metadata.name@ == name@,
            r.metadata.version@ == version@,
            r.config == config,
            records(r.nodes@, r.links@, *self),
    {
        let mut snapshot = TopologySnapshot::new(name, version);
        snapshot.config = config;
        let mut i: usize = 0;
        while i < self.nodes.len()
            invariant
                i <= self.nodes@.len(),
                snapshot.metadata.name@ == name@,
                snapshot.metadata.version@ == version@,
                snapshot.config == config,
                snapshot.links@.len() == 0,
                snapshot.nodes@.len() == i,
                forall|j: int|
                    0 <= j < i ==> (#[trigger] snapshot.nodes@[j]).id@ == self.nodes@[j].id@
                        && snapshot.nodes@[j].memory_lifetime_t2 == self.nodes@[j].t2_lifetime,
            decreases self.nodes.len() - i,
        {
            let ghost before = snapshot.nodes@;
            snapshot.add_node(self.nodes[i].id.as_str(), self.nodes[i].t2_lifetime);
            assert forall|j: int| 0 <= j < i + 1 implies (#[trigger] snapshot.nodes@[j]).id@
                == self.nodes@[j].id@ && snapshot.nodes@[j].memory_lifetime_t2
                == self.nodes@[j].t2_lifetime by {
                if j < i {
                    assert(snapshot.nodes@[j] == snapshot.nodes@.drop_last()[j]);
                }
            }
            i = i + 1;
        }
        let mut k: usize = 0;
        while k < self.links.len()
            invariant
                k <= self.links@.len(),
                snapshot.metadata.name@ == name@,
                snapshot.metadata.version@ == version@,
                snapshot.config == config,
                snapshot.nodes@.len() == self.nodes@.len(),
                forall|j: int|
                    0 <= j < snapshot.nodes@.len() ==> (#[trigger] snapshot.nodes@[j]).id@
                        == self.nodes@[j].id@ && snapshot.nodes@[j].memory_lifetime_t2
                        == self.nodes@[j].t2_lifetime,
                snapshot.links@.len() == k,
                forall|j: int|
                    0 <= j < k ==> {
                        &&& (#[trigger] snapshot.links@[j]).from_node@ == self.links@[j].from@
                        &&& snapshot.links@[j].to@ == self.links@[j].to@
                        &&& snapshot.links@[j].distance_km == self.links@[j].distance
                        &&& snapshot.links@[j].base_fidelity == self.links@[j].base_fidelity
                        &&& snapshot.links@[j].generation_rate_hz == self.links@[j].rate_hz
                        &&& snapshot.links@[j].link_type == self.links@[j].link_type
                        &&& snapshot.links@[j].satellite_conditions is None
                    },
            decreases self.links.len() - k,
        {
            let l = &self.links[k];
            let ghost before = snapshot.links@;
            snapshot.links.push(
                LinkDefinition {
                    from_node: l.from.clone(),
                    to: l.to.clone(),
                    distance_km: l.distance,
                    base_fidelity: l.base_fidelity,
                    generation_rate_hz: l.rate_hz,
                    link_type: l.link_type,
                    satellite_conditions: None,
                },
            );
            assert(snapshot.links@.drop_last() =~= before);
            assert forall|j: int| 0 <= j < k + 1 implies {
                &&& (#[trigger] snapshot.links@[j]).from_node@ == self.links@[j].from@
                &&& snapshot.links@[j].to@ == self.links@[j].to@
                &&& snapshot.links@[j].distance_km == self.links@[j].distance
                &&& snapshot.links@[j].base_fidelity == self.links@[j].base_fidelity
                &&& snapshot.links@[j].generation_rate_hz == self.links@[j].rate_hz
                &&& snapshot.links@[j].link_type == self.links@[j].link_type
                &&& snapshot.links@[j].satellite_conditions is None
            } by {
                if j < k {
                    assert(snapshot.links@[j] == snapshot.links@.drop_last()[j]);
                }
            }
            k = k + 1;
        }
        snapshot
    }
}

/// The last definition among the first `n` table entries recorded in `defs`
/// is that of the only entry with the identifier.
proof fn lemma_recorded_lifetime(defs: Seq<NodeDefinition>, net: QuantumNetwork, n: int, id: Seq<char>)
    requires
        net.wf(),
        0 <= n <= net.nodes@.len(),
        defs.len() == n,
        forall|i: int|
            0 <= i < n ==> (#[trigger] defs[i]).id@ == net.nodes@[i].id@ && defs[i].memory_lifetime_t2
                == net.nodes@[i].t2_lifetime,
    ensures
        forall|i: int|
            0 <= i < n && #[trigger] net.nodes@[i].id@ == id ==> defined_lifetime(defs, id) == Some(
                net.nodes@[i].t2_lifetime,
            ),
        (forall|i: int| 0 <= i < n ==> #[trigger] net.nodes@[i].id@ != id) ==> defined_lifetime(defs, id)
            is None,
    decreases n,
{
    if n > 0 {
        let init = defs.drop_last();
        assert forall|i: int| 0 <= i < n - 1 implies (#[trigger] init[i]).id@ == net.nodes@[i].id@
            && init[i].memory_lifetime_t2 == net.nodes@[i].t2_lifetime by {
            assert(init[i] == defs[i]);
        }
        lemma_recorded_lifetime(init, net, n - 1, id);
        assert(defs.last() == defs[n - 1]);
        assert forall|i: int| 0 <= i < n && #[trigger] net.nodes@[i].id@ == id implies defined_lifetime(defs, id)
            == Some(net.nodes@[i].t2_lifetime) by {
            if i < n - 1 && net.nodes@[n - 1].id@ == id {
                assert(net.nodes@[i].id@ != net.nodes@[n - 1].id@);
            }
        }
    }
}

/// Exporting a well-formed network and building a network from the exported
/// definitions gives back every node's lifetime, and every link's ends,
/// distance, fidelity, rate and medium, in order.
pub proof fn law_export_then_import(
    net: QuantumNetwork,
    nodes: Seq<NodeDefinition>,
    links: Seq<LinkDefinition>,
    back: QuantumNetwork,
)
    requires
        net.wf(),
        records(nodes, links, net),
        built_from(back, nodes, links),
    ensures
        forall|id: Seq<char>| #[trigger] back.lifetime_of(id) == net.lifetime_of(id),
        back.links@.len() == net.links@.len(),
        forall|k: int|
            0 <= k < back.links@.len() ==> {
                &&& (#[trigger] back.links@[k]).from@ == net.links@[k].from@
                &&& back.links@[k].to@ == net.links@[k].to@
                &&& back.links@[k].distance == net.links@[k].distance
                &&& back.links@[k].base_fidelity == net.links@[k].base_fidelity
                &&& back.links@[k].rate_hz == net.links@[k].rate_hz
                &&& back.links@[k].link_type == net.links@[k].link_type
            },
{
    assert forall|id: Seq<char>| #[trigger] back.lifetime_of(id) == net.lifetime_of(id) by {
        lemma_recorded_lifetime(nodes, net, net.nodes@.len() as int, id);
        if net.has_node(id) {
            let i = choose|i: int| 0 <= i < net.nodes@.len() && #[trigger] net.nodes@[i].id@ == id;
            QuantumNetwork::lemma_lifetime_at(net, i);
        } else {
            assert forall|i: int| 0 <= i < net.nodes@.len() implies #[trigger] net.nodes@[i].id@ != id by {
                if net.nodes@[i].id@ == id {
                    assert(net.has_node(id));
                }
            }
        }
    }
    assert forall|k: int| 0 <= k < back.links@.len() implies {
        &&& (#[trigger] back.links@[k]).from@ == net.links@[k].from@
        &&& back.links@[k].to@ == net.links@[k].to@
        &&& back.links@[k].distance == net.links@[k].distance
        &&& back.links@[k].base_fidelity == net.links@[k].base_fidelity
        &&& back.links@[k].rate_hz == net.links@[k].rate_hz
        &&& back.links@[k].link_type == net.links@[k].link_type
    } by {
        assert(internal_link_of(links[k], back.links@[k]));
    }
}

} // verus!
