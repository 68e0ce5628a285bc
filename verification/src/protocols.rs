//! The higher-level protocols' own bookkeeping: QKD defaults, the chain of
//! nodes a teleportation involves, the edges each party of a distributed
//! computation takes part in, and per-run seeds of Monte Carlo ensembles.
use vstd::prelude::*;

use crate::metrics::firing_key;
use crate::qnet::link_key_of;

pub use crate::distributed::{BasisType, CoordinationTopology, DistributedComputingProtocol};

verus! {

/// The BB84 key distribution protocol.
pub struct QKDProtocol;

/// Quantum state teleportation.
pub struct TeleportationProtocol;

/// BBPSSW entanglement purification.
pub struct PurificationEngine;

/// Entanglement swapping at repeaters.
pub struct RepeaterEngine;

/// Monte Carlo ensembles of simulation runs.
pub struct MonteCarloSimulationEngine;

/// The number of entanglement rounds a QKD session attempts by default.
pub fn default_rounds() -> (r: usize)
    ensures
        r == 100,
{
    100
}

/// The seed of run `i` of an ensemble seeded with `base`: the sum, wrapping
/// at 2^64.
pub fn run_seed(base: u64, i: usize) -> (r: u64)
    ensures
        r as int == (base as int + i as int) % 0x1_0000_0000_0000_0000,
{
    base.wrapping_add(i as u64)
}

/// The nodes a teleportation involves: the source, the relays in order, and
/// the target when the resource pair was established.
pub fn teleportation_path(source: &String, relays: &Vec<String>, target: &String, established: bool) -> (r: Vec<
    String,
>)
    ensures
        r.deep_view() == seq![source@] + relays.deep_view() + if established {
            seq![target@]
        } else {
            seq![]
        },
{
    let mut path: Vec<String> = Vec::new();
    path.push(source.clone());
    let mut i: usize = 0;
    while i < relays.len()
        invariant
            i <= relays@.len(),
            path.deep_view() == seq![source@] + relays.deep_view().subrange(0, i as int),
        decreases relays.len() - i,
    {
        let ghost before = path.deep_view();
        path.push(relays[i].clone());
        assert(path.deep_view() =~= before.push(relays@[i as int]@));
        assert(relays.deep_view().subrange(0, i + 1) =~= relays.deep_view().subrange(0, i as int).push(relays@[i as int]@));
        i = i + 1;
    }
    assert(relays.deep_view().subrange(0, i as int) =~= relays.deep_view());
    if established {
        let ghost before = path.deep_view();
        path.push(target.clone());
        assert(path.deep_view() =~= before.push(target@));
    } else {
        assert(path.deep_view() =~= path.deep_view() + Seq::<Seq<char>>::empty());
    }
    path
}

/// Whether `edge` has `node` as one of its ends.
pub open spec fn edge_touches(edge: (Seq<char>, Seq<char>), node: Seq<char>) -> bool {
    edge.0 == node || edge.1 == node
}

/// The positions of the edges that have `node` as an end, in order.
pub open spec fn touching_positions(edges: Seq<(Seq<char>, Seq<char>)>, node: Seq<char>) -> Seq<int>
    decreases edges.len(),
{
    if edges.len() == 0 {
        seq![]
    } else if edge_touches(edges.last(), node) {
        touching_positions(edges.drop_last(), node).push(edges.len() - 1)
    } else {
        touching_positions(edges.drop_last(), node)
    }
}

/// The positions of the edges in which `node` takes part, in order.
pub fn party_edges(edges: &Vec<(String, String)>, node: &String) -> (r: Vec<usize>)
    ensures
        r@.map_values(|k: usize| k as int) == touching_positions(edges.deep_view(), node@),
        forall|j: int| 0 <= j < r@.len() ==> #[trigger] r@[j] < edges@.len(),
{
    let ghost es = edges.deep_view();
    let mut r: Vec<usize> = Vec::new();
    let mut i: usize = 0;
    while i < edges.len()
        invariant
            i <= edges@.len(),
            es == edges.deep_view(),
            r@.map_values(|k: usize| k as int) == touching_positions(es.subrange(0, i as int), node@),
            forall|j: int| 0 <= j < r@.len() ==> #[trigger] r@[j] < i,
        decreases edges.len() - i,
    {
        assert(es.subrange(0, i + 1).drop_last() =~= es.subrange(0, i as int));
        assert(es.subrange(0, i + 1).last() == es[i as int]);
        let ghost before = r@;
        if edges[i].0 == *node || edges[i].1 == *node {
            r.push(i);
            assert(r@.map_values(|k: usize| k as int) =~= before.map_values(|k: usize| k as int).push(i as int));
        }
        i = i + 1;
    }
    assert(es.subrange(0, i as int) =~= es);
    r
}

/// The names of the entanglement links an edge list consumes: `from->to`.
pub fn resource_link_names(edges: &Vec<(String, String)>) -> (r: Vec<String>)
    ensures
        r@.len() == edges@.len(),
        forall|j: int|
            0 <= j < r@.len() ==> #[trigger] r@[j]@ == link_key_of(edges@[j].0@, edges@[j].1@),
{
    let mut r: Vec<String> = Vec::new();
    let mut i: usize = 0;
    while i < edges.len()
        invariant
            i <= edges@.len(),
            r@.len() == i,
            forall|j: int|
                0 <= j < i ==> #[trigger] r@[j]@ == link_key_of(edges@[j].0@, edges@[j].1@),
        decreases edges.len() - i,
    {
        r.push(firing_key(&edges[i].0, &edges[i].1));
        i = i + 1;
    }
    r
}

/// A position is listed for a party exactly when the edge there has the party
/// as one of its ends, and the positions come in increasing order.
pub proof fn law_party_edges_are_the_touching_ones(edges: Seq<(Seq<char>, Seq<char>)>, node: Seq<char>)
    ensures
        forall|k: int|
            touching_positions(edges, node).contains(k) <==> (0 <= k < edges.len() && (edges[k].0 == node
                || edges[k].1 == node)),
        forall|a: int, b: int|
            0 <= a < b < touching_positions(edges, node).len() ==> touching_positions(edges, node)[a]
                < touching_positions(edges, node)[b],
    decreases edges.len(),
{
    if edges.len() > 0 {
        let init = edges.drop_last();
        law_party_edges_are_the_touching_ones(init, node);
        let prev = touching_positions(init, node);
        assert forall|k: int| 0 <= k < prev.len() implies #[trigger] prev[k] < edges.len() - 1 by {
            assert(prev.contains(prev[k]));
        }
        assert forall|k: int|
            touching_positions(edges, node).contains(k) <==> (0 <= k < edges.len() && (edges[k].0 == node
                || edges[k].1 == node)) by {
            if 0 <= k < edges.len() - 1 {
                assert(init[k] == edges[k]);
            }
            if touching_positions(edges, node).contains(k) {
                let j = choose|j: int| 0 <= j < touching_positions(edges, node).len() && touching_positions(edges, node)[j] == k;
                if edge_touches(edges.last(), node) && j == prev.len() {
                } else {
                    assert(prev[j] == k);
                    assert(prev.contains(k));
                }
            }
            if 0 <= k < edges.len() && (edges[k].0 == node || edges[k].1 == node) {
                if k < edges.len() - 1 {
                    assert(prev.contains(k));
                    let j = choose|j: int| 0 <= j < prev.len() && prev[j] == k;
                    assert(touching_positions(edges, node)[j] == k);
                } else {
                    let tp = touching_positions(edges, node);
                    assert(tp[tp.len() - 1] == k);
                }
            }
        }
    }
}

} // verus!
