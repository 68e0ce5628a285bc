//! The coordination layer of the distributed computing protocol: which pairs
//! of participants must share entanglement.
use vstd::prelude::*;

verus! {

broadcast use vstd::seq_lib::group_seq_properties;

/// How the participants of a distributed computation are connected.
#[derive(Clone, Debug)]
pub enum CoordinationTopology {
    /// Every participant but the center connects to the center.
    Star { center_node: String },
    /// Each participant connects to the next; the last connects to the first.
    Ring,
    /// Every pair of participants connects.
    Mesh,
    /// An explicit list of edges.
    Arbitrary { edges: Vec<(String, String)> },
}

/// The resource state that the parties measure.
#[derive(Clone, Copy, Debug, PartialEq, Eq, Structural)]
pub enum BasisType {
    GHZ,
    Cluster,
    GraphGraph,
}

/// The distributed computing protocol.
pub struct DistributedComputingProtocol;

/// Star edges: each participant other than `center`, paired with `center`, in
/// order.
pub open spec fn star_edges(ps: Seq<Seq<char>>, center: Seq<char>) -> Seq<(Seq<char>, Seq<char>)>
    decreases ps.len(),
{
    if ps.len() == 0 {
        seq![]
    } else if ps.last() != center {
        star_edges(ps.drop_last(), center).push((ps.last(), center))
    } else {
        star_edges(ps.drop_last(), center)
    }
}

/// Ring edges: participant `i` paired with participant `i + 1`, wrapping around.
pub open spec fn ring_edges(ps: Seq<Seq<char>>) -> Seq<(Seq<char>, Seq<char>)> {
    Seq::new(ps.len(), |i: int| (ps[i], ps[(i + 1) % (ps.len() as int)]))
}

/// The mesh edges that start at participant `i`: `i` paired with each later one.
pub open spec fn mesh_row(ps: Seq<Seq<char>>, i: int) -> Seq<(Seq<char>, Seq<char>)> {
    Seq::new((ps.len() - 1 - i) as nat, |k: int| (ps[i], ps[i + 1 + k]))
}

/// The mesh edges starting at the first `rows` participants, row after row.
pub open spec fn mesh_rows(ps: Seq<Seq<char>>, rows: int) -> Seq<(Seq<char>, Seq<char>)>
    decreases rows,
{
    if rows <= 0 {
        seq![]
    } else {
        mesh_rows(ps, rows - 1) + mesh_row(ps, rows - 1)
    }
}

/// Mesh edges: every pair `i < j`, in lexicographic order.
pub open spec fn mesh_edges(ps: Seq<Seq<char>>) -> Seq<(Seq<char>, Seq<char>)> {
    mesh_rows(ps, ps.len() as int)
}

impl CoordinationTopology {
    /// The edges this topology requires among `participants`.
    pub open spec fn spec_required_edges(&self, ps: Seq<Seq<char>>) -> Seq<(Seq<char>, Seq<char>)> {
        match self {
            CoordinationTopology::Star { center_node } => star_edges(ps, center_node@),
            CoordinationTopology::Ring => ring_edges(ps),
            CoordinationTopology::Mesh => mesh_edges(ps),
            CoordinationTopology::Arbitrary { edges } => edges.deep_view(),
        }
    }

    /// Resolves the entanglement links this topology requires among the
    /// participants.
    pub fn required_edges(&self, participants: &Vec<String>) -> (r: Vec<(String, String)>)
        ensures
            r.deep_view() == self.spec_required_edges(participants.deep_view()),
    {
        let ghost ps = participants.deep_view();
        match self {
            CoordinationTopology::Star { center_node } => {
                let mut edges: Vec<(String, String)> = Vec::new();
                let mut i: usize = 0;
                while i < participants.len()
                    invariant
                        i <= participants@.len(),
                        ps == participants.deep_view(),
                        edges.deep_view() == star_edges(ps.subrange(0, i as int), center_node@),
                    decreases participants.len() - i,
                {
                    assert(ps.subrange(0, i + 1).drop_last() =~= ps.subrange(0, i as int));
                    assert(ps.subrange(0, i + 1).last() == participants@[i as int]@);
                    if participants[i] != *center_node {
                        let ghost before = edges.deep_view();
                        edges.push((participants[i].clone(), center_node.clone()));
                        assert(edges.deep_view() =~= before.push(
                            (participants@[i as int]@, center_node@),
                        ));
                    }
                    i = i + 1;
                }
                assert(ps.subrange(0, i as int) =~= ps);
                edges
            },
            CoordinationTopology::Ring => {
                let mut edges: Vec<(String, String)> = Vec::new();
                let n = participants.len();
                let mut i: usize = 0;
                while i < n
                    invariant
                        i <= n,
                        n == participants@.len(),
                        ps == participants.deep_view(),
                        edges@.len() == i,
                        forall|j: int|
                            0 <= j < i ==> #[trigger] edges.deep_view()[j] == ring_edges(ps)[j],
                    decreases n - i,
                {
                    let next = (i + 1) % n;
                    let ghost before = edges.deep_view();
                    edges.push((participants[i].clone(), participants[next].clone()));
                    assert forall|j: int| 0 <= j < i + 1 implies #[trigger] edges.deep_view()[j]
                        == ring_edges(ps)[j] by {
                        if j < i {
                            assert(edges.deep_view()[j] == before[j]);
                        }
                    }
                    i = i + 1;
                }
                assert(edges.deep_view() =~= ring_edges(ps));
                edges
            },
            CoordinationTopology::Mesh => {
                let mut edges: Vec<(String, String)> = Vec::new();
                let n = participants.len();
                let mut i: usize = 0;
                while i < n
                    invariant
                        i <= n,
                        n == participants@.len(),
                        ps == participants.deep_view(),
                        edges.deep_view() == mesh_rows(ps, i as int),
                    decreases n - i,
                {
                    let ghost start = edges.deep_view();
                    let mut j: usize = i + 1;
                    while j < n
                        invariant
                            i < n,
                            i + 1 <= j <= n,
                            n == participants@.len(),
                            ps == participants.deep_view(),
                            edges.deep_view() == start + mesh_row(ps, i as int).subrange(
                                0,
                                j - i - 1,
                            ),
                        decreases n - j,
                    {
                        let ghost before = edges.deep_view();
                        edges.push((participants[i].clone(), participants[j].clone()));
                        assert(edges.deep_view() =~= before.push(
                            (participants@[i as int]@, participants@[j as int]@),
                        ));
                        assert(mesh_row(ps, i as int)[j - i - 1] == (ps[i as int], ps[j as int]));
                        assert(mesh_row(ps, i as int).subrange(0, j - i) =~= mesh_row(
                            ps,
                            i as int,
                        ).subrange(0, j - i - 1).push((ps[i as int], ps[j as int])));
                        assert(edges.deep_view() =~= start + mesh_row(ps, i as int).subrange(
                            0,
                            j - i,
                        ));
                        j = j + 1;
                    }
                    assert(mesh_row(ps, i as int).subrange(0, n - i - 1) =~= mesh_row(ps, i as int));
                    i = i + 1;
                }
                edges
            },
            CoordinationTopology::Arbitrary { edges } => {
                let mut out: Vec<(String, String)> = Vec::new();
                let mut i: usize = 0;
                while i < edges.len()
                    invariant
                        i <= edges@.len(),
                        out@.len() == i,
                        forall|j: int|
                            0 <= j < i ==> #[trigger] out.deep_view()[j] == edges.deep_view()[j],
                    decreases edges.len() - i,
                {
                    let ghost before = out.deep_view();
                    out.push((edges[i].0.clone(), edges[i].1.clone()));
                    assert forall|j: int| 0 <= j < i + 1 implies #[trigger] out.deep_view()[j]
                        == edges.deep_view()[j] by {
                        if j < i {
                            assert(out.deep_view()[j] == before[j]);
                        }
                    }
                    i = i + 1;
                }
                assert(out.deep_view() =~= edges.deep_view());
                out
            },
        }
    }
}

/// A ring over `n` participants has `n` edges, and a mesh has `n(n-1)/2`.
pub proof fn law_edge_counts(ps: Seq<Seq<char>>)
    ensures
        ring_edges(ps).len() == ps.len(),
        mesh_edges(ps).len() * 2 == ps.len() * (ps.len() - 1),
{
    lemma_mesh_rows_len(ps, ps.len() as int);
}

/// The first `rows` rows of a mesh hold `rows (2n - rows - 1) / 2` edges.
proof fn lemma_mesh_rows_len(ps: Seq<Seq<char>>, rows: int)
    requires
        0 <= rows <= ps.len(),
    ensures
        mesh_rows(ps, rows).len() * 2 == rows * (2 * ps.len() - rows - 1),
    decreases rows,
{
    if rows == 0 {
        assert(rows * (2 * ps.len() - rows - 1) == 0) by (nonlinear_arith)
            requires
                rows == 0,
        ;
    } else {
        lemma_mesh_rows_len(ps, rows - 1);
        let n = ps.len() as int;
        let a = mesh_rows(ps, rows - 1).len() as int;
        let b = mesh_row(ps, rows - 1).len() as int;
        assert(b == n - rows);
        assert(mesh_rows(ps, rows).len() == a + b);
        assert((a + b) * 2 == rows * (2 * n - rows - 1)) by (nonlinear_arith)
            requires
                a * 2 == (rows - 1) * (2 * n - (rows - 1) - 1),
                b == n - rows,
        ;
    }
}

/// Every star edge joins a participant other than the center to the center.
pub proof fn law_star_edges_reach_center(ps: Seq<Seq<char>>, center: Seq<char>)
    ensures
        forall|e: int|
            0 <= e < star_edges(ps, center).len() ==> #[trigger] star_edges(ps, center)[e].1
                == center && star_edges(ps, center)[e].0 != center && ps.contains(
                star_edges(ps, center)[e].0,
            ),
    decreases ps.len(),
{
    if ps.len() > 0 {
        law_star_edges_reach_center(ps.drop_last(), center);
        let prev = star_edges(ps.drop_last(), center);
        assert forall|e: int|
            0 <= e < star_edges(ps, center).len() implies #[trigger] star_edges(ps, center)[e].1
            == center && star_edges(ps, center)[e].0 != center && ps.contains(
            star_edges(ps, center)[e].0,
        ) by {
            if e < prev.len() {
                assert(prev[e].1 == center);
                assert(star_edges(ps, center)[e] == prev[e]);
                let k = choose|k: int| 0 <= k < ps.drop_last().len() && ps.drop_last()[k] == prev[e].0;
                assert(ps.drop_last() == ps.subrange(0, ps.len() - 1));
                assert(ps.drop_last()[k] == ps[k]);
                assert(ps[k] == prev[e].0);
            } else {
                assert(ps[ps.len() - 1] == ps.last());
            }
        }
    }
}

} // verus!
