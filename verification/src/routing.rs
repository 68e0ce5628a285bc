//! Route enumeration and selection.
//!
//! A route is enumerated by a depth-first walk from the source. From the
//! current node, every link proposes a next hop: its far end if the link starts
//! at the current node, and otherwise its start. A proposed hop that is not yet
//! on the walk extends it; the walk stops at the destination. The last link's
//! proposal is explored first. A finished walk is a candidate when each of its
//! hops is joined by some link.
//!
//! Candidates are then ranked by a score per candidate: the product of the
//! fidelities, the sum of the distances, or the sum of fidelity times rate of
//! the links that join the candidate's hops (`hop_links`). The caller computes
//! the scores; the selection here keeps a best one.
use vstd::prelude::*;

use crate::binary64::{Binary64, Order};
use crate::network::{
    adjacent, as_index, find_joining_link, first_joining, joins,
    InternalLink, QuantumNetwork,
};

verus! {

broadcast use vstd::seq_lib::group_seq_properties, vstd::set::group_set_axioms;

/// How a route is chosen among the candidates.
#[derive(Clone, Copy, Debug, PartialEq, Eq, Structural)]
pub enum StrategyType {
    LowestLatency,
    HighestFidelity,
    HighestSuccess,
}

/// The hop that `link` proposes from `current`.
pub open spec fn next_hop(link: InternalLink, current: Seq<char>) -> Seq<char> {
    if link.from@ == current {
        link.to@
    } else {
        link.from@
    }
}

/// The names of the ends of all links.
pub open spec fn endpoint_names(links: Seq<InternalLink>) -> Seq<Seq<char>> {
    links.map_values(|l: InternalLink| l.from@) + links.map_values(|l: InternalLink| l.to@)
}

/// How many link ends are not yet on `path`: bounds how far a walk can go.
pub open spec fn unexplored(links: Seq<InternalLink>, path: Seq<Seq<char>>) -> nat {
    endpoint_names(links).to_set().difference(path.to_set()).len()
}

/// Whether the hop proposed by link `k` may extend `path`.
pub open spec fn admissible(links: Seq<InternalLink>, path: Seq<Seq<char>>, k: int) -> bool {
    let next = next_hop(links[k], path.last());
    next != path.last() && !path.contains(next)
}

/// Whether every hop of `p` is joined by some link.
pub open spec fn all_adjacent(links: Seq<InternalLink>, p: Seq<Seq<char>>) -> bool {
    forall|i: int| 0 <= i < p.len() - 1 ==> #[trigger] adjacent(links, p[i], p[i + 1])
}

/// A simple route from `from` to `to`: it starts at `from`, ends at `to`, visits
/// no node twice, and each of its hops is joined by a link.
pub open spec fn simple_route(
    links: Seq<InternalLink>,
    from: Seq<char>,
    to: Seq<char>,
    p: Seq<Seq<char>>,
) -> bool {
    &&& p.len() > 0
    &&& p[0] == from
    &&& p.last() == to
    &&& p.no_duplicates()
    &&& all_adjacent(links, p)
}

/// Extending a walk with a hop that is not on it leaves fewer link ends to explore.
pub proof fn lemma_unexplored_shrinks(links: Seq<InternalLink>, path: Seq<Seq<char>>, k: int)
    requires
        0 <= k < links.len(),
        path.len() > 0,
        !path.contains(next_hop(links[k], path.last())),
    ensures
        unexplored(links, path.push(next_hop(links[k], path.last())))
            < unexplored(links, path),
{
    let next = next_hop(links[k], path.last());
    let ends = endpoint_names(links);
    let n = links.len();
    if links[k].from@ == path.last() {
        assert(ends[n + k] == next);
    } else {
        assert(ends[k] == next);
    }
    assert(ends.contains(next));
    let before = ends.to_set().difference(path.to_set());
    let after = ends.to_set().difference(path.push(next).to_set());
    assert(after =~= before.remove(next));
    vstd::seq_lib::seq_to_set_is_finite(ends);
}

/// The walks that reach `to` from `path` and whose hops are all joined by links,
/// in the order the depth-first exploration finishes them.
pub open spec fn route_walks(links: Seq<InternalLink>, to: Seq<char>, path: Seq<Seq<char>>) -> Seq<
    Seq<Seq<char>>,
>
    decreases unexplored(links, path), links.len() + 1,
{
    if path.len() == 0 {
        seq![]
    } else if path.last() == to {
        if all_adjacent(links, path) {
            seq![path]
        } else {
            seq![]
        }
    } else {
        route_walks_below(links, to, path, links.len() as int)
    }
}

/// The walks through the hops proposed by links `k - 1` down to `0`.
pub open spec fn route_walks_below(
    links: Seq<InternalLink>,
    to: Seq<char>,
    path: Seq<Seq<char>>,
    k: int,
) -> Seq<Seq<Seq<char>>>
    decreases unexplored(links, path), k,
{
    if k <= 0 || k > links.len() || path.len() == 0 {
        seq![]
    } else {
        let rest = route_walks_below(links, to, path, k - 1);
        if admissible(links, path, k - 1) {
            proof {
                lemma_unexplored_shrinks(links, path, k - 1);
            }
            route_walks(links, to, path.push(next_hop(links[k - 1], path.last()))) + rest
        } else {
            rest
        }
    }
}

/// Every finished walk extends `path`, visits no node twice, ends at `to`, and
/// has all its hops joined by links.
proof fn lemma_walks_sound(
    links: Seq<InternalLink>,
    to: Seq<char>,
    path: Seq<Seq<char>>,
    q: Seq<Seq<char>>,
)
    requires
        path.len() > 0,
        path.no_duplicates(),
        route_walks(links, to, path).contains(q),
    ensures
        q.len() >= path.len(),
        q.subrange(0, path.len() as int) == path,
        q.no_duplicates(),
        q.last() == to,
        all_adjacent(links, q),
    decreases unexplored(links, path), links.len() + 1,
{
    if path.last() == to {
        assert(q == path);
        assert(q.subrange(0, path.len() as int) =~= path);
    } else {
        lemma_below_sound(links, to, path, links.len() as int, q);
    }
}

/// The walks below link `k` have the properties of `lemma_walks_sound`.
proof fn lemma_below_sound(
    links: Seq<InternalLink>,
    to: Seq<char>,
    path: Seq<Seq<char>>,
    k: int,
    q: Seq<Seq<char>>,
)
    requires
        path.len() > 0,
        path.no_duplicates(),
        route_walks_below(links, to, path, k).contains(q),
    ensures
        q.len() >= path.len(),
        q.subrange(0, path.len() as int) == path,
        q.no_duplicates(),
        q.last() == to,
        all_adjacent(links, q),
    decreases unexplored(links, path), k,
{
    if k <= 0 || k > links.len() {
        assert(false);
    } else {
        let rest = route_walks_below(links, to, path, k - 1);
        if admissible(links, path, k - 1) {
            let next = next_hop(links[k - 1], path.last());
            let child = path.push(next);
            let first = route_walks(links, to, child);
            assert(route_walks_below(links, to, path, k) == first + rest);
            let j = choose|j: int| 0 <= j < (first + rest).len() && (first + rest)[j] == q;
            if j < first.len() {
                assert(first[j] == q);
                lemma_unexplored_shrinks(links, path, k - 1);
                assert(child.no_duplicates()) by {
                    assert forall|a: int, b: int|
                        0 <= a < child.len() && 0 <= b < child.len() && a != b implies child[a]
                        != child[b] by {
                        if a < path.len() && b < path.len() {
                        } else if a < path.len() {
                            assert(path[a] == child[a]);
                        } else {
                            assert(path[b] == child[b]);
                        }
                    }
                }
                lemma_walks_sound(links, to, child, q);
                assert(q.subrange(0, path.len() as int) =~= q.subrange(0, child.len() as int).subrange(0, path.len() as int));
                assert(child.subrange(0, path.len() as int) =~= path);
            } else {
                assert(rest[j - first.len()] == q);
                lemma_below_sound(links, to, path, k - 1, q);
            }
        } else {
            lemma_below_sound(links, to, path, k - 1, q);
        }
    }
}

/// The walks below link `k` include every walk through an admissible hop
/// proposed by a link before `k`.
proof fn lemma_below_includes(
    links: Seq<InternalLink>,
    to: Seq<char>,
    path: Seq<Seq<char>>,
    k: int,
    kk: int,
    q: Seq<Seq<char>>,
)
    requires
        path.len() > 0,
        0 <= kk < k <= links.len(),
        admissible(links, path, kk),
        route_walks(links, to, path.push(next_hop(links[kk], path.last()))).contains(q),
    ensures
        route_walks_below(links, to, path, k).contains(q),
    decreases k,
{
    let rest = route_walks_below(links, to, path, k - 1);
    if kk == k - 1 {
        let first = route_walks(links, to, path.push(next_hop(links[kk], path.last())));
        assert(route_walks_below(links, to, path, k) == first + rest);
        let j = choose|j: int| 0 <= j < first.len() && first[j] == q;
        assert((first + rest)[j] == q);
    } else {
        lemma_below_includes(links, to, path, k - 1, kk, q);
        let j = choose|j: int| 0 <= j < rest.len() && rest[j] == q;
        if admissible(links, path, k - 1) {
            let first = route_walks(links, to, path.push(next_hop(links[k - 1], path.last())));
            assert(route_walks_below(links, to, path, k) == first + rest);
            assert((first + rest)[first.len() + j] == q);
        }
    }
}

/// Every simple route through the prefix `p[..i]` is found from that prefix.
proof fn lemma_walks_complete(links: Seq<InternalLink>, to: Seq<char>, p: Seq<Seq<char>>, i: int)
    requires
        p.len() > 0,
        p.last() == to,
        p.no_duplicates(),
        all_adjacent(links, p),
        1 <= i <= p.len(),
    ensures
        route_walks(links, to, p.subrange(0, i)).contains(p),
    decreases p.len() - i,
{
    let path = p.subrange(0, i);
    assert(path.last() == p[i - 1]);
    if p[i - 1] == to {
        assert(i - 1 == p.len() - 1);
        assert(path =~= p);
        assert(route_walks(links, to, path) == seq![p]);
        assert(seq![p][0] == p);
    } else {
        assert(i < p.len());
        let h = i - 1;
        assert(adjacent(links, p[h], p[h + 1]));
        assert(h + 1 == i);
        let kk = choose|kk: int| 0 <= kk < links.len() && #[trigger] joins(links[kk], p[i - 1], p[i]);
        assert(p[i - 1] != p[i]);
        assert(next_hop(links[kk], path.last()) == p[i]);
        assert(!path.contains(p[i])) by {
            if path.contains(p[i]) {
                let j = choose|j: int| 0 <= j < path.len() && path[j] == p[i];
                assert(p[j] == p[i]);
            }
        }
        assert(admissible(links, path, kk));
        lemma_walks_complete(links, to, p, i + 1);
        assert(p.subrange(0, i + 1) =~= path.push(p[i]));
        lemma_below_includes(links, to, path, links.len() as int, kk, p);
    }
}

/// The walks from `from` are exactly the simple routes from `from` to `to`.
pub proof fn lemma_route_walks_are_simple_routes(
    links: Seq<InternalLink>,
    from: Seq<char>,
    to: Seq<char>,
)
    ensures
        forall|q: Seq<Seq<char>>|
            #[trigger] route_walks(links, to, seq![from]).contains(q) <==> simple_route(
                links,
                from,
                to,
                q,
            ),
{
    assert forall|q: Seq<Seq<char>>|
        #[trigger] route_walks(links, to, seq![from]).contains(q) <==> simple_route(
            links,
            from,
            to,
            q,
        ) by {
        if route_walks(links, to, seq![from]).contains(q) {
            lemma_walks_sound(links, to, seq![from], q);
            assert(q[0] == q.subrange(0, 1)[0]);
        }
        if simple_route(links, from, to, q) {
            lemma_walks_complete(links, to, q, 1);
            assert(q.subrange(0, 1) =~= seq![from]);
        }
    }
}

/// A copy of a path.
fn copy_path(path: &Vec<String>) -> (r: Vec<String>)
    ensures
        r.deep_view() == path.deep_view(),
{
    let mut r: Vec<String> = Vec::new();
    let mut i: usize = 0;
    while i < path.len()
        invariant
            i <= path.len(),
            r@.len() == i,
            forall|j: int| 0 <= j < i ==> #[trigger] r@[j]@ == path@[j]@,
        decreases path.len() - i,
    {
        r.push(path[i].clone());
        i = i + 1;
    }
    assert(r.deep_view() =~= path.deep_view());
    r
}

/// Whether `name` is on `path`.
fn path_contains(path: &Vec<String>, name: &String) -> (r: bool)
    ensures
        r == path.deep_view().contains(name@),
{
    let mut i: usize = 0;
    while i < path.len()
        invariant
            i <= path.len(),
            forall|j: int| 0 <= j < i ==> #[trigger] path@[j]@ != name@,
        decreases path.len() - i,
    {
        if path[i] == *name {
            assert(path.deep_view()[i as int] == name@);
            return true;
        }
        i = i + 1;
    }
    proof {
        if path.deep_view().contains(name@) {
            let j = choose|j: int| 0 <= j < path.deep_view().len() && path.deep_view()[j] == name@;
            assert(path@[j]@ == name@);
        }
    }
    false
}

/// Whether every hop of `path` is joined by some link.
fn hops_all_linked(links: &Vec<InternalLink>, path: &Vec<String>) -> (r: bool)
    ensures
        r == all_adjacent(links@, path.deep_view()),
{
    let ghost p = path.deep_view();
    if path.len() == 0 {
        return true;
    }
    let mut i: usize = 0;
    while i + 1 < path.len()
        invariant
            i + 1 <= path.len(),
            p == path.deep_view(),
            forall|j: int| 0 <= j < i ==> #[trigger] adjacent(links@, p[j], p[j + 1]),
        decreases path.len() - i,
    {
        if find_joining_link(links, &path[i], &path[i + 1]).is_none() {
            assert(!adjacent(links@, p[i as int], p[i + 1]));
            return false;
        }
        i = i + 1;
    }
    true
}

/// Appends to `out` the walks that reach `to` from `path`.
fn explore(
    links: &Vec<InternalLink>,
    to: &String,
    path: Vec<String>,
    out: &mut Vec<Vec<String>>,
)
    requires
        path@.len() > 0,
    ensures
        final(out).deep_view() == old(out).deep_view() + route_walks(
            links@,
            to@,
            path.deep_view(),
        ),
    decreases unexplored(links@, path.deep_view()), links@.len() + 1,
{
    let ghost p = path.deep_view();
    let last = path.len() - 1;
    if path[last] == *to {
        if hops_all_linked(links, &path) {
            let ghost before = out.deep_view();
            out.push(path);
            assert(out.deep_view() =~= before + seq![p]);
        } else {
            assert(out.deep_view() =~= old(out).deep_view() + seq![]);
        }
        return;
    }
    let mut k: usize = links.len();
    while k > 0
        invariant
            k <= links.len(),
            p == path.deep_view(),
            p.len() > 0,
            last as int == p.len() - 1,
            p.last() != to@,
            out.deep_view() + route_walks_below(links@, to@, p, k as int) == old(out).deep_view()
                + route_walks_below(links@, to@, p, links@.len() as int),
        decreases k,
    {
        k = k - 1;
        let current = &path[last];
        let link = &links[k];
        let next = if link.from == *current {
            link.to.clone()
        } else {
            link.from.clone()
        };
        assert(next@ == next_hop(links@[k as int], p.last()));
        if next != *current && !path_contains(&path, &next) {
            let mut child = copy_path(&path);
            child.push(next);
            assert(child.deep_view() =~= p.push(next_hop(links@[k as int], p.last())));
            proof {
                lemma_unexplored_shrinks(links@, p, k as int);
            }
            let ghost before = out.deep_view();
            explore(links, to, child, out);
            assert(route_walks_below(links@, to@, p, k + 1) == route_walks(
                links@,
                to@,
                p.push(next_hop(links@[k as int], p.last())),
            ) + route_walks_below(links@, to@, p, k as int));
        } else {
            assert(route_walks_below(links@, to@, p, k + 1) == route_walks_below(
                links@,
                to@,
                p,
                k as int,
            ));
        }
    }
}

/// The candidate routes from `from` to `to`, or `None` when either end is not a
/// defined node.
pub fn route_candidates(network: &QuantumNetwork, from: &String, to: &String) -> (r: Option<
    Vec<Vec<String>>,
>)
    ensures
        r is Some <==> network.has_node(from@) && network.has_node(to@),
        r matches Some(c) ==> c.deep_view() == route_walks(network.links@, to@, seq![from@]),
        r matches Some(c) ==> forall|q: Seq<Seq<char>>|
            #[trigger] c.deep_view().contains(q) <==> simple_route(network.links@, from@, to@, q),
{
    if !network.contains_node(from) || !network.contains_node(to) {
        return None;
    }
    let mut out: Vec<Vec<String>> = Vec::new();
    let mut start: Vec<String> = Vec::new();
    start.push(from.clone());
    assert(start.deep_view() =~= seq![from@]);
    assert(out.deep_view() =~= Seq::<Seq<Seq<char>>>::empty());
    explore(&network.links, to, start, &mut out);
    assert(out.deep_view() =~= route_walks(network.links@, to@, seq![from@]));
    proof {
        lemma_route_walks_are_simple_routes(network.links@, from@, to@);
    }
    Some(out)
}

/// Whether candidates are ranked highest-first (fidelity, success) rather than
/// lowest-first (latency).
pub open spec fn ranks_high(strategy: StrategyType) -> bool {
    strategy != StrategyType::LowestLatency
}

/// The index kept after comparing the first `n` scores in order: a later score
/// replaces the kept one unless the kept one compares greater (when ranking
/// high) or unless it does not compare greater (when ranking low). A NaN
/// compares equal to everything.
pub open spec fn running_best(scores: Seq<Binary64>, n: int, high: bool) -> int
    decreases n,
{
    if n <= 1 {
        0
    } else {
        let acc = running_best(scores, n - 1, high);
        let greater = scores[acc].order(scores[n - 1]) == Some(Order::Greater);
        if high {
            if greater {
                acc
            } else {
                n - 1
            }
        } else {
            if greater {
                n - 1
            } else {
                acc
            }
        }
    }
}

/// The candidate chosen under `strategy` from the candidates' scores.
pub open spec fn chosen(scores: Seq<Binary64>, strategy: StrategyType) -> Option<int> {
    if scores.len() == 0 {
        None
    } else {
        Some(running_best(scores, scores.len() as int, ranks_high(strategy)))
    }
}

/// No score is a NaN.
pub open spec fn no_nan(scores: Seq<Binary64>) -> bool {
    forall|j: int| 0 <= j < scores.len() ==> !(#[trigger] scores[j]).nan()
}

/// Without NaNs, ranking high keeps the last of the greatest scores, and
/// ranking low keeps the first of the least.
pub proof fn lemma_running_best_extremal(scores: Seq<Binary64>, n: int, high: bool)
    requires
        1 <= n <= scores.len(),
        no_nan(scores),
    ensures
        0 <= running_best(scores, n, high) < n,
        high ==> forall|j: int|
            0 <= j < n ==> #[trigger] scores[j].key() <= scores[running_best(scores, n, high)].key(),
        high ==> forall|j: int|
            running_best(scores, n, high) < j < n ==> #[trigger] scores[j].key() < scores[running_best(
                scores,
                n,
                high,
            )].key(),
        !high ==> forall|j: int|
            0 <= j < n ==> scores[running_best(scores, n, high)].key() <= #[trigger] scores[j].key(),
        !high ==> forall|j: int|
            0 <= j < running_best(scores, n, high) ==> scores[running_best(scores, n, high)].key()
                < #[trigger] scores[j].key(),
    decreases n,
{
    if n > 1 {
        lemma_running_best_extremal(scores, n - 1, high);
        let acc = running_best(scores, n - 1, high);
        assert(!scores[acc].nan() && !scores[n - 1].nan());
    }
}

/// The candidate chosen under `strategy`, given each candidate's score.
pub fn select_candidate(scores: &Vec<Binary64>, strategy: StrategyType) -> (r: Option<usize>)
    ensures
        r == as_index(chosen(scores@, strategy)),
        r is None <==> scores@.len() == 0,
        r matches Some(i) ==> i < scores@.len(),
        r matches Some(i) ==> (no_nan(scores@) && ranks_high(strategy) ==> forall|j: int|
            0 <= j < scores@.len() ==> #[trigger] scores@[j].key() <= scores@[i as int].key()),
        r matches Some(i) ==> (no_nan(scores@) && !ranks_high(strategy) ==> forall|j: int|
            0 <= j < scores@.len() ==> scores@[i as int].key() <= #[trigger] scores@[j].key()),
{
    if scores.len() == 0 {
        return None;
    }
    let high = strategy != StrategyType::LowestLatency;
    let mut best: usize = 0;
    let mut n: usize = 1;
    while n < scores.len()
        invariant
            1 <= n <= scores.len(),
            high == ranks_high(strategy),
            best as int == running_best(scores@, n as int, high),
            0 <= best < n,
        decreases scores.len() - n,
    {
        proof {
            if n > 1 {
                lemma_running_best_range(scores@, n as int, high);
            }
        }
        let greater = match scores[best].compare(&scores[n]) {
            Some(Order::Greater) => true,
            _ => false,
        };
        if high {
            if !greater {
                best = n;
            }
        } else {
            if greater {
                best = n;
            }
        }
        n = n + 1;
    }
    proof {
        if no_nan(scores@) {
            lemma_running_best_extremal(scores@, scores@.len() as int, high);
        }
    }
    Some(best)
}

/// The kept index is among the compared ones.
proof fn lemma_running_best_range(scores: Seq<Binary64>, n: int, high: bool)
    requires
        1 <= n,
    ensures
        0 <= running_best(scores, n, high) < n,
    decreases n,
{
    if n > 1 {
        lemma_running_best_range(scores, n - 1, high);
    }
}

/// For each hop of `path`, the first link that joins its two nodes: the link
/// whose fidelity, distance and rate the hop contributes to the route's score.
/// Every hop of a candidate route has one.
pub fn hop_links(network: &QuantumNetwork, path: &Vec<String>) -> (r: Vec<Option<usize>>)
    ensures
        r@.len() == if path@.len() == 0 {
            0
        } else {
            path@.len() - 1
        },
        forall|i: int|
            0 <= i < r@.len() ==> #[trigger] r@[i] == as_index(
                first_joining(network.links@, path@[i]@, path@[i + 1]@),
            ),
        forall|i: int|
            0 <= i < r@.len() ==> (#[trigger] r@[i] is Some <==> adjacent(
                network.links@,
                path@[i]@,
                path@[i + 1]@,
            )),
        all_adjacent(network.links@, path.deep_view()) ==> forall|i: int|
            0 <= i < r@.len() ==> ((#[trigger] r@[i]) matches Some(k) && k < network.links@.len()),
{
    let mut r: Vec<Option<usize>> = Vec::new();
    let mut i: usize = 1;
    while i < path.len()
        invariant
            1 <= i <= path.len() || (i == 1 && path.len() == 0),
            r@.len() == i - 1,
            forall|j: int|
                0 <= j < r@.len() ==> #[trigger] r@[j] == as_index(
                    first_joining(network.links@, path@[j]@, path@[j + 1]@),
                ),
            forall|j: int|
                0 <= j < r@.len() ==> (#[trigger] r@[j] is Some <==> adjacent(
                    network.links@,
                    path@[j]@,
                    path@[j + 1]@,
                )),
            forall|j: int| 0 <= j < r@.len() ==> ((#[trigger] r@[j]) matches Some(k) ==> k < network.links@.len()),
        decreases path.len() - i,
    {
        r.push(find_joining_link(&network.links, &path[i - 1], &path[i]));
        i = i + 1;
    }
    proof {
        let p = path.deep_view();
        if all_adjacent(network.links@, p) {
            assert forall|j: int| 0 <= j < r@.len() implies ((#[trigger] r@[j]) matches Some(k) && k
                < network.links@.len()) by {
                assert(p[j] == path@[j]@ && p[j + 1] == path@[j + 1]@);
                assert(adjacent(network.links@, p[j], p[j + 1]));
            }
        }
    }
    r
}

} // verus!
