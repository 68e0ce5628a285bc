//! Comparison of two topology snapshots.
//!
//! Nodes are matched by identifier and links by their `from->to` key, a
//! repeated identifier or key standing for its last definition. Whether a
//! shared node's lifetime changed is a numeric tolerance test that the caller
//! applies to the pairs of lifetimes returned here.
use vstd::prelude::*;

use crate::binary64::Binary64;
use crate::diff::{
    contains_name, first_occurrences, last_position, lemma_first_occurrences_within, lemma_grow,
    lemma_first_occurrences_contains, lemma_last_index_found, lemma_last_index_of_found,
    lemma_select_contains, lemma_select_nothing,
    missing_from, names_missing, seen_before, select,
};
use crate::qnet::link_key_of;
use crate::request::{LinkDefinition, NodeDefinition, SatelliteConditions, TopologyDiff, TopologySnapshot};
use crate::validation::last_index_of;

verus! {

broadcast use vstd::seq_lib::group_seq_properties;

/// The identifiers of node definitions, in order.
pub open spec fn definition_ids(nodes: Seq<NodeDefinition>) -> Seq<Seq<char>> {
    nodes.map_values(|n: NodeDefinition| n.id@)
}

/// The keys of link definitions, in order.
pub open spec fn definition_keys(links: Seq<LinkDefinition>) -> Seq<Seq<char>> {
    links.map_values(|l: LinkDefinition| link_key_of(l.from_node@, l.to@))
}

/// `==` on optional satellite conditions.
pub open spec fn conditions_eq(a: Option<SatelliteConditions>, b: Option<SatelliteConditions>) -> bool {
    match (a, b) {
        (None, None) => true,
        (Some(x), Some(y)) => x.visibility.same_value(y.visibility) && x.weather_factor.same_value(
            y.weather_factor,
        ),
        _ => false,
    }
}

/// `==` on link definitions: every field equal.
pub open spec fn definition_eq(a: LinkDefinition, b: LinkDefinition) -> bool {
    &&& a.from_node@ == b.from_node@
    &&& a.to@ == b.to@
    &&& a.distance_km.same_value(b.distance_km)
    &&& a.base_fidelity.same_value(b.base_fidelity)
    &&& a.generation_rate_hz.same_value(b.generation_rate_hz)
    &&& a.link_type == b.link_type
    &&& conditions_eq(a.satellite_conditions, b.satellite_conditions)
}

/// `==` on link definitions.
pub fn definition_equals(a: &LinkDefinition, b: &LinkDefinition) -> (r: bool)
    ensures
        r == definition_eq(*a, *b),
        r ==> a.from_node@ == b.from_node@ && a.to@ == b.to@ && a.link_type == b.link_type,
        r ==> a.distance_km.same_value(b.distance_km) && a.base_fidelity.same_value(b.base_fidelity)
            && a.generation_rate_hz.same_value(b.generation_rate_hz),
{
    let same_conditions = match (&a.satellite_conditions, &b.satellite_conditions) {
        (None, None) => true,
        (Some(x), Some(y)) => x.visibility.equals(&y.visibility) && x.weather_factor.equals(
            &y.weather_factor,
        ),
        _ => false,
    };
    a.from_node == b.from_node && a.to == b.to && a.distance_km.equals(&b.distance_km)
        && a.base_fidelity.equals(&b.base_fidelity) && a.generation_rate_hz.equals(
        &b.generation_rate_hz,
    ) && a.link_type == b.link_type && same_conditions
}

/// The identifiers defined in both snapshots, in order of first occurrence in
/// the first.
pub open spec fn shared_ids(a: Seq<Seq<char>>, b: Seq<Seq<char>>) -> Seq<Seq<char>> {
    select(first_occurrences(a), |n: Seq<char>| b.contains(n))
}

/// The link keys of both snapshots whose last definitions differ.
pub open spec fn modified_definitions(s: Seq<LinkDefinition>, t: Seq<LinkDefinition>) -> Seq<Seq<char>> {
    select(
        first_occurrences(definition_keys(s)),
        |k: Seq<char>|
            definition_keys(t).contains(k) && !definition_eq(
                s[last_index_of(definition_keys(s), k).unwrap()],
                t[last_index_of(definition_keys(t), k).unwrap()],
            ),
    )
}

/// The lifetime the last definition of `id` gives it.
pub open spec fn last_lifetime(nodes: Seq<NodeDefinition>, id: Seq<char>) -> Binary64 {
    nodes[last_index_of(definition_ids(nodes), id).unwrap()].memory_lifetime_t2
}

/// The structural part of a snapshot comparison, and the lifetimes of the
/// nodes both snapshots define.
#[derive(Debug)]
pub struct SnapshotComparison {
    /// The diff without modified nodes and without a summary.
    pub diff: TopologyDiff,
    /// Each shared identifier with its lifetime in the first and in the second
    /// snapshot.
    pub shared_nodes: Vec<(String, Binary64, Binary64)>,
}

/// The identifiers of node definitions.
fn definition_names(nodes: &Vec<NodeDefinition>) -> (r: Vec<String>)
    ensures
        r.deep_view() == definition_ids(nodes@),
        r@.len() == nodes@.len(),
{
    let mut r: Vec<String> = Vec::new();
    let mut i: usize = 0;
    while i < nodes.len()
        invariant
            i <= nodes@.len(),
            r@.len() == i,
            forall|j: int| 0 <= j < i ==> #[trigger] r@[j]@ == nodes@[j].id@,
        decreases nodes.len() - i,
    {
        r.push(nodes[i].id.clone());
        i = i + 1;
    }
    assert(r.deep_view() =~= definition_ids(nodes@));
    r
}

/// The keys of link definitions.
fn definition_key_names(links: &Vec<LinkDefinition>) -> (r: Vec<String>)
    ensures
        r.deep_view() == definition_keys(links@),
        r@.len() == links@.len(),
{
    let mut r: Vec<String> = Vec::new();
    let mut i: usize = 0;
    while i < links.len()
        invariant
            i <= links@.len(),
            r@.len() == i,
            forall|j: int|
                0 <= j < i ==> #[trigger] r@[j]@ == link_key_of(links@[j].from_node@, links@[j].to@),
        decreases links.len() - i,
    {
        let mut key = links[i].from_node.clone();
        key.append("->");
        key.append(links[i].to.as_str());
        r.push(key);
        i = i + 1;
    }
    assert(r.deep_view() =~= definition_keys(links@));
    r
}

/// The identifiers of both lists with their last lifetimes.
fn shared_lifetimes(s: &Vec<NodeDefinition>, t: &Vec<NodeDefinition>) -> (r: Vec<(String, Binary64, Binary64)>)
    ensures
        r@.len() == shared_ids(definition_ids(s@), definition_ids(t@)).len(),
        forall|i: int|
            0 <= i < r@.len() ==> {
                let n = shared_ids(definition_ids(s@), definition_ids(t@))[i];
                &&& (#[trigger] r@[i]).0@ == n
                &&& r@[i].1 == last_lifetime(s@, n)
                &&& r@[i].2 == last_lifetime(t@, n)
            },
{
    let ours = definition_names(s);
    let theirs = definition_names(t);
    let ghost v = ours.deep_view();
    let ghost w = theirs.deep_view();
    let ghost keep = |n: Seq<char>| w.contains(n);
    let mut r: Vec<(String, Binary64, Binary64)> = Vec::new();
    let ghost mut names: Seq<Seq<char>> = seq![];
    let mut i: usize = 0;
    while i < ours.len()
        invariant
            i <= ours@.len(),
            v == ours.deep_view(),
            v == definition_ids(s@),
            w == theirs.deep_view(),
            w == definition_ids(t@),
            keep == (|n: Seq<char>| w.contains(n)),
            names == select(first_occurrences(v.subrange(0, i as int)), keep),
            r@.len() == names.len(),
            forall|j: int|
                0 <= j < r@.len() ==> {
                    &&& (#[trigger] r@[j]).0@ == names[j]
                    &&& r@[j].1 == last_lifetime(s@, names[j])
                    &&& r@[j].2 == last_lifetime(t@, names[j])
                },
        decreases ours.len() - i,
    {
        proof {
            lemma_grow(v, i as int, keep);
        }
        assert(ours@[i as int]@ == v[i as int]);
        if !seen_before(&ours, i) {
            if contains_name(&theirs, &ours[i]) {
                proof {
                    assert(v.contains(v[i as int]));
                    lemma_last_index_found(v, v[i as int]);
                    lemma_last_index_found(w, v[i as int]);
                }
                let a = last_position(&ours, &ours[i]);
                let b = last_position(&theirs, &ours[i]);
                match (a, b) {
                    (Some(x), Some(y)) => {
                        r.push((ours[i].clone(), s[x].memory_lifetime_t2, t[y].memory_lifetime_t2));
                        proof {
                            names = names.push(v[i as int]);
                        }
                    },
                    _ => {},
                }
            }
        }
        assert(names =~= select(first_occurrences(v.subrange(0, i + 1)), keep));
        i = i + 1;
    }
    assert(v.subrange(0, i as int) =~= v);
    r
}

/// The link keys of both lists whose last definitions differ.
fn changed_definitions(s: &Vec<LinkDefinition>, t: &Vec<LinkDefinition>) -> (r: Vec<String>)
    ensures
        r.deep_view() == modified_definitions(s@, t@),
{
    let ours = definition_key_names(s);
    let theirs = definition_key_names(t);
    let ghost v = ours.deep_view();
    let ghost keep = |k: Seq<char>|
        definition_keys(t@).contains(k) && !definition_eq(
            s@[last_index_of(definition_keys(s@), k).unwrap()],
            t@[last_index_of(definition_keys(t@), k).unwrap()],
        );
    let mut r: Vec<String> = Vec::new();
    let mut i: usize = 0;
    while i < ours.len()
        invariant
            i <= ours@.len(),
            v == ours.deep_view(),
            v == definition_keys(s@),
            theirs.deep_view() == definition_keys(t@),
            keep == (|k: Seq<char>|
                definition_keys(t@).contains(k) && !definition_eq(
                    s@[last_index_of(definition_keys(s@), k).unwrap()],
                    t@[last_index_of(definition_keys(t@), k).unwrap()],
                )),
            r.deep_view() == select(first_occurrences(v.subrange(0, i as int)), keep),
        decreases ours.len() - i,
    {
        proof {
            lemma_grow(v, i as int, keep);
        }
        assert(ours@[i as int]@ == v[i as int]);
        if !seen_before(&ours, i) {
            let mut changed = false;
            if contains_name(&theirs, &ours[i]) {
                proof {
                    assert(v.contains(v[i as int]));
                    lemma_last_index_found(v, v[i as int]);
                    lemma_last_index_found(theirs.deep_view(), v[i as int]);
                }
                let a = last_position(&ours, &ours[i]);
                let b = last_position(&theirs, &ours[i]);
                match (a, b) {
                    (Some(x), Some(y)) => {
                        changed = !definition_equals(&s[x], &t[y]);
                    },
                    _ => {},
                }
            }
            assert(changed == keep(v[i as int]));
            if changed {
                r.push(ours[i].clone());
            }
        }
        assert(r.deep_view() =~= select(first_occurrences(v.subrange(0, i + 1)), keep));
        i = i + 1;
    }
    assert(v.subrange(0, i as int) =~= v);
    r
}

/// Compares two snapshots: the diff is named `first vs second`; nodes and
/// links are added or removed by identifier and key, links are modified when
/// their last definitions differ. Modified nodes and the summary are left to
/// the caller, who judges the shared lifetimes.
pub fn compare_snapshots(first: &TopologySnapshot, second: &TopologySnapshot) -> (r: SnapshotComparison)
    ensures
        r.diff.name@ == first.metadata.name@ + " vs "@ + second.metadata.name@,
        r.diff.nodes_added.deep_view() == missing_from(
            definition_ids(second.nodes@),
            definition_ids(first.nodes@),
        ),
        r.diff.nodes_removed.deep_view() == missing_from(
            definition_ids(first.nodes@),
            definition_ids(second.nodes@),
        ),
        r.diff.nodes_modified@.len() == 0,
        r.diff.links_added.deep_view() == missing_from(
            definition_keys(second.links@),
            definition_keys(first.links@),
        ),
        r.diff.links_removed.deep_view() == missing_from(
            definition_keys(first.links@),
            definition_keys(second.links@),
        ),
        r.diff.links_modified.deep_view() == modified_definitions(first.links@, second.links@),
        r.diff.summary@.len() == 0,
        r.shared_nodes@.len() == shared_ids(definition_ids(first.nodes@), definition_ids(second.nodes@)).len(),
        forall|i: int|
            0 <= i < r.shared_nodes@.len() ==> {
                let n = shared_ids(definition_ids(first.nodes@), definition_ids(second.nodes@))[i];
                &&& (#[trigger] r.shared_nodes@[i]).0@ == n
                &&& r.shared_nodes@[i].1 == last_lifetime(first.nodes@, n)
                &&& r.shared_nodes@[i].2 == last_lifetime(second.nodes@, n)
            },
{
    let mut name = first.metadata.name.clone();
    name.append(" vs ");
    name.append(second.metadata.name.as_str());
    let mut diff = TopologyDiff::new(name.as_str());
    let ids1 = definition_names(&first.nodes);
    let ids2 = definition_names(&second.nodes);
    diff.nodes_removed = names_missing(&ids1, &ids2);
    diff.nodes_added = names_missing(&ids2, &ids1);
    let keys1 = definition_key_names(&first.links);
    let keys2 = definition_key_names(&second.links);
    diff.links_removed = names_missing(&keys1, &keys2);
    diff.links_modified = changed_definitions(&first.links, &second.links);
    diff.links_added = names_missing(&keys2, &keys1);
    let shared_nodes = shared_lifetimes(&first.nodes, &second.nodes);
    SnapshotComparison { diff, shared_nodes }
}

/// No quantity of the link definitions is a NaN.
pub open spec fn definitions_nan_free(links: Seq<LinkDefinition>) -> bool {
    forall|k: int|
        0 <= k < links.len() ==> {
            &&& !(#[trigger] links[k]).distance_km.nan()
            &&& !links[k].base_fidelity.nan()
            &&& !links[k].generation_rate_hz.nan()
            &&& (links[k].satellite_conditions matches Some(c) ==> !c.visibility.nan()
                && !c.weather_factor.nan())
        }
}

/// Selecting from names all of which are kept gives them all.
proof fn lemma_select_everything(names: Seq<Seq<char>>, keep: spec_fn(Seq<char>) -> bool)
    requires
        forall|i: int| 0 <= i < names.len() ==> keep(#[trigger] names[i]),
    ensures
        select(names, keep) == names,
    decreases names.len(),
{
    if names.len() > 0 {
        assert(keep(names[names.len() - 1]));
        lemma_select_everything(names.drop_last(), keep);
        assert(names.drop_last().push(names.last()) =~= names);
    }
}

/// A snapshot whose link quantities are not NaN compares equal to itself:
/// no node or link is added, removed or modified, and every node it defines
/// is shared, with its own lifetime on both sides.
pub proof fn law_self_comparison_is_empty(snap: TopologySnapshot)
    requires
        definitions_nan_free(snap.links@),
    ensures
        missing_from(definition_ids(snap.nodes@), definition_ids(snap.nodes@)) == Seq::<Seq<char>>::empty(),
        missing_from(definition_keys(snap.links@), definition_keys(snap.links@)) == Seq::<Seq<char>>::empty(),
        modified_definitions(snap.links@, snap.links@) == Seq::<Seq<char>>::empty(),
        shared_ids(definition_ids(snap.nodes@), definition_ids(snap.nodes@)) == first_occurrences(
            definition_ids(snap.nodes@),
        ),
{
    let ids = definition_ids(snap.nodes@);
    let keys = definition_keys(snap.links@);
    lemma_first_occurrences_within(ids);
    lemma_first_occurrences_within(keys);
    let fo = first_occurrences(ids);
    let fk = first_occurrences(keys);
    assert forall|i: int| 0 <= i < fo.len() implies ids.contains(#[trigger] fo[i]) by {
        assert(fo.contains(fo[i]));
    }
    assert forall|i: int| 0 <= i < fk.len() implies keys.contains(#[trigger] fk[i]) by {
        assert(fk.contains(fk[i]));
    }
    lemma_select_nothing(fo, |n: Seq<char>| !ids.contains(n));
    lemma_select_nothing(fk, |n: Seq<char>| !keys.contains(n));
    lemma_select_everything(fo, |n: Seq<char>| ids.contains(n));
    let link_keep = |k: Seq<char>|
        keys.contains(k) && !definition_eq(
            snap.links@[last_index_of(keys, k).unwrap()],
            snap.links@[last_index_of(keys, k).unwrap()],
        );
    assert forall|i: int| 0 <= i < fk.len() implies !link_keep(#[trigger] fk[i]) by {
        lemma_last_index_of_found(keys, fk[i]);
        lemma_last_index_found(keys, fk[i]);
        let k = last_index_of(keys, fk[i]).unwrap();
        assert(0 <= k < snap.links@.len());
        let l = snap.links@[k];
        assert(!l.distance_km.nan());
    }
    lemma_select_nothing(fk, link_keep);
}

/// A link key is listed as modified exactly when both snapshots define a link
/// under it and the last such definitions differ in some field: ends,
/// distance, fidelity, generation rate, type or satellite conditions.
pub proof fn law_modified_definitions_are_changed_shared_keys(
    s: Seq<LinkDefinition>,
    t: Seq<LinkDefinition>,
    k: Seq<char>,
)
    ensures
        modified_definitions(s, t).contains(k) <==> ({
            &&& definition_keys(s).contains(k)
            &&& definition_keys(t).contains(k)
            &&& ({
                let a = s[last_index_of(definition_keys(s), k).unwrap()];
                let b = t[last_index_of(definition_keys(t), k).unwrap()];
                ||| a.from_node@ != b.from_node@
                ||| a.to@ != b.to@
                ||| !a.distance_km.same_value(b.distance_km)
                ||| !a.base_fidelity.same_value(b.base_fidelity)
                ||| !a.generation_rate_hz.same_value(b.generation_rate_hz)
                ||| a.link_type != b.link_type
                ||| match (a.satellite_conditions, b.satellite_conditions) {
                    (None, None) => false,
                    (Some(x), Some(y)) => !x.visibility.same_value(y.visibility)
                        || !x.weather_factor.same_value(y.weather_factor),
                    _ => true,
                }
            })
        }),
{
    let keep = |k: Seq<char>|
        definition_keys(t).contains(k) && !definition_eq(
            s[last_index_of(definition_keys(s), k).unwrap()],
            t[last_index_of(definition_keys(t), k).unwrap()],
        );
    lemma_select_contains(first_occurrences(definition_keys(s)), keep, k);
    lemma_first_occurrences_contains(definition_keys(s), k);
}

/// A node or link is added exactly when only the second snapshot defines it,
/// removed exactly when only the first does, and a node is shared exactly
/// when both do.
pub proof fn law_snapshot_sides(first: TopologySnapshot, second: TopologySnapshot, k: Seq<char>)
    ensures
        missing_from(definition_ids(second.nodes@), definition_ids(first.nodes@)).contains(k) <==> definition_ids(
            second.nodes@,
        ).contains(k) && !definition_ids(first.nodes@).contains(k),
        missing_from(definition_ids(first.nodes@), definition_ids(second.nodes@)).contains(k) <==> definition_ids(
            first.nodes@,
        ).contains(k) && !definition_ids(second.nodes@).contains(k),
        missing_from(definition_keys(second.links@), definition_keys(first.links@)).contains(k)
            <==> definition_keys(second.links@).contains(k) && !definition_keys(first.links@).contains(k),
        missing_from(definition_keys(first.links@), definition_keys(second.links@)).contains(k)
            <==> definition_keys(first.links@).contains(k) && !definition_keys(second.links@).contains(k),
        shared_ids(definition_ids(first.nodes@), definition_ids(second.nodes@)).contains(k) <==> definition_ids(
            first.nodes@,
        ).contains(k) && definition_ids(second.nodes@).contains(k),
{
    let a = definition_ids(first.nodes@);
    let b = definition_ids(second.nodes@);
    let ka = definition_keys(first.links@);
    let kb = definition_keys(second.links@);
    lemma_first_occurrences_contains(a, k);
    lemma_first_occurrences_contains(b, k);
    lemma_first_occurrences_contains(ka, k);
    lemma_first_occurrences_contains(kb, k);
    lemma_select_contains(first_occurrences(b), |n: Seq<char>| !a.contains(n), k);
    lemma_select_contains(first_occurrences(a), |n: Seq<char>| !b.contains(n), k);
    lemma_select_contains(first_occurrences(kb), |n: Seq<char>| !ka.contains(n), k);
    lemma_select_contains(first_occurrences(ka), |n: Seq<char>| !kb.contains(n), k);
    lemma_select_contains(first_occurrences(a), |n: Seq<char>| b.contains(n), k);
}

} // verus!
