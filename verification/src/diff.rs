//! Differences between two `.qnet` files.
//!
//! Nodes are matched by identifier and links by their `from->to` key; when a
//! file repeats an identifier or a key, its last record stands for it. The
//! identifiers and keys are reported in the order of their first occurrence.
use vstd::prelude::*;

use crate::binary64::{same_optional, Binary64};
use crate::json::{json_nan_free, lemma_json_eq_reflexive};
use crate::qnet::{
    link_equals, link_eq, link_key, link_key_of, node_eq, node_equals, opt_config_eq,
    opt_constraints_eq, opt_extensions_eq, opt_text, optional_config_equals,
    optional_constraints_equals, optional_extensions_equals, optional_text_equals, QNetConfig,
    QNetConstraints, QNetFile, QNetLink, QNetMetadata, QNetNode,
};
use crate::validation::{last_index_of, node_ids};

verus! {

broadcast use vstd::seq_lib::group_seq_properties;

/// Which metadata fields differ, with the old and new values.
#[derive(Clone, Debug)]
pub struct MetadataDiff {
    pub name_changed: Option<(String, String)>,
    pub description_changed: Option<(Option<String>, Option<String>)>,
    pub author_changed: Option<(Option<String>, Option<String>)>,
    pub created_at_changed: Option<(Option<String>, Option<String>)>,
}

/// Which configuration fields differ, with the old and new values.
#[derive(Clone, Copy, Debug)]
pub struct ConfigDiff {
    pub alpha_loss_changed: Option<(Option<Binary64>, Option<Binary64>)>,
    pub beta_fidelity_decay_changed: Option<(Option<Binary64>, Option<Binary64>)>,
    pub gamma_swapping_changed: Option<(Option<Binary64>, Option<Binary64>)>,
    pub max_attempts_changed: Option<(Option<u32>, Option<u32>)>,
}

/// Which constraint fields differ, with the old and new values.
#[derive(Clone, Copy, Debug)]
pub struct ConstraintsDiff {
    pub fidelity_target_changed: Option<(Option<Binary64>, Option<Binary64>)>,
    pub max_latency_ms_changed: Option<(Option<Binary64>, Option<Binary64>)>,
}

/// The differences between a source and a target file.
#[derive(Clone, Debug)]
pub struct QNetDiff {
    pub source_file: String,
    pub target_file: String,
    pub version_changed: Option<(String, String)>,
    pub metadata_changed: Option<MetadataDiff>,
    pub nodes_added: Vec<String>,
    pub nodes_removed: Vec<String>,
    pub nodes_modified: Vec<String>,
    pub links_added: Vec<String>,
    pub links_removed: Vec<String>,
    pub links_modified: Vec<String>,
    pub config_changed: Option<ConfigDiff>,
    pub constraints_changed: Option<ConstraintsDiff>,
    pub extensions_changed: Option<bool>,
    pub summary: String,
}

/// The text of a pair of strings.
pub open spec fn pair_text(p: Option<(String, String)>) -> Option<(Seq<char>, Seq<char>)> {
    match p {
        Some((a, b)) => Some((a@, b@)),
        None => None,
    }
}

/// The text of a pair of optional strings.
pub open spec fn opt_pair_text(p: Option<(Option<String>, Option<String>)>) -> Option<
    (Option<Seq<char>>, Option<Seq<char>>),
> {
    match p {
        Some((a, b)) => Some((opt_text(a), opt_text(b))),
        None => None,
    }
}

/// The change of an optional text field: the two values when they differ.
pub open spec fn text_change(a: Option<Seq<char>>, b: Option<Seq<char>>) -> Option<
    (Option<Seq<char>>, Option<Seq<char>>),
> {
    if a != b {
        Some((a, b))
    } else {
        None
    }
}

/// The content of a metadata diff.
pub struct MetadataChange {
    pub name: Option<(Seq<char>, Seq<char>)>,
    pub description: Option<(Option<Seq<char>>, Option<Seq<char>>)>,
    pub author: Option<(Option<Seq<char>>, Option<Seq<char>>)>,
    pub created_at: Option<(Option<Seq<char>>, Option<Seq<char>>)>,
}

impl View for MetadataDiff {
    type V = MetadataChange;

    open spec fn view(&self) -> MetadataChange {
        MetadataChange {
            name: pair_text(self.name_changed),
            description: opt_pair_text(self.description_changed),
            author: opt_pair_text(self.author_changed),
            created_at: opt_pair_text(self.created_at_changed),
        }
    }
}

/// The metadata diff of two files: present when any field differs, and then
/// holding the old and new value of each field that differs.
pub open spec fn metadata_changes(s: QNetMetadata, t: QNetMetadata) -> Option<MetadataChange> {
    if s.name@ != t.name@ || opt_text(s.description) != opt_text(t.description) || opt_text(
        s.author,
    ) != opt_text(t.author) || opt_text(s.created_at) != opt_text(t.created_at) {
        Some(
            MetadataChange {
                name: if s.name@ != t.name@ {
                    Some((s.name@, t.name@))
                } else {
                    None
                },
                description: text_change(opt_text(s.description), opt_text(t.description)),
                author: text_change(opt_text(s.author), opt_text(t.author)),
                created_at: text_change(opt_text(s.created_at), opt_text(t.created_at)),
            },
        )
    } else {
        None
    }
}

/// Removes one level of `Option`.
pub open spec fn flatten<T>(a: Option<Option<T>>) -> Option<T> {
    match a {
        Some(x) => x,
        None => None,
    }
}

/// `==` on a binary64 field read through an optional record: absent records
/// and absent fields are told apart.
pub open spec fn nested_same(a: Option<Option<Binary64>>, b: Option<Option<Binary64>>) -> bool {
    match (a, b) {
        (None, None) => true,
        (Some(x), Some(y)) => same_optional(x, y),
        _ => false,
    }
}

/// The change of a binary64 field read through optional records.
pub open spec fn number_change(a: Option<Option<Binary64>>, b: Option<Option<Binary64>>) -> Option<
    (Option<Binary64>, Option<Binary64>),
> {
    if nested_same(a, b) {
        None
    } else {
        Some((flatten(a), flatten(b)))
    }
}

/// The change of a count field read through optional records.
pub open spec fn count_change(a: Option<Option<u32>>, b: Option<Option<u32>>) -> Option<
    (Option<u32>, Option<u32>),
> {
    if a == b {
        None
    } else {
        Some((flatten(a), flatten(b)))
    }
}

/// The alpha loss of an optional configuration.
pub open spec fn alpha_of(c: Option<QNetConfig>) -> Option<Option<Binary64>> {
    match c {
        Some(x) => Some(x.alpha_loss),
        None => None,
    }
}

/// The fidelity decay of an optional configuration.
pub open spec fn beta_of(c: Option<QNetConfig>) -> Option<Option<Binary64>> {
    match c {
        Some(x) => Some(x.beta_fidelity_decay),
        None => None,
    }
}

/// The swapping factor of an optional configuration.
pub open spec fn gamma_of(c: Option<QNetConfig>) -> Option<Option<Binary64>> {
    match c {
        Some(x) => Some(x.gamma_swapping),
        None => None,
    }
}

/// The attempt limit of an optional configuration.
pub open spec fn attempts_of(c: Option<QNetConfig>) -> Option<Option<u32>> {
    match c {
        Some(x) => Some(x.max_attempts),
        None => None,
    }
}

/// The fidelity target of optional constraints.
pub open spec fn target_of(c: Option<QNetConstraints>) -> Option<Option<Binary64>> {
    match c {
        Some(x) => Some(x.fidelity_target),
        None => None,
    }
}

/// The latency limit of optional constraints.
pub open spec fn latency_of(c: Option<QNetConstraints>) -> Option<Option<Binary64>> {
    match c {
        Some(x) => Some(x.max_latency_ms),
        None => None,
    }
}

/// The configuration diff of two files: present when the configurations
/// differ, and then holding each field change.
pub open spec fn config_changes(s: Option<QNetConfig>, t: Option<QNetConfig>) -> Option<ConfigDiff> {
    if opt_config_eq(s, t) {
        None
    } else {
        Some(
            ConfigDiff {
                alpha_loss_changed: number_change(alpha_of(s), alpha_of(t)),
                beta_fidelity_decay_changed: number_change(beta_of(s), beta_of(t)),
                gamma_swapping_changed: number_change(gamma_of(s), gamma_of(t)),
                max_attempts_changed: count_change(attempts_of(s), attempts_of(t)),
            },
        )
    }
}

/// The constraints diff of two files: present when the constraints differ,
/// and then holding each field change.
pub open spec fn constraints_changes(s: Option<QNetConstraints>, t: Option<QNetConstraints>) -> Option<
    ConstraintsDiff,
> {
    if opt_constraints_eq(s, t) {
        None
    } else {
        Some(
            ConstraintsDiff {
                fidelity_target_changed: number_change(target_of(s), target_of(t)),
                max_latency_ms_changed: number_change(latency_of(s), latency_of(t)),
            },
        )
    }
}

/// The names in `names`, each once, in the order of first occurrence.
pub open spec fn first_occurrences(names: Seq<Seq<char>>) -> Seq<Seq<char>>
    decreases names.len(),
{
    if names.len() == 0 {
        seq![]
    } else if names.drop_last().contains(names.last()) {
        first_occurrences(names.drop_last())
    } else {
        first_occurrences(names.drop_last()).push(names.last())
    }
}

/// The names of `names` that satisfy `keep`, in order.
pub open spec fn select(names: Seq<Seq<char>>, keep: spec_fn(Seq<char>) -> bool) -> Seq<Seq<char>>
    decreases names.len(),
{
    if names.len() == 0 {
        seq![]
    } else if keep(names.last()) {
        select(names.drop_last(), keep).push(names.last())
    } else {
        select(names.drop_last(), keep)
    }
}

/// The names of `ours` that `theirs` lacks, each once.
pub open spec fn missing_from(ours: Seq<Seq<char>>, theirs: Seq<Seq<char>>) -> Seq<Seq<char>> {
    select(first_occurrences(ours), |n: Seq<char>| !theirs.contains(n))
}

/// The node identifiers of both files whose last records differ.
pub open spec fn modified_nodes(s: Seq<QNetNode>, t: Seq<QNetNode>) -> Seq<Seq<char>> {
    select(
        first_occurrences(node_ids(s)),
        |n: Seq<char>|
            node_ids(t).contains(n) && !node_eq(
                s[last_index_of(node_ids(s), n).unwrap()],
                t[last_index_of(node_ids(t), n).unwrap()],
            ),
    )
}

/// The keys of `links`, in order.
pub open spec fn link_keys(links: Seq<QNetLink>) -> Seq<Seq<char>> {
    links.map_values(|l: QNetLink| link_key_of(l.from@, l.to@))
}

/// The link keys of both files whose last records differ.
pub open spec fn modified_links(s: Seq<QNetLink>, t: Seq<QNetLink>) -> Seq<Seq<char>> {
    select(
        first_occurrences(link_keys(s)),
        |k: Seq<char>|
            link_keys(t).contains(k) && !link_eq(
                s[last_index_of(link_keys(s), k).unwrap()],
                t[last_index_of(link_keys(t), k).unwrap()],
            ),
    )
}

impl QNetDiff {
    /// An empty diff between the files named `source` and `target`.
    pub fn new(source: &str, target: &str) -> (r: QNetDiff)
        ensures
            r.source_file@ == source@,
            r.target_file@ == target@,
            r.version_changed is None,
            r.metadata_changed is None,
            r.nodes_added@.len() == 0,
            r.nodes_removed@.len() == 0,
            r.nodes_modified@.len() == 0,
            r.links_added@.len() == 0,
            r.links_removed@.len() == 0,
            r.links_modified@.len() == 0,
            r.config_changed is None,
            r.constraints_changed is None,
            r.extensions_changed is None,
            r.summary@.len() == 0,
    {
        QNetDiff {
            source_file: String::from_str(source),
            target_file: String::from_str(target),
            version_changed: None,
            metadata_changed: None,
            nodes_added: Vec::new(),
            nodes_removed: Vec::new(),
            nodes_modified: Vec::new(),
            links_added: Vec::new(),
            links_removed: Vec::new(),
            links_modified: Vec::new(),
            config_changed: None,
            constraints_changed: None,
            extensions_changed: None,
            summary: String::new(),
        }
    }
}

/// The metadata diff's content, if there is one.
pub open spec fn metadata_view(m: Option<MetadataDiff>) -> Option<MetadataChange> {
    match m {
        Some(d) => Some(d@),
        None => None,
    }
}

/// The identifiers of `nodes`.
fn node_names(nodes: &Vec<QNetNode>) -> (r: Vec<String>)
    ensures
        r.deep_view() == node_ids(nodes@),
        r@.len() == nodes@.len(),
{
    let mut r: Vec<String> = Vec::new();
    let mut i: usize = 0;
    while i < nodes.len()
        invariant
            i <= nodes@.len(),
            r@.len() == i,
            forall|j: int| 0 <= j < i ==> #[trigger] r@[j]@ == nodes@[j].id@,
        decreases nodes.len() - i,
    {
        r.push(nodes[i].id.clone());
        i = i + 1;
    }
    assert(r.deep_view() =~= node_ids(nodes@));
    r
}

/// The keys of `links`.
fn link_key_names(links: &Vec<QNetLink>) -> (r: Vec<String>)
    ensures
        r.deep_view() == link_keys(links@),
        r@.len() == links@.len(),
{
    let mut r: Vec<String> = Vec::new();
    let mut i: usize = 0;
    while i < links.len()
        invariant
            i <= links@.len(),
            r@.len() == i,
            forall|j: int|
                0 <= j < i ==> #[trigger] r@[j]@ == link_key_of(links@[j].from@, links@[j].to@),
        decreases links.len() - i,
    {
        r.push(link_key(&links[i]));
        i = i + 1;
    }
    assert(r.deep_view() =~= link_keys(links@));
    r
}

/// Whether `n` is among `names`.
pub(crate) fn contains_name(names: &Vec<String>, n: &String) -> (r: bool)
    ensures
        r == names.deep_view().contains(n@),
{
    let ghost v = names.deep_view();
    let mut i: usize = 0;
    while i < names.len()
        invariant
            i <= names@.len(),
            v == names.deep_view(),
            forall|j: int| 0 <= j < i ==> v[j] != n@,
        decreases names.len() - i,
    {
        if names[i] == *n {
            assert(v[i as int] == n@);
            return true;
        }
        i = i + 1;
    }
    false
}

/// Whether the name at `i` already occurs before `i`.
pub(crate) fn seen_before(names: &Vec<String>, i: usize) -> (r: bool)
    requires
        i < names@.len(),
    ensures
        r == names.deep_view().subrange(0, i as int).contains(names.deep_view()[i as int]),
{
    let ghost v = names.deep_view();
    let mut j: usize = 0;
    while j < i
        invariant
            j <= i < names@.len(),
            v == names.deep_view(),
            forall|k: int| 0 <= k < j ==> v[k] != v[i as int],
        decreases i - j,
    {
        if names[j] == names[i] {
            assert(v.subrange(0, i as int)[j as int] == v[i as int]);
            return true;
        }
        j = j + 1;
    }
    false
}

/// The position of the last occurrence of `n` among `names`.
pub(crate) fn last_position(names: &Vec<String>, n: &String) -> (r: Option<usize>)
    ensures
        r is None <==> last_index_of(names.deep_view(), n@) is None,
        r matches Some(k) ==> k < names@.len() && last_index_of(names.deep_view(), n@) == Some(
            k as int,
        ),
{
    let ghost v = names.deep_view();
    let mut i: usize = names.len();
    assert(v.subrange(0, i as int) =~= v);
    while i > 0
        invariant
            i <= names@.len(),
            v == names.deep_view(),
            last_index_of(v, n@) == last_index_of(v.subrange(0, i as int), n@),
        decreases i,
    {
        assert(v.subrange(0, i as int).drop_last() =~= v.subrange(0, i - 1));
        if names[i - 1] == *n {
            return Some(i - 1);
        }
        i = i - 1;
    }
    None
}

/// Unfolds the first occurrences and a selection of a prefix grown by one name.
pub(crate) proof fn lemma_grow(names: Seq<Seq<char>>, i: int, keep: spec_fn(Seq<char>) -> bool)
    requires
        0 <= i < names.len(),
    ensures
        first_occurrences(names.subrange(0, i + 1)) == if names.subrange(0, i).contains(names[i]) {
            first_occurrences(names.subrange(0, i))
        } else {
            first_occurrences(names.subrange(0, i)).push(names[i])
        },
        select(first_occurrences(names.subrange(0, i)).push(names[i]), keep) == if keep(names[i]) {
            select(first_occurrences(names.subrange(0, i)), keep).push(names[i])
        } else {
            select(first_occurrences(names.subrange(0, i)), keep)
        },
{
    assert(names.subrange(0, i + 1).drop_last() =~= names.subrange(0, i));
    assert(first_occurrences(names.subrange(0, i)).push(names[i]).drop_last() =~= first_occurrences(
        names.subrange(0, i),
    ));
}

/// The names of `ours` that `theirs` lacks, each once, in order.
pub(crate) fn names_missing(ours: &Vec<String>, theirs: &Vec<String>) -> (r: Vec<String>)
    ensures
        r.deep_view() == missing_from(ours.deep_view(), theirs.deep_view()),
{
    let ghost v = ours.deep_view();
    let ghost keep = |n: Seq<char>| !theirs.deep_view().contains(n);
    let mut r: Vec<String> = Vec::new();
    let mut i: usize = 0;
    while i < ours.len()
        invariant
            i <= ours@.len(),
            v == ours.deep_view(),
            keep == (|n: Seq<char>| !theirs.deep_view().contains(n)),
            r.deep_view() == select(first_occurrences(v.subrange(0, i as int)), keep),
        decreases ours.len() - i,
    {
        proof {
            lemma_grow(v, i as int, keep);
        }
        if !seen_before(ours, i) {
            if !contains_name(theirs, &ours[i]) {
                r.push(ours[i].clone());
            }
        }
        assert(r.deep_view() =~= select(first_occurrences(v.subrange(0, i + 1)), keep));
        i = i + 1;
    }
    assert(v.subrange(0, i as int) =~= v);
    r
}

/// The node identifiers of both lists whose last records differ.
fn changed_nodes(s: &Vec<QNetNode>, t: &Vec<QNetNode>) -> (r: Vec<String>)
    ensures
        r.deep_view() == modified_nodes(s@, t@),
{
    let ours = node_names(s);
    let theirs = node_names(t);
    let ghost v = ours.deep_view();
    let ghost keep = |n: Seq<char>|
        node_ids(t@).contains(n) && !node_eq(
            s@[last_index_of(node_ids(s@), n).unwrap()],
            t@[last_index_of(node_ids(t@), n).unwrap()],
        );
    let mut r: Vec<String> = Vec::new();
    let mut i: usize = 0;
    while i < ours.len()
        invariant
            i <= ours@.len(),
            v == ours.deep_view(),
            v == node_ids(s@),
            theirs.deep_view() == node_ids(t@),
            ours@.len() == s@.len(),
            theirs@.len() == t@.len(),
            keep == (|n: Seq<char>|
                node_ids(t@).contains(n) && !node_eq(
                    s@[last_index_of(node_ids(s@), n).unwrap()],
                    t@[last_index_of(node_ids(t@), n).unwrap()],
                )),
            r.deep_view() == select(first_occurrences(v.subrange(0, i as int)), keep),
        decreases ours.len() - i,
    {
        proof {
            lemma_grow(v, i as int, keep);
        }
        assert(ours@[i as int]@ == v[i as int]);
        if !seen_before(&ours, i) {
            let mut changed = false;
            if contains_name(&theirs, &ours[i]) {
                proof {
                    assert(v.contains(v[i as int]));
                    lemma_last_index_found(v, v[i as int]);
                    lemma_last_index_found(theirs.deep_view(), v[i as int]);
                }
                let a = last_position(&ours, &ours[i]);
                let b = last_position(&theirs, &ours[i]);
                match (a, b) {
                    (Some(x), Some(y)) => {
                        assert(x as int == last_index_of(node_ids(s@), v[i as int]).unwrap());
                        assert(y as int == last_index_of(node_ids(t@), v[i as int]).unwrap());
                        changed = !node_equals(&s[x], &t[y]);
                    },
                    _ => {},
                }
            }
            assert(changed == keep(v[i as int]));
            if changed {
                r.push(ours[i].clone());
            }
        }
        assert(r.deep_view() =~= select(first_occurrences(v.subrange(0, i + 1)), keep));
        i = i + 1;
    }
    assert(v.subrange(0, i as int) =~= v);
    r
}

/// The link keys of both lists whose last records differ.
fn changed_links(s: &Vec<QNetLink>, t: &Vec<QNetLink>) -> (r: Vec<String>)
    ensures
        r.deep_view() == modified_links(s@, t@),
{
    let ours = link_key_names(s);
    let theirs = link_key_names(t);
    let ghost v = ours.deep_view();
    let ghost keep = |k: Seq<char>|
        link_keys(t@).contains(k) && !link_eq(
            s@[last_index_of(link_keys(s@), k).unwrap()],
            t@[last_index_of(link_keys(t@), k).unwrap()],
        );
    let mut r: Vec<String> = Vec::new();
    let mut i: usize = 0;
    while i < ours.len()
        invariant
            i <= ours@.len(),
            v == ours.deep_view(),
            v == link_keys(s@),
            theirs.deep_view() == link_keys(t@),
            ours@.len() == s@.len(),
            theirs@.len() == t@.len(),
            keep == (|k: Seq<char>|
                link_keys(t@).contains(k) && !link_eq(
                    s@[last_index_of(link_keys(s@), k).unwrap()],
                    t@[last_index_of(link_keys(t@), k).unwrap()],
                )),
            r.deep_view() == select(first_occurrences(v.subrange(0, i as int)), keep),
        decreases ours.len() - i,
    {
        proof {
            lemma_grow(v, i as int, keep);
        }
        assert(ours@[i as int]@ == v[i as int]);
        if !seen_before(&ours, i) {
            let mut changed = false;
            if contains_name(&theirs, &ours[i]) {
                proof {
                    assert(v.contains(v[i as int]));
                    lemma_last_index_found(v, v[i as int]);
                    lemma_last_index_found(theirs.deep_view(), v[i as int]);
                }
                let a = last_position(&ours, &ours[i]);
                let b = last_position(&theirs, &ours[i]);
                match (a, b) {
                    (Some(x), Some(y)) => {
                        assert(x as int == last_index_of(link_keys(s@), v[i as int]).unwrap());
                        assert(y as int == last_index_of(link_keys(t@), v[i as int]).unwrap());
                        changed = !link_equals(&s[x], &t[y]);
                    },
                    _ => {},
                }
            }
            assert(changed == keep(v[i as int]));
            if changed {
                r.push(ours[i].clone());
            }
        }
        assert(r.deep_view() =~= select(first_occurrences(v.subrange(0, i + 1)), keep));
        i = i + 1;
    }
    assert(v.subrange(0, i as int) =~= v);
    r
}

/// A name that occurs has a last occurrence.
pub(crate) proof fn lemma_last_index_found(names: Seq<Seq<char>>, n: Seq<char>)
    requires
        names.contains(n),
    ensures
        last_index_of(names, n) is Some,
    decreases names.len(),
{
    if names.last() != n {
        let j = choose|j: int| 0 <= j < names.len() && names[j] == n;
        assert(names.drop_last()[j] == n);
        lemma_last_index_found(names.drop_last(), n);
    }
}

/// The change of an optional text field.
fn text_field_change(a: &Option<String>, b: &Option<String>) -> (r: Option<(Option<String>, Option<String>)>)
    ensures
        opt_pair_text(r) == text_change(opt_text(*a), opt_text(*b)),
{
    if !optional_text_equals(a, b) {
        Some((a.clone(), b.clone()))
    } else {
        None
    }
}

/// The metadata diff of two files.
fn metadata_diff(s: &QNetMetadata, t: &QNetMetadata) -> (r: Option<MetadataDiff>)
    ensures
        metadata_view(r) == metadata_changes(*s, *t),
{
    if s.name != t.name || !optional_text_equals(&s.description, &t.description)
        || !optional_text_equals(&s.author, &t.author) || !optional_text_equals(
        &s.created_at,
        &t.created_at,
    ) {
        let name_changed = if s.name != t.name {
            Some((s.name.clone(), t.name.clone()))
        } else {
            None
        };
        Some(
            MetadataDiff {
                name_changed,
                description_changed: text_field_change(&s.description, &t.description),
                author_changed: text_field_change(&s.author, &t.author),
                created_at_changed: text_field_change(&s.created_at, &t.created_at),
            },
        )
    } else {
        None
    }
}

/// The change of a binary64 field read through optional records.
fn number_field_change(a: Option<Option<Binary64>>, b: Option<Option<Binary64>>) -> (r: Option<
    (Option<Binary64>, Option<Binary64>),
>)
    ensures
        r == number_change(a, b),
{
    let same = match (a, b) {
        (None, None) => true,
        (Some(x), Some(y)) => crate::binary64::optional_equals(&x, &y),
        _ => false,
    };
    if same {
        None
    } else {
        let fa = match a {
            Some(x) => x,
            None => None,
        };
        let fb = match b {
            Some(y) => y,
            None => None,
        };
        Some((fa, fb))
    }
}

/// The configuration diff of two files.
fn config_diff(s: &Option<QNetConfig>, t: &Option<QNetConfig>) -> (r: Option<ConfigDiff>)
    ensures
        r == config_changes(*s, *t),
{
    if optional_config_equals(s, t) {
        return None;
    }
    let alpha = |c: &Option<QNetConfig>| -> (r: Option<Option<Binary64>>)
        ensures
            r == alpha_of(*c),
        {
            match c {
                Some(x) => Some(x.alpha_loss),
                None => None,
            }
        };
    let beta = |c: &Option<QNetConfig>| -> (r: Option<Option<Binary64>>)
        ensures
            r == beta_of(*c),
        {
            match c {
                Some(x) => Some(x.beta_fidelity_decay),
                None => None,
            }
        };
    let gamma = |c: &Option<QNetConfig>| -> (r: Option<Option<Binary64>>)
        ensures
            r == gamma_of(*c),
        {
            match c {
                Some(x) => Some(x.gamma_swapping),
                None => None,
            }
        };
    let sa: Option<Option<u32>> = match s {
        Some(x) => Some(x.max_attempts),
        None => None,
    };
    let ta: Option<Option<u32>> = match t {
        Some(x) => Some(x.max_attempts),
        None => None,
    };
    let attempts = if sa == ta {
        None
    } else {
        let fa = match sa {
            Some(x) => x,
            None => None,
        };
        let fb = match ta {
            Some(y) => y,
            None => None,
        };
        Some((fa, fb))
    };
    Some(
        ConfigDiff {
            alpha_loss_changed: number_field_change(alpha(s), alpha(t)),
            beta_fidelity_decay_changed: number_field_change(beta(s), beta(t)),
            gamma_swapping_changed: number_field_change(gamma(s), gamma(t)),
            max_attempts_changed: attempts,
        },
    )
}

/// The constraints diff of two files.
fn constraints_diff(s: &Option<QNetConstraints>, t: &Option<QNetConstraints>) -> (r: Option<
    ConstraintsDiff,
>)
    ensures
        r == constraints_changes(*s, *t),
{
    if optional_constraints_equals(s, t) {
        return None;
    }
    let st: Option<Option<Binary64>> = match s {
        Some(x) => Some(x.fidelity_target),
        None => None,
    };
    let tt: Option<Option<Binary64>> = match t {
        Some(x) => Some(x.fidelity_target),
        None => None,
    };
    let sl: Option<Option<Binary64>> = match s {
        Some(x) => Some(x.max_latency_ms),
        None => None,
    };
    let tl: Option<Option<Binary64>> = match t {
        Some(x) => Some(x.max_latency_ms),
        None => None,
    };
    Some(
        ConstraintsDiff {
            fidelity_target_changed: number_field_change(st, tt),
            max_latency_ms_changed: number_field_change(sl, tl),
        },
    )
}

/// Compares a source file with a target file. The summary is left empty: it
/// is rendered from this diff by the caller.
pub fn compare_qnet_files(
    source_path: &str,
    target_path: &str,
    source: &QNetFile,
    target: &QNetFile,
) -> (r: QNetDiff)
    ensures
        r.source_file@ == source_path@,
        r.target_file@ == target_path@,
        pair_text(r.version_changed) == if source.version@ != target.version@ {
            Some((source.version@, target.version@))
        } else {
            None
        },
        metadata_view(r.metadata_changed) == metadata_changes(source.metadata, target.metadata),
        r.nodes_added.deep_view() == missing_from(node_ids(target.nodes@), node_ids(source.nodes@)),
        r.nodes_removed.deep_view() == missing_from(node_ids(source.nodes@), node_ids(target.nodes@)),
        r.nodes_modified.deep_view() == modified_nodes(source.nodes@, target.nodes@),
        r.links_added.deep_view() == missing_from(link_keys(target.links@), link_keys(source.links@)),
        r.links_removed.deep_view() == missing_from(link_keys(source.links@), link_keys(target.links@)),
        r.links_modified.deep_view() == modified_links(source.links@, target.links@),
        r.config_changed == config_changes(source.config, target.config),
        r.constraints_changed == constraints_changes(source.constraints, target.constraints),
        r.extensions_changed == Some(!opt_extensions_eq(source.extensions, target.extensions)),
        r.summary@.len() == 0,
{
    let mut diff = QNetDiff::new(source_path, target_path);
    if source.version != target.version {
        diff.version_changed = Some((source.version.clone(), target.version.clone()));
    }
    diff.metadata_changed = metadata_diff(&source.metadata, &target.metadata);
    let source_nodes = node_names(&source.nodes);
    let target_nodes = node_names(&target.nodes);
    diff.nodes_removed = names_missing(&source_nodes, &target_nodes);
    diff.nodes_modified = changed_nodes(&source.nodes, &target.nodes);
    diff.nodes_added = names_missing(&target_nodes, &source_nodes);
    let source_links = link_key_names(&source.links);
    let target_links = link_key_names(&target.links);
    diff.links_removed = names_missing(&source_links, &target_links);
    diff.links_modified = changed_links(&source.links, &target.links);
    diff.links_added = names_missing(&target_links, &source_links);
    diff.config_changed = config_diff(&source.config, &target.config);
    diff.constraints_changed = constraints_diff(&source.constraints, &target.constraints);
    diff.extensions_changed = Some(!optional_extensions_equals(&source.extensions, &target.extensions));
    diff
}

/// No binary64 value in the file is a NaN.
pub open spec fn file_nan_free(f: QNetFile) -> bool {
    &&& forall|i: int|
        0 <= i < f.nodes@.len() ==> optional_nan_free((#[trigger] f.nodes@[i]).memory_lifetime_ms)
    &&& forall|i: int| 0 <= i < f.links@.len() ==> link_nan_free(#[trigger] f.links@[i])
    &&& (f.config matches Some(c) ==> optional_nan_free(c.alpha_loss) && optional_nan_free(
        c.beta_fidelity_decay,
    ) && optional_nan_free(c.gamma_swapping))
    &&& (f.constraints matches Some(c) ==> optional_nan_free(c.fidelity_target) && optional_nan_free(
        c.max_latency_ms,
    ))
    &&& (f.extensions matches Some(e) ==> (e.custom matches Some(v) ==> json_nan_free(v)))
}

/// An optional binary64 number that is not a NaN.
pub open spec fn optional_nan_free(x: Option<Binary64>) -> bool {
    (x matches Some(v) ==> !v.nan())
}

/// No binary64 value of the link is a NaN.
pub open spec fn link_nan_free(l: QNetLink) -> bool {
    &&& !l.distance_km.nan()
    &&& !l.base_fidelity.nan()
    &&& !l.generation_rate_hz.nan()
    &&& (l.satellite matches Some(c) ==> !c.visibility.nan() && !c.weather_factor.nan())
}

/// The position `last_index_of` finds holds the name.
pub(crate) proof fn lemma_last_index_of_found(names: Seq<Seq<char>>, n: Seq<char>)
    ensures
        last_index_of(names, n) matches Some(k) ==> 0 <= k < names.len() && names[k] == n,
    decreases names.len(),
{
    if names.len() > 0 && names.last() != n {
        lemma_last_index_of_found(names.drop_last(), n);
    }
}

/// First occurrences are occurrences.
pub(crate) proof fn lemma_first_occurrences_within(names: Seq<Seq<char>>)
    ensures
        forall|x: Seq<char>| #[trigger] first_occurrences(names).contains(x) ==> names.contains(x),
    decreases names.len(),
{
    if names.len() > 0 {
        lemma_first_occurrences_within(names.drop_last());
        assert forall|x: Seq<char>| #[trigger] first_occurrences(names).contains(x) implies names.contains(x) by {
            if first_occurrences(names.drop_last()).contains(x) {
                let j = choose|j: int| 0 <= j < names.drop_last().len() && names.drop_last()[j] == x;
                assert(names[j] == x);
            } else {
                assert(x == names.last());
                assert(names[names.len() - 1] == x);
            }
        }
    }
}

/// Selecting from names none of which is kept gives nothing.
pub(crate) proof fn lemma_select_nothing(names: Seq<Seq<char>>, keep: spec_fn(Seq<char>) -> bool)
    requires
        forall|i: int| 0 <= i < names.len() ==> !keep(#[trigger] names[i]),
    ensures
        select(names, keep) == Seq::<Seq<char>>::empty(),
    decreases names.len(),
{
    if names.len() > 0 {
        assert(!keep(names[names.len() - 1]));
        lemma_select_nothing(names.drop_last(), keep);
    }
}

/// A file without NaNs differs from itself in nothing: no node or link is
/// added, removed or modified, and neither the metadata, the configuration,
/// the constraints nor the extensions differ.
pub proof fn law_self_diff_is_empty(f: QNetFile)
    requires
        file_nan_free(f),
    ensures
        missing_from(node_ids(f.nodes@), node_ids(f.nodes@)) == Seq::<Seq<char>>::empty(),
        modified_nodes(f.nodes@, f.nodes@) == Seq::<Seq<char>>::empty(),
        missing_from(link_keys(f.links@), link_keys(f.links@)) == Seq::<Seq<char>>::empty(),
        modified_links(f.links@, f.links@) == Seq::<Seq<char>>::empty(),
        metadata_changes(f.metadata, f.metadata) is None,
        config_changes(f.config, f.config) is None,
        constraints_changes(f.constraints, f.constraints) is None,
        opt_extensions_eq(f.extensions, f.extensions),
{
    let ids = node_ids(f.nodes@);
    let keys = link_keys(f.links@);
    lemma_first_occurrences_within(ids);
    lemma_first_occurrences_within(keys);
    let fo = first_occurrences(ids);
    let fk = first_occurrences(keys);
    assert forall|i: int| 0 <= i < fo.len() implies ids.contains(#[trigger] fo[i]) by {
        assert(fo.contains(fo[i]));
    }
    assert forall|i: int| 0 <= i < fk.len() implies keys.contains(#[trigger] fk[i]) by {
        assert(fk.contains(fk[i]));
    }
    lemma_select_nothing(fo, |n: Seq<char>| !ids.contains(n));
    lemma_select_nothing(fk, |n: Seq<char>| !keys.contains(n));
    let node_keep = |n: Seq<char>|
        ids.contains(n) && !node_eq(
            f.nodes@[last_index_of(ids, n).unwrap()],
            f.nodes@[last_index_of(ids, n).unwrap()],
        );
    assert forall|i: int| 0 <= i < fo.len() implies !node_keep(#[trigger] fo[i]) by {
        lemma_last_index_of_found(ids, fo[i]);
        let k = last_index_of(ids, fo[i]).unwrap();
        assert(last_index_of(ids, fo[i]) is Some) by {
            lemma_last_index_found(ids, fo[i]);
        }
        assert(optional_nan_free(f.nodes@[k].memory_lifetime_ms));
    }
    lemma_select_nothing(fo, node_keep);
    let link_keep = |k: Seq<char>|
        keys.contains(k) && !link_eq(
            f.links@[last_index_of(keys, k).unwrap()],
            f.links@[last_index_of(keys, k).unwrap()],
        );
    assert forall|i: int| 0 <= i < fk.len() implies !link_keep(#[trigger] fk[i]) by {
        lemma_last_index_of_found(keys, fk[i]);
        lemma_last_index_found(keys, fk[i]);
        let k = last_index_of(keys, fk[i]).unwrap();
        assert(link_nan_free(f.links@[k]));
    }
    lemma_select_nothing(fk, link_keep);
    if let Some(e) = f.extensions {
        if let Some(v) = e.custom {
            lemma_json_eq_reflexive(v);
        }
    }
}


/// The first occurrences hold exactly the names that occur.
pub(crate) proof fn lemma_first_occurrences_contains(names: Seq<Seq<char>>, x: Seq<char>)
    ensures
        first_occurrences(names).contains(x) <==> names.contains(x),
    decreases names.len(),
{
    lemma_first_occurrences_within(names);
    if names.len() > 0 {
        let init = names.drop_last();
        lemma_first_occurrences_contains(init, x);
        if names.contains(x) {
            let j = choose|j: int| 0 <= j < names.len() && names[j] == x;
            if j < names.len() - 1 {
                assert(init[j] == x);
                assert(first_occurrences(init).contains(x));
                let m = choose|m: int| 0 <= m < first_occurrences(init).len() && first_occurrences(init)[m] == x;
                if !init.contains(names.last()) {
                    assert(first_occurrences(names)[m] == x);
                }
            } else {
                if init.contains(names.last()) {
                    assert(first_occurrences(init).contains(x));
                } else {
                    let fo = first_occurrences(names);
                    assert(fo[fo.len() - 1] == x);
                }
            }
        }
    }
}

/// A name is selected exactly when it is among the names and kept.
pub(crate) proof fn lemma_select_contains(names: Seq<Seq<char>>, keep: spec_fn(Seq<char>) -> bool, x: Seq<char>)
    ensures
        select(names, keep).contains(x) <==> names.contains(x) && keep(x),
    decreases names.len(),
{
    if names.len() > 0 {
        let init = names.drop_last();
        lemma_select_contains(init, keep, x);
        let prev = select(init, keep);
        if select(names, keep).contains(x) {
            let j = choose|j: int| 0 <= j < select(names, keep).len() && select(names, keep)[j] == x;
            if keep(names.last()) && j == prev.len() {
                assert(names[names.len() - 1] == x);
            } else {
                assert(prev[j] == x);
                let m = choose|m: int| 0 <= m < init.len() && init[m] == x;
                assert(names[m] == x);
            }
        }
        if names.contains(x) && keep(x) {
            let j = choose|j: int| 0 <= j < names.len() && names[j] == x;
            if j < names.len() - 1 {
                assert(init[j] == x);
                let m = choose|m: int| 0 <= m < prev.len() && prev[m] == x;
                if keep(names.last()) {
                    assert(select(names, keep)[m] == x);
                }
            } else {
                let sel = select(names, keep);
                assert(sel[sel.len() - 1] == x);
            }
        }
    }
}

/// The names of `ours` that a selection over first occurrences keeps.
proof fn lemma_selected_occurrence(ours: Seq<Seq<char>>, keep: spec_fn(Seq<char>) -> bool, x: Seq<char>)
    ensures
        select(first_occurrences(ours), keep).contains(x) <==> ours.contains(x) && keep(x),
{
    lemma_select_contains(first_occurrences(ours), keep, x);
    lemma_first_occurrences_contains(ours, x);
}

/// A link key is listed as modified exactly when both files have a link under
/// it and the last such links differ in some field: identifier, ends,
/// distance, fidelity, generation rate, type or satellite conditions.
pub proof fn law_modified_links_are_changed_shared_keys(s: Seq<QNetLink>, t: Seq<QNetLink>, k: Seq<char>)
    ensures
        modified_links(s, t).contains(k) <==> ({
            &&& link_keys(s).contains(k)
            &&& link_keys(t).contains(k)
            &&& ({
                let a = s[last_index_of(link_keys(s), k).unwrap()];
                let b = t[last_index_of(link_keys(t), k).unwrap()];
                ||| opt_text(a.id) != opt_text(b.id)
                ||| a.from@ != b.from@
                ||| a.to@ != b.to@
                ||| !a.distance_km.same_value(b.distance_km)
                ||| !a.base_fidelity.same_value(b.base_fidelity)
                ||| !a.generation_rate_hz.same_value(b.generation_rate_hz)
                ||| a.link_type != b.link_type
                ||| match (a.satellite, b.satellite) {
                    (None, None) => false,
                    (Some(x), Some(y)) => !x.visibility.same_value(y.visibility)
                        || !x.weather_factor.same_value(y.weather_factor),
                    _ => true,
                }
            })
        }),
{
    let keys = link_keys(s);
    lemma_selected_occurrence(
        keys,
        |k: Seq<char>|
            link_keys(t).contains(k) && !link_eq(
                s[last_index_of(link_keys(s), k).unwrap()],
                t[last_index_of(link_keys(t), k).unwrap()],
            ),
        k,
    );
}

/// A node identifier is listed as modified exactly when both files define it
/// and the last definitions differ in lifetime, capacity or type.
pub proof fn law_modified_nodes_are_changed_shared_ids(s: Seq<QNetNode>, t: Seq<QNetNode>, n: Seq<char>)
    ensures
        modified_nodes(s, t).contains(n) <==> ({
            &&& node_ids(s).contains(n)
            &&& node_ids(t).contains(n)
            &&& ({
                let a = s[last_index_of(node_ids(s), n).unwrap()];
                let b = t[last_index_of(node_ids(t), n).unwrap()];
                ||| a.id@ != b.id@
                ||| match (a.memory_lifetime_ms, b.memory_lifetime_ms) {
                    (None, None) => false,
                    (Some(x), Some(y)) => !x.same_value(y),
                    _ => true,
                }
                ||| a.memory_capacity != b.memory_capacity
                ||| a.node_type != b.node_type
            })
        }),
{
    lemma_selected_occurrence(
        node_ids(s),
        |n: Seq<char>|
            node_ids(t).contains(n) && !node_eq(
                s[last_index_of(node_ids(s), n).unwrap()],
                t[last_index_of(node_ids(t), n).unwrap()],
            ),
        n,
    );
}

/// A node or link is reported added exactly when only the target has it, and
/// removed exactly when only the source has it.
pub proof fn law_added_and_removed_are_one_sided(s: QNetFile, t: QNetFile, k: Seq<char>)
    ensures
        missing_from(node_ids(t.nodes@), node_ids(s.nodes@)).contains(k) <==> node_ids(t.nodes@).contains(k)
            && !node_ids(s.nodes@).contains(k),
        missing_from(node_ids(s.nodes@), node_ids(t.nodes@)).contains(k) <==> node_ids(s.nodes@).contains(k)
            && !node_ids(t.nodes@).contains(k),
        missing_from(link_keys(t.links@), link_keys(s.links@)).contains(k) <==> link_keys(t.links@).contains(k)
            && !link_keys(s.links@).contains(k),
        missing_from(link_keys(s.links@), link_keys(t.links@)).contains(k) <==> link_keys(s.links@).contains(k)
            && !link_keys(t.links@).contains(k),
{
    lemma_selected_occurrence(node_ids(t.nodes@), |n: Seq<char>| !node_ids(s.nodes@).contains(n), k);
    lemma_selected_occurrence(node_ids(s.nodes@), |n: Seq<char>| !node_ids(t.nodes@).contains(n), k);
    lemma_selected_occurrence(link_keys(t.links@), |n: Seq<char>| !link_keys(s.links@).contains(n), k);
    lemma_selected_occurrence(link_keys(s.links@), |n: Seq<char>| !link_keys(t.links@).contains(n), k);
}

/// The configuration diff is absent exactly when both files have no
/// configuration, or both have one that agrees in every field; otherwise it
/// holds, for each field, the two values when they differ and nothing when
/// they agree. A missing configuration counts as one whose fields are absent.
pub proof fn law_config_changes_report_each_field(s: Option<QNetConfig>, t: Option<QNetConfig>)
    ensures
        match (s, t) {
            (None, None) => config_changes(s, t) is None,
            (Some(x), Some(y)) => if same_optional(x.alpha_loss, y.alpha_loss) && same_optional(
                x.beta_fidelity_decay,
                y.beta_fidelity_decay,
            ) && same_optional(x.gamma_swapping, y.gamma_swapping) && x.max_attempts == y.max_attempts {
                config_changes(s, t) is None
            } else {
                config_changes(s, t) == Some(
                    ConfigDiff {
                        alpha_loss_changed: if same_optional(x.alpha_loss, y.alpha_loss) {
                            None
                        } else {
                            Some((x.alpha_loss, y.alpha_loss))
                        },
                        beta_fidelity_decay_changed: if same_optional(
                            x.beta_fidelity_decay,
                            y.beta_fidelity_decay,
                        ) {
                            None
                        } else {
                            Some((x.beta_fidelity_decay, y.beta_fidelity_decay))
                        },
                        gamma_swapping_changed: if same_optional(x.gamma_swapping, y.gamma_swapping) {
                            None
                        } else {
                            Some((x.gamma_swapping, y.gamma_swapping))
                        },
                        max_attempts_changed: if x.max_attempts == y.max_attempts {
                            None
                        } else {
                            Some((x.max_attempts, y.max_attempts))
                        },
                    },
                )
            },
            (Some(x), None) => config_changes(s, t) == Some(
                ConfigDiff {
                    alpha_loss_changed: Some((x.alpha_loss, None)),
                    beta_fidelity_decay_changed: Some((x.beta_fidelity_decay, None)),
                    gamma_swapping_changed: Some((x.gamma_swapping, None)),
                    max_attempts_changed: Some((x.max_attempts, None)),
                },
            ),
            (None, Some(y)) => config_changes(s, t) == Some(
                ConfigDiff {
                    alpha_loss_changed: Some((None, y.alpha_loss)),
                    beta_fidelity_decay_changed: Some((None, y.beta_fidelity_decay)),
                    gamma_swapping_changed: Some((None, y.gamma_swapping)),
                    max_attempts_changed: Some((None, y.max_attempts)),
                },
            ),
        },
{
}

/// The constraints diff is absent exactly when both files have no constraints,
/// or both have constraints that agree in every field; otherwise it holds, for
/// each field, the two values when they differ and nothing when they agree.
pub proof fn law_constraints_changes_report_each_field(s: Option<QNetConstraints>, t: Option<QNetConstraints>)
    ensures
        match (s, t) {
            (None, None) => constraints_changes(s, t) is None,
            (Some(x), Some(y)) => if same_optional(x.fidelity_target, y.fidelity_target) && same_optional(
                x.max_latency_ms,
                y.max_latency_ms,
            ) {
                constraints_changes(s, t) is None
            } else {
                constraints_changes(s, t) == Some(
                    ConstraintsDiff {
                        fidelity_target_changed: if same_optional(x.fidelity_target, y.fidelity_target) {
                            None
                        } else {
                            Some((x.fidelity_target, y.fidelity_target))
                        },
                        max_latency_ms_changed: if same_optional(x.max_latency_ms, y.max_latency_ms) {
                            None
                        } else {
                            Some((x.max_latency_ms, y.max_latency_ms))
                        },
                    },
                )
            },
            (Some(x), None) => constraints_changes(s, t) == Some(
                ConstraintsDiff {
                    fidelity_target_changed: Some((x.fidelity_target, None)),
                    max_latency_ms_changed: Some((x.max_latency_ms, None)),
                },
            ),
            (None, Some(y)) => constraints_changes(s, t) == Some(
                ConstraintsDiff {
                    fidelity_target_changed: Some((None, y.fidelity_target)),
                    max_latency_ms_changed: Some((None, y.max_latency_ms)),
                },
            ),
        },
{
}

/// The metadata diff is absent exactly when name, description, author and
/// creation time all agree; otherwise it holds the two values of each field
/// that differs and nothing for a field that agrees.
pub proof fn law_metadata_changes_report_each_field(s: QNetMetadata, t: QNetMetadata)
    ensures
        if s.name@ == t.name@ && opt_text(s.description) == opt_text(t.description) && opt_text(s.author)
            == opt_text(t.author) && opt_text(s.created_at) == opt_text(t.created_at) {
            metadata_changes(s, t) is None
        } else {
            metadata_changes(s, t) == Some(
                MetadataChange {
                    name: if s.name@ == t.name@ {
                        None
                    } else {
                        Some((s.name@, t.name@))
                    },
                    description: if opt_text(s.description) == opt_text(t.description) {
                        None
                    } else {
                        Some((opt_text(s.description), opt_text(t.description)))
                    },
                    author: if opt_text(s.author) == opt_text(t.author) {
                        None
                    } else {
                        Some((opt_text(s.author), opt_text(t.author)))
                    },
                    created_at: if opt_text(s.created_at) == opt_text(t.created_at) {
                        None
                    } else {
                        Some((opt_text(s.created_at), opt_text(t.created_at)))
                    },
                },
            )
        },
{
}

} // verus!
