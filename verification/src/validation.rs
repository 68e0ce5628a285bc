//! Structural validation of `.qnet` files: duplicate node identifiers, links
//! that loop or name unknown nodes, out-of-range link attributes, and graph
//! connectivity.
use vstd::prelude::*;

use petgraph::algo::connected_components;
use petgraph::graph::{Graph, NodeIndex};

use crate::binary64::Binary64;
use crate::qnet::{opt_text, QNetFile, QNetLink, QNetNode};
use crate::text::{decimal, decimal_digits};

verus! {

broadcast use vstd::seq_lib::group_seq_properties;

/// What a validation error is about.
#[derive(Clone, Debug)]
#[allow(inconsistent_fields)]
pub enum ValidationErrorKind {
    DuplicateNodeId { id: String },
    UnknownNodeReference { node_id: String, link_id: Option<String> },
    SelfLoop { link_id: String },
    InvalidDistance { link_id: String, value: Binary64 },
    InvalidFidelity { link_id: String, value: Binary64 },
    InvalidGenerationRate { link_id: String, value: Binary64 },
    GraphDisconnected { component_count: usize },
}

/// The content of a validation error kind.
pub enum ErrorKindView {
    DuplicateNodeId(Seq<char>),
    UnknownNodeReference(Seq<char>, Option<Seq<char>>),
    SelfLoop(Seq<char>),
    InvalidDistance(Seq<char>, Binary64),
    InvalidFidelity(Seq<char>, Binary64),
    InvalidGenerationRate(Seq<char>, Binary64),
    GraphDisconnected(nat),
}

impl View for ValidationErrorKind {
    type V = ErrorKindView;

    open spec fn view(&self) -> ErrorKindView {
        match self {
            ValidationErrorKind::DuplicateNodeId { id } => ErrorKindView::DuplicateNodeId(id@),
            ValidationErrorKind::UnknownNodeReference { node_id, link_id } =>
                ErrorKindView::UnknownNodeReference(node_id@, opt_text(*link_id)),
            ValidationErrorKind::SelfLoop { link_id } => ErrorKindView::SelfLoop(link_id@),
            ValidationErrorKind::InvalidDistance { link_id, value } => ErrorKindView::InvalidDistance(
                link_id@,
                *value,
            ),
            ValidationErrorKind::InvalidFidelity { link_id, value } => ErrorKindView::InvalidFidelity(
                link_id@,
                *value,
            ),
            ValidationErrorKind::InvalidGenerationRate { link_id, value } =>
                ErrorKindView::InvalidGenerationRate(link_id@, *value),
            ValidationErrorKind::GraphDisconnected { component_count } =>
                ErrorKindView::GraphDisconnected(*component_count as nat),
        }
    }
}

/// A validation error: its kind, a message and an optional location.
#[derive(Clone, Debug)]
pub struct ValidationError {
    pub error_type: ValidationErrorKind,
    pub message: String,
    pub path: Option<String>,
}

/// The content of a validation error.
pub struct ErrorView {
    pub kind: ErrorKindView,
    pub message: Seq<char>,
    pub path: Option<Seq<char>>,
}

impl View for ValidationError {
    type V = ErrorView;

    open spec fn view(&self) -> ErrorView {
        ErrorView { kind: self.error_type@, message: self.message@, path: opt_text(self.path) }
    }
}

/// The error the validator reports for `kind`: an empty message and no location.
pub open spec fn reported(kind: ErrorKindView) -> ErrorView {
    ErrorView { kind, message: seq![], path: None }
}

/// A validation warning.
#[derive(Clone, Debug)]
pub struct ValidationWarning {
    pub warning_type: String,
    pub message: String,
    pub path: Option<String>,
}

/// The outcome of a validation: the errors and warnings found, and whether
/// the input is valid.
#[derive(Clone, Debug)]
pub struct ValidationResult {
    pub is_valid: bool,
    pub errors: Vec<ValidationError>,
    pub warnings: Vec<ValidationWarning>,
}

impl ValidationResult {
    /// The contents of the errors, in order.
    pub open spec fn error_views(self) -> Seq<ErrorView> {
        self.errors@.map_values(|e: ValidationError| e@)
    }

    /// The result holds exactly `kinds`, as reported errors; it is valid when
    /// there is no error.
    pub open spec fn reports(self, kinds: Seq<ErrorKindView>) -> bool {
        &&& self.error_views() == kinds.map_values(|k: ErrorKindView| reported(k))
        &&& self.is_valid == (kinds.len() == 0)
    }

    /// A valid result with no errors or warnings.
    pub fn new() -> (r: ValidationResult)
        ensures
            r.is_valid,
            r.errors@.len() == 0,
            r.warnings@.len() == 0,
            r.reports(seq![]),
    {
        let r = ValidationResult { is_valid: true, errors: Vec::new(), warnings: Vec::new() };
        assert(r.error_views() =~= Seq::<ErrorKindView>::empty().map_values(
            |k: ErrorKindView| reported(k),
        ));
        r
    }

    /// Records an error; the result is then invalid.
    pub fn add_error(&mut self, error: ValidationError)
        ensures
            final(self).errors@ == old(self).errors@.push(error),
            final(self).warnings@ == old(self).warnings@,
            !final(self).is_valid,
    {
        self.errors.push(error);
        self.is_valid = false;
    }

    /// Records a warning; validity is unchanged.
    pub fn add_warning(&mut self, warning: ValidationWarning)
        ensures
            final(self).warnings@ == old(self).warnings@.push(warning),
            final(self).errors@ == old(self).errors@,
            final(self).is_valid == old(self).is_valid,
    {
        self.warnings.push(warning);
    }

    /// Records the error `kind` with an empty message and no location.
    fn report(&mut self, kind: ValidationErrorKind, Ghost(kinds): Ghost<Seq<ErrorKindView>>)
        requires
            old(self).reports(kinds),
        ensures
            final(self).reports(kinds.push(kind@)),
            final(self).warnings@ == old(self).warnings@,
    {
        let e = ValidationError { error_type: kind, message: String::new(), path: None };
        self.add_error(e);
        proof {
            assert(self.error_views() =~= old(self).error_views().push(reported(kind@)));
            assert(kinds.push(kind@).map_values(|k: ErrorKindView| reported(k)) =~= kinds.map_values(
                |k: ErrorKindView| reported(k),
            ).push(reported(kind@)));
        }
    }
}

impl ValidationResult {
    /// Moves the errors of `other` after these ones.
    pub(crate) fn take_errors(
        &mut self,
        other: &mut ValidationResult,
        Ghost(mine): Ghost<Seq<ErrorKindView>>,
        Ghost(theirs): Ghost<Seq<ErrorKindView>>,
    )
        requires
            old(self).reports(mine),
            old(other).reports(theirs),
        ensures
            final(self).reports(mine + theirs),
            final(self).warnings@ == old(self).warnings@,
    {
        let had_errors = other.errors.len() > 0;
        self.errors.append(&mut other.errors);
        if had_errors {
            self.is_valid = false;
        }
        proof {
            assert(self.error_views() =~= old(self).error_views() + old(other).error_views());
            assert((mine + theirs).map_values(|k: ErrorKindView| reported(k)) =~= mine.map_values(
                |k: ErrorKindView| reported(k),
            ) + theirs.map_values(|k: ErrorKindView| reported(k)));
        }
    }
}

impl Default for ValidationResult {
    /// A valid result with no errors or warnings.
    fn default() -> (r: ValidationResult)
        ensures
            r.reports(seq![]),
            r.warnings@.len() == 0,
    {
        ValidationResult::new()
    }
}

/// The identifiers of `nodes`, in order.
pub open spec fn node_ids(nodes: Seq<QNetNode>) -> Seq<Seq<char>> {
    nodes.map_values(|n: QNetNode| n.id@)
}

/// One duplicate error for each identifier that already occurred earlier.
pub open spec fn duplicate_errors(ids: Seq<Seq<char>>) -> Seq<ErrorKindView>
    decreases ids.len(),
{
    if ids.len() == 0 {
        seq![]
    } else {
        duplicate_errors(ids.drop_last()) + if ids.drop_last().contains(ids.last()) {
            seq![ErrorKindView::DuplicateNodeId(ids.last())]
        } else {
            seq![]
        }
    }
}

/// How a link is named in errors: its identifier, or `unknown`.
pub open spec fn link_label(link: QNetLink) -> Seq<char> {
    match link.id {
        Some(s) => s@,
        None => "unknown"@,
    }
}

/// The errors of one link, in the order they are checked: a self loop, an
/// unknown start, an unknown end, a distance that is not greater than zero, a
/// fidelity outside `(0, 1]`, a generation rate that is not greater than zero.
/// A NaN quantity is in error.
pub open spec fn link_errors(ids: Seq<Seq<char>>, link: QNetLink) -> Seq<ErrorKindView> {
    let label = link_label(link);
    let zero = Binary64::spec_zero();
    let one = Binary64::spec_one();
    (if link.from@ == link.to@ {
        seq![ErrorKindView::SelfLoop(label)]
    } else {
        seq![]
    }) + (if !ids.contains(link.from@) {
        seq![ErrorKindView::UnknownNodeReference(link.from@, opt_text(link.id))]
    } else {
        seq![]
    }) + (if !ids.contains(link.to@) {
        seq![ErrorKindView::UnknownNodeReference(link.to@, opt_text(link.id))]
    } else {
        seq![]
    }) + (if !zero.below(link.distance_km) {
        seq![ErrorKindView::InvalidDistance(label, link.distance_km)]
    } else {
        seq![]
    }) + (if !(zero.below(link.base_fidelity) && link.base_fidelity.at_most(one)) {
        seq![ErrorKindView::InvalidFidelity(label, link.base_fidelity)]
    } else {
        seq![]
    }) + (if !zero.below(link.generation_rate_hz) {
        seq![ErrorKindView::InvalidGenerationRate(label, link.generation_rate_hz)]
    } else {
        seq![]
    })
}

/// The errors of all links, link after link.
pub open spec fn links_errors(ids: Seq<Seq<char>>, links: Seq<QNetLink>) -> Seq<ErrorKindView>
    decreases links.len(),
{
    if links.len() == 0 {
        seq![]
    } else {
        links_errors(ids, links.drop_last()) + link_errors(ids, links.last())
    }
}

/// The position of the last occurrence of `id`.
pub open spec fn last_index_of(ids: Seq<Seq<char>>, id: Seq<char>) -> Option<int>
    decreases ids.len(),
{
    if ids.len() == 0 {
        None
    } else if ids.last() == id {
        Some(ids.len() - 1)
    } else {
        last_index_of(ids.drop_last(), id)
    }
}

/// The graph edges of the links whose ends are both defined nodes; a name
/// defined twice stands for its last definition.
pub open spec fn graph_edges(ids: Seq<Seq<char>>, links: Seq<QNetLink>) -> Seq<(usize, usize)>
    decreases links.len(),
{
    if links.len() == 0 {
        seq![]
    } else {
        let l = links.last();
        graph_edges(ids, links.drop_last()) + match (
            last_index_of(ids, l.from@),
            last_index_of(ids, l.to@),
        ) {
            (Some(a), Some(b)) => seq![(a as usize, b as usize)],
            _ => seq![],
        }
    }
}

/// Whether an edge joins `a` and `b`, ignoring its direction.
pub open spec fn edge_between(edges: Seq<(usize, usize)>, a: int, b: int) -> bool {
    exists|e: int|
        0 <= e < edges.len() && ((edges[e].0 == a && edges[e].1 == b) || (edges[e].0 == b
            && edges[e].1 == a))
}

/// Whether a walk along edges, ignoring their direction, leads from `a` to `b`.
pub open spec fn weakly_joined(edges: Seq<(usize, usize)>, a: int, b: int) -> bool {
    exists|w: Seq<int>|
        w.len() > 0 && w[0] == a && w.last() == b && forall|i: int|
            0 <= i < w.len() - 1 ==> #[trigger] edge_between(edges, w[i], w[i + 1])
}

/// The number of weakly connected components of the graph with nodes
/// `0..node_count` and the given edges: one per node that no smaller node
/// reaches.
pub open spec fn weak_component_count(node_count: nat, edges: Seq<(usize, usize)>) -> nat {
    Set::new(
        |i: int| 0 <= i < node_count && forall|j: int| 0 <= j < i ==> !weakly_joined(edges, j, i),
    ).len()
}

/// `petgraph::algo::connected_components` on a directed `petgraph::Graph`
/// with `node_count` nodes and the given edges: the number of weakly
/// connected components. The graph's default 32-bit indices cap the number
/// of nodes and edges.
#[verifier::external_body]
fn count_weak_components(node_count: usize, edges: &Vec<(usize, usize)>) -> (r: usize)
    requires
        node_count < 0xFFFF_FFFF,
        edges@.len() < 0xFFFF_FFFF,
        forall|e: int| 0 <= e < edges@.len() ==> #[trigger] edges@[e].0 < node_count && edges@[e].1 < node_count,
    ensures
        r == weak_component_count(node_count as nat, edges@),
{
    let mut graph: Graph<(), (), petgraph::Directed> = Graph::new();
    for _ in 0..node_count {
        graph.add_node(());
    }
    for (a, b) in edges.iter() {
        graph.add_edge(NodeIndex::new(*a), NodeIndex::new(*b), ());
    }
    connected_components(&graph)
}

/// The position of the last node named `id`.
fn find_last_node(nodes: &Vec<QNetNode>, id: &String) -> (r: Option<usize>)
    ensures
        r == (match last_index_of(node_ids(nodes@), id@) {
            Some(k) => Some(k as usize),
            None => None,
        }),
        r matches Some(k) ==> k < nodes@.len(),
{
    let ghost ids = node_ids(nodes@);
    let mut i: usize = nodes.len();
    assert(ids.subrange(0, i as int) =~= ids);
    while i > 0
        invariant
            i <= nodes@.len(),
            ids == node_ids(nodes@),
            last_index_of(ids, id@) == last_index_of(ids.subrange(0, i as int), id@),
        decreases i,
    {
        assert(ids.subrange(0, i as int).drop_last() =~= ids.subrange(0, i - 1));
        if nodes[i - 1].id == *id {
            return Some(i - 1);
        }
        i = i - 1;
    }
    None
}

/// Whether a node named `id` is among `nodes`.
fn has_node_named(nodes: &Vec<QNetNode>, id: &String) -> (r: bool)
    ensures
        r == node_ids(nodes@).contains(id@),
{
    let ghost ids = node_ids(nodes@);
    let mut i: usize = 0;
    while i < nodes.len()
        invariant
            i <= nodes@.len(),
            ids == node_ids(nodes@),
            forall|j: int| 0 <= j < i ==> ids[j] != id@,
        decreases nodes.len() - i,
    {
        if nodes[i].id == *id {
            assert(ids[i as int] == id@);
            return true;
        }
        i = i + 1;
    }
    false
}

/// The number of weakly connected components of a file's node graph: every
/// node entry is a graph node, and a link whose ends are both defined is an
/// edge between the last entries with those names.
pub open spec fn component_count(nodes: Seq<QNetNode>, links: Seq<QNetLink>) -> nat {
    weak_component_count(nodes.len(), graph_edges(node_ids(nodes), links))
}

/// The connectivity error of a file's node graph: its component count when
/// there is more than one component.
pub open spec fn connectivity_errors(nodes: Seq<QNetNode>, links: Seq<QNetLink>) -> Seq<ErrorKindView> {
    if component_count(nodes, links) > 1 {
        seq![ErrorKindView::GraphDisconnected(component_count(nodes, links))]
    } else {
        seq![]
    }
}

/// The message of a disconnected graph of `count` components.
pub open spec fn disconnection_text(count: nat) -> Seq<char> {
    "Graph is disconnected with "@ + decimal_digits(count) + " components"@
}

/// The result warns of a disconnected node graph, with its component count,
/// and of nothing else; a connected graph gives no warning.
pub open spec fn warns_of_disconnection(r: ValidationResult, nodes: Seq<QNetNode>, links: Seq<QNetLink>) -> bool {
    if component_count(nodes, links) > 1 {
        &&& r.warnings@.len() == 1
        &&& r.warnings@[0].warning_type@ == "GraphDisconnected"@
        &&& r.warnings@[0].message@ == disconnection_text(component_count(nodes, links))
        &&& r.warnings@[0].path is None
    } else {
        r.warnings@.len() == 0
    }
}

/// Validation of the parts of a `.qnet` file.
pub struct QNetValidator;

impl QNetValidator {
    /// Reports each node whose identifier already occurred earlier.
    pub fn validate_nodes(nodes: &Vec<QNetNode>) -> (r: ValidationResult)
        ensures
            r.reports(duplicate_errors(node_ids(nodes@))),
            r.warnings@.len() == 0,
    {
        let ghost ids = node_ids(nodes@);
        let mut result = ValidationResult::new();
        let mut i: usize = 0;
        while i < nodes.len()
            invariant
                i <= nodes@.len(),
                ids == node_ids(nodes@),
                result.reports(duplicate_errors(ids.subrange(0, i as int))),
                result.warnings@.len() == 0,
            decreases nodes.len() - i,
        {
            let ghost before = duplicate_errors(ids.subrange(0, i as int));
            assert(ids.subrange(0, i + 1).drop_last() =~= ids.subrange(0, i as int));
            let mut seen = false;
            let mut j: usize = 0;
            while j < i
                invariant
                    j <= i < nodes@.len(),
                    ids == node_ids(nodes@),
                    seen == ids.subrange(0, j as int).contains(ids[i as int]),
                decreases i - j,
            {
                if nodes[j].id == nodes[i].id {
                    assert(ids.subrange(0, j + 1)[j as int] == ids[i as int]);
                    seen = true;
                }
                assert(ids.subrange(0, j + 1) =~= ids.subrange(0, j as int).push(ids[j as int]));
                j = j + 1;
            }
            if seen {
                result.report(
                    ValidationErrorKind::DuplicateNodeId { id: nodes[i].id.clone() },
                    Ghost(before),
                );
                assert(before.push(ErrorKindView::DuplicateNodeId(ids[i as int])) =~= duplicate_errors(
                    ids.subrange(0, i + 1),
                ));
            } else {
                assert(before =~= duplicate_errors(ids.subrange(0, i + 1)));
            }
            i = i + 1;
        }
        assert(ids.subrange(0, nodes@.len() as int) =~= ids);
        result
    }

    /// Reports, link after link, loops, unknown ends and attributes out of
    /// range.
    pub fn validate_links(nodes: &Vec<QNetNode>, links: &Vec<QNetLink>) -> (r: ValidationResult)
        ensures
            r.reports(links_errors(node_ids(nodes@), links@)),
            r.warnings@.len() == 0,
    {
        let ghost ids = node_ids(nodes@);
        let mut result = ValidationResult::new();
        let mut i: usize = 0;
        while i < links.len()
            invariant
                i <= links@.len(),
                ids == node_ids(nodes@),
                result.reports(links_errors(ids, links@.subrange(0, i as int))),
                result.warnings@.len() == 0,
            decreases links.len() - i,
        {
            let ghost acc = links_errors(ids, links@.subrange(0, i as int));
            assert(links@.subrange(0, i + 1).drop_last() =~= links@.subrange(0, i as int));
            assert(links@.subrange(0, i + 1).last() == links@[i as int]);
            Self::check_link(&mut result, nodes, &links[i], Ghost(acc));
            i = i + 1;
        }
        assert(links@.subrange(0, links@.len() as int) =~= links@);
        result
    }

    /// Records the errors of one link.
    fn check_link(
        result: &mut ValidationResult,
        nodes: &Vec<QNetNode>,
        link: &QNetLink,
        Ghost(acc): Ghost<Seq<ErrorKindView>>,
    )
        requires
            old(result).reports(acc),
        ensures
            final(result).reports(acc + link_errors(node_ids(nodes@), *link)),
            final(result).warnings@ == old(result).warnings@,
    {
    let ghost ids = node_ids(nodes@);
    let zero = Binary64::zero();
    let one = Binary64::one();
    let ghost label = link_label(*link);
        let ghost mut got = acc;
        if link.from == link.to {
            result.report( ValidationErrorKind::SelfLoop { link_id: Self::label(link) }, Ghost(got));
            proof {
                got = got.push(ErrorKindView::SelfLoop(label));
            }
        }
        if !has_node_named(nodes, &link.from) {
            result.report(
                ValidationErrorKind::UnknownNodeReference {
                    node_id: link.from.clone(),
                    link_id: link.id.clone(),
                },
                Ghost(got),
            );
            proof {
                got = got.push(ErrorKindView::UnknownNodeReference(link.from@, opt_text(link.id)));
            }
        }
        if !has_node_named(nodes, &link.to) {
            result.report(
                ValidationErrorKind::UnknownNodeReference {
                    node_id: link.to.clone(),
                    link_id: link.id.clone(),
                },
                Ghost(got),
            );
            proof {
                got = got.push(ErrorKindView::UnknownNodeReference(link.to@, opt_text(link.id)));
            }
        }
        if !zero.less_than(&link.distance_km) {
            result.report(
                ValidationErrorKind::InvalidDistance {
                    link_id: Self::label(link),
                    value: link.distance_km,
                },
                Ghost(got),
            );
            proof {
                got = got.push(ErrorKindView::InvalidDistance(label, link.distance_km));
            }
        }
        if !(zero.less_than(&link.base_fidelity) && link.base_fidelity.less_or_equal(&one)) {
            result.report(
                ValidationErrorKind::InvalidFidelity {
                    link_id: Self::label(link),
                    value: link.base_fidelity,
                },
                Ghost(got),
            );
            proof {
                got = got.push(ErrorKindView::InvalidFidelity(label, link.base_fidelity));
            }
        }
        if !zero.less_than(&link.generation_rate_hz) {
            result.report(
                ValidationErrorKind::InvalidGenerationRate {
                    link_id: Self::label(link),
                    value: link.generation_rate_hz,
                },
                Ghost(got),
            );
            proof {
                got = got.push(ErrorKindView::InvalidGenerationRate(label, link.generation_rate_hz));
            }
        }
        assert(got =~= acc + link_errors(ids, *link));
    }

    /// How a link is named in errors.
    fn label(link: &QNetLink) -> (r: String)
        ensures
            r@ == link_label(*link),
    {
        match &link.id {
            Some(s) => s.clone(),
            None => String::from_str("unknown"),
        }
    }

    /// Reports the number of weakly connected components of the node graph
    /// when there is more than one. Every node entry is a graph node; a link
    /// whose ends are both defined becomes an edge between the last entries
    /// with those names.
    pub fn validate_graph_connected(nodes: &Vec<QNetNode>, links: &Vec<QNetLink>) -> (r: ValidationResult)
        requires
            nodes@.len() < 0xFFFF_FFFF,
            links@.len() < 0xFFFF_FFFF,
        ensures
            r.reports(connectivity_errors(nodes@, links@)),
            r.warnings@.len() == 0,
    {
        let ghost ids = node_ids(nodes@);
        let mut edges: Vec<(usize, usize)> = Vec::new();
        let mut i: usize = 0;
        while i < links.len()
            invariant
                i <= links@.len(),
                links@.len() < 0xFFFF_FFFF,
                ids == node_ids(nodes@),
                edges@ == graph_edges(ids, links@.subrange(0, i as int)),
                edges@.len() <= i,
                forall|e: int|
                    0 <= e < edges@.len() ==> #[trigger] edges@[e].0 < nodes@.len() && edges@[e].1
                        < nodes@.len(),
            decreases links.len() - i,
        {
            assert(links@.subrange(0, i + 1).drop_last() =~= links@.subrange(0, i as int));
            let a = find_last_node(nodes, &links[i].from);
            let b = find_last_node(nodes, &links[i].to);
            match (a, b) {
                (Some(x), Some(y)) => {
                    edges.push((x, y));
                },
                _ => {},
            }
            assert(edges@ =~= graph_edges(ids, links@.subrange(0, i + 1)));
            i = i + 1;
        }
        assert(links@.subrange(0, links@.len() as int) =~= links@);
        let count = count_weak_components(nodes.len(), &edges);
        let mut result = ValidationResult::new();
        if count > 1 {
            let ghost none: Seq<ErrorKindView> = seq![];
            result.report(
                ValidationErrorKind::GraphDisconnected { component_count: count },
                Ghost(none),
            );
            assert(seq![].push(ErrorKindView::GraphDisconnected(count as nat)) =~= seq![
                ErrorKindView::GraphDisconnected(count as nat),
            ]);
        }
        result
    }

    /// Validates a whole file: the node errors, then the link errors. A
    /// disconnected graph is reported as a warning, which leaves the result's
    /// validity as the errors make it.
    pub fn validate_all(file: &QNetFile) -> (r: ValidationResult)
        requires
            file.nodes@.len() < 0xFFFF_FFFF,
            file.links@.len() < 0xFFFF_FFFF,
        ensures
            r.reports(
                duplicate_errors(node_ids(file.nodes@)) + links_errors(
                    node_ids(file.nodes@),
                    file.links@,
                ),
            ),
            warns_of_disconnection(r, file.nodes@, file.links@),
    {
        let ghost none: Seq<ErrorKindView> = seq![];
        let mut result = ValidationResult::new();
        let mut node_validation = Self::validate_nodes(&file.nodes);
        result.take_errors(
            &mut node_validation,
            Ghost(none),
            Ghost(duplicate_errors(node_ids(file.nodes@))),
        );
        let mut link_validation = Self::validate_links(&file.nodes, &file.links);
        result.take_errors(
            &mut link_validation,
            Ghost(duplicate_errors(node_ids(file.nodes@))),
            Ghost(links_errors(node_ids(file.nodes@), file.links@)),
        );
        assert(none + duplicate_errors(node_ids(file.nodes@)) =~= duplicate_errors(
            node_ids(file.nodes@),
        ));
        assert(result.warnings@.len() == 0);
        let connectivity = Self::validate_graph_connected(&file.nodes, &file.links);
        let ghost count = component_count(file.nodes@, file.links@);
        assert(connectivity.errors@.len() == connectivity.error_views().len());
        if connectivity.errors.len() > 0 {
            assert(count > 1);
            assert(connectivity.error_views()[0] == connectivity.errors@[0]@);
            assert(connectivity.errors@[0]@.kind == ErrorKindView::GraphDisconnected(count));
            match &connectivity.errors[0].error_type {
                ValidationErrorKind::GraphDisconnected { component_count } => {
                    assert(*component_count as nat == count);
                    result.add_warning(
                        ValidationWarning {
                            warning_type: String::from_str("GraphDisconnected"),
                            message: disconnection_message(*component_count),
                            path: None,
                        },
                    );
                },
                _ => {
                    assert(false);
                },
            }
        } else {
            assert(connectivity_errors(file.nodes@, file.links@).len() == 0);
        }
        result
    }
}

/// The text of a disconnection warning.
fn disconnection_message(count: usize) -> (r: String)
    ensures
        r@ == disconnection_text(count as nat),
{
    let mut s = String::from_str("Graph is disconnected with ");
    s.append(decimal(count).as_str());
    s.append(" components");
    s
}


/// Whatever `a` or `b` holds, their concatenation holds.
proof fn lemma_concat_holds<A>(a: Seq<A>, b: Seq<A>, x: A)
    ensures
        a.contains(x) ==> (a + b).contains(x),
        b.contains(x) ==> (a + b).contains(x),
        (a + b).contains(x) ==> a.contains(x) || b.contains(x),
{
    if (a + b).contains(x) {
        let j = choose|j: int| 0 <= j < (a + b).len() && (a + b)[j] == x;
        if j < a.len() {
            assert(a[j] == x);
        } else {
            assert(b[j - a.len()] == x);
        }
    }
    if a.contains(x) {
        let j = choose|j: int| 0 <= j < a.len() && a[j] == x;
        assert((a + b)[j] == x);
    }
    if b.contains(x) {
        let j = choose|j: int| 0 <= j < b.len() && b[j] == x;
        assert((a + b)[a.len() + j] == x);
    }
}

/// The errors of one link are none exactly when it breaks no rule, and hold
/// each rule it breaks.
proof fn lemma_one_link_errors(ids: Seq<Seq<char>>, l: QNetLink)
    ensures
        link_errors(ids, l).len() == 0 <==> ({
            &&& l.from@ != l.to@
            &&& ids.contains(l.from@)
            &&& ids.contains(l.to@)
            &&& Binary64::spec_zero().below(l.distance_km)
            &&& Binary64::spec_zero().below(l.base_fidelity)
            &&& l.base_fidelity.at_most(Binary64::spec_one())
            &&& Binary64::spec_zero().below(l.generation_rate_hz)
        }),
        l.from@ == l.to@ ==> link_errors(ids, l).contains(ErrorKindView::SelfLoop(link_label(l))),
        !ids.contains(l.from@) ==> link_errors(ids, l).contains(
            ErrorKindView::UnknownNodeReference(l.from@, opt_text(l.id)),
        ),
        !ids.contains(l.to@) ==> link_errors(ids, l).contains(
            ErrorKindView::UnknownNodeReference(l.to@, opt_text(l.id)),
        ),
        !Binary64::spec_zero().below(l.distance_km) ==> link_errors(ids, l).contains(
            ErrorKindView::InvalidDistance(link_label(l), l.distance_km),
        ),
        !(Binary64::spec_zero().below(l.base_fidelity) && l.base_fidelity.at_most(Binary64::spec_one()))
            ==> link_errors(ids, l).contains(ErrorKindView::InvalidFidelity(link_label(l), l.base_fidelity)),
        !Binary64::spec_zero().below(l.generation_rate_hz) ==> link_errors(ids, l).contains(
            ErrorKindView::InvalidGenerationRate(link_label(l), l.generation_rate_hz),
        ),
{
    let label = link_label(l);
    let zero = Binary64::spec_zero();
    let one = Binary64::spec_one();
    let p1: Seq<ErrorKindView> = if l.from@ == l.to@ { seq![ErrorKindView::SelfLoop(label)] } else { seq![] };
    let p2: Seq<ErrorKindView> = if !ids.contains(l.from@) {
        seq![ErrorKindView::UnknownNodeReference(l.from@, opt_text(l.id))]
    } else {
        seq![]
    };
    let p3: Seq<ErrorKindView> = if !ids.contains(l.to@) {
        seq![ErrorKindView::UnknownNodeReference(l.to@, opt_text(l.id))]
    } else {
        seq![]
    };
    let p4: Seq<ErrorKindView> = if !zero.below(l.distance_km) {
        seq![ErrorKindView::InvalidDistance(label, l.distance_km)]
    } else {
        seq![]
    };
    let p5: Seq<ErrorKindView> = if !(zero.below(l.base_fidelity) && l.base_fidelity.at_most(one)) {
        seq![ErrorKindView::InvalidFidelity(label, l.base_fidelity)]
    } else {
        seq![]
    };
    let p6: Seq<ErrorKindView> = if !zero.below(l.generation_rate_hz) {
        seq![ErrorKindView::InvalidGenerationRate(label, l.generation_rate_hz)]
    } else {
        seq![]
    };
    let e = link_errors(ids, l);
    assert(e == p1 + p2 + p3 + p4 + p5 + p6);
    assert(e.len() == p1.len() + p2.len() + p3.len() + p4.len() + p5.len() + p6.len());
    if p1.len() > 0 {
        assert(p1[0] == ErrorKindView::SelfLoop(label));
        assert(p1.contains(ErrorKindView::SelfLoop(label)));
    }
    if p2.len() > 0 {
        assert(p2[0] == ErrorKindView::UnknownNodeReference(l.from@, opt_text(l.id)));
        assert(p2.contains(ErrorKindView::UnknownNodeReference(l.from@, opt_text(l.id))));
    }
    if p3.len() > 0 {
        assert(p3[0] == ErrorKindView::UnknownNodeReference(l.to@, opt_text(l.id)));
        assert(p3.contains(ErrorKindView::UnknownNodeReference(l.to@, opt_text(l.id))));
    }
    if p4.len() > 0 {
        assert(p4[0] == ErrorKindView::InvalidDistance(label, l.distance_km));
        assert(p4.contains(ErrorKindView::InvalidDistance(label, l.distance_km)));
    }
    if p5.len() > 0 {
        assert(p5[0] == ErrorKindView::InvalidFidelity(label, l.base_fidelity));
        assert(p5.contains(ErrorKindView::InvalidFidelity(label, l.base_fidelity)));
    }
    if p6.len() > 0 {
        assert(p6[0] == ErrorKindView::InvalidGenerationRate(label, l.generation_rate_hz));
        assert(p6.contains(ErrorKindView::InvalidGenerationRate(label, l.generation_rate_hz)));
    }
    assert forall|x: ErrorKindView|
        p1.contains(x) || p2.contains(x) || p3.contains(x) || p4.contains(x) || p5.contains(x)
            || p6.contains(x) implies e.contains(x) by {
        lemma_concat_holds(p1, p2, x);
        lemma_concat_holds(p1 + p2, p3, x);
        lemma_concat_holds(p1 + p2 + p3, p4, x);
        lemma_concat_holds(p1 + p2 + p3 + p4, p5, x);
        lemma_concat_holds(p1 + p2 + p3 + p4 + p5, p6, x);
    }
}

/// The links pass validation exactly when each joins two distinct known nodes
/// and has a distance above zero, a fidelity above zero and at most one, and a
/// generation rate above zero. Each rule a link breaks is reported, naming the
/// link (or the offending end) and the value.
pub proof fn law_links_valid_exactly_when_sound(ids: Seq<Seq<char>>, links: Seq<QNetLink>)
    ensures
        links_errors(ids, links).len() == 0 <==> forall|i: int|
            0 <= i < links.len() ==> {
                let l = #[trigger] links[i];
                &&& l.from@ != l.to@
                &&& ids.contains(l.from@)
                &&& ids.contains(l.to@)
                &&& Binary64::spec_zero().below(l.distance_km)
                &&& Binary64::spec_zero().below(l.base_fidelity)
                &&& l.base_fidelity.at_most(Binary64::spec_one())
                &&& Binary64::spec_zero().below(l.generation_rate_hz)
            },
        forall|i: int|
            0 <= i < links.len() ==> {
                let l = #[trigger] links[i];
                let errors = links_errors(ids, links);
                &&& l.from@ == l.to@ ==> errors.contains(ErrorKindView::SelfLoop(link_label(l)))
                &&& !ids.contains(l.from@) ==> errors.contains(
                    ErrorKindView::UnknownNodeReference(l.from@, opt_text(l.id)),
                )
                &&& !ids.contains(l.to@) ==> errors.contains(
                    ErrorKindView::UnknownNodeReference(l.to@, opt_text(l.id)),
                )
                &&& !Binary64::spec_zero().below(l.distance_km) ==> errors.contains(
                    ErrorKindView::InvalidDistance(link_label(l), l.distance_km),
                )
                &&& !(Binary64::spec_zero().below(l.base_fidelity) && l.base_fidelity.at_most(
                    Binary64::spec_one(),
                )) ==> errors.contains(ErrorKindView::InvalidFidelity(link_label(l), l.base_fidelity))
                &&& !Binary64::spec_zero().below(l.generation_rate_hz) ==> errors.contains(
                    ErrorKindView::InvalidGenerationRate(link_label(l), l.generation_rate_hz),
                )
            },
    decreases links.len(),
{
    if links.len() > 0 {
        let init = links.drop_last();
        law_links_valid_exactly_when_sound(ids, init);
        let pre = links_errors(ids, init);
        let l = links.last();
        let e = link_errors(ids, l);
        lemma_one_link_errors(ids, l);
        assert(links_errors(ids, links) == pre + e);
        assert forall|x: ErrorKindView| pre.contains(x) || e.contains(x) implies (pre + e).contains(x) by {
            lemma_concat_holds(pre, e, x);
        }
        assert forall|i: int| 0 <= i < init.len() implies #[trigger] links[i] == init[i] by {}
        assert(links[links.len() - 1] == l);
    }
}

/// The nodes pass validation exactly when no identifier occurs twice, and an
/// identifier is reported as a duplicate exactly when it occurs twice.
pub proof fn law_duplicates_reported_exactly(ids: Seq<Seq<char>>)
    ensures
        duplicate_errors(ids).len() == 0 <==> forall|i: int, j: int|
            0 <= i < j < ids.len() ==> #[trigger] ids[i] != #[trigger] ids[j],
        forall|x: Seq<char>|
            #[trigger] duplicate_errors(ids).contains(ErrorKindView::DuplicateNodeId(x)) <==> exists|i: int, j: int|
                0 <= i < j < ids.len() && #[trigger] ids[i] == x && #[trigger] ids[j] == x,
    decreases ids.len(),
{
    if ids.len() > 0 {
        let init = ids.drop_last();
        law_duplicates_reported_exactly(init);
        let pre = duplicate_errors(init);
        let last = ids.last();
        let tail: Seq<ErrorKindView> = if init.contains(last) {
            seq![ErrorKindView::DuplicateNodeId(last)]
        } else {
            seq![]
        };
        assert(duplicate_errors(ids) == pre + tail);
        assert forall|i: int| 0 <= i < init.len() implies #[trigger] ids[i] == init[i] by {}
        if init.contains(last) {
            let k = choose|k: int| 0 <= k < init.len() && init[k] == last;
            assert(ids[k] == last && ids[ids.len() - 1] == last);
            assert(!(forall|i: int, j: int| 0 <= i < j < ids.len() ==> #[trigger] ids[i] != #[trigger] ids[j]));
        } else {
            assert forall|i: int, j: int|
                0 <= i < j < ids.len() && (forall|a: int, b: int|
                    0 <= a < b < init.len() ==> #[trigger] init[a] != #[trigger] init[b]) implies #[trigger] ids[i]
                != #[trigger] ids[j] by {
                if j == ids.len() - 1 {
                    assert(init[i] == ids[i]);
                } else {
                    assert(init[i] == ids[i] && init[j] == ids[j]);
                }
            }
        }
        assert forall|x: Seq<char>|
            #[trigger] duplicate_errors(ids).contains(ErrorKindView::DuplicateNodeId(x)) <==> exists|i: int, j: int|
                0 <= i < j < ids.len() && #[trigger] ids[i] == x && #[trigger] ids[j] == x by {
            let d = ErrorKindView::DuplicateNodeId(x);
            lemma_concat_holds(pre, tail, d);
            if pre.contains(d) {
                let (i, j) = choose|i: int, j: int| 0 <= i < j < init.len() && #[trigger] init[i] == x && #[trigger] init[j] == x;
                assert(ids[i] == x && ids[j] == x);
            }
            if tail.contains(d) {
                assert(tail[0] == d);
                let k = choose|k: int| 0 <= k < init.len() && init[k] == last;
                assert(ids[k] == x && ids[ids.len() - 1] == x);
            }
            if exists|i: int, j: int| 0 <= i < j < ids.len() && #[trigger] ids[i] == x && #[trigger] ids[j] == x {
                let (i, j) = choose|i: int, j: int| 0 <= i < j < ids.len() && #[trigger] ids[i] == x && #[trigger] ids[j] == x;
                if j == ids.len() - 1 {
                    assert(init[i] == x);
                    assert(init.contains(last));
                    assert(tail[0] == d);
                    assert(tail.contains(d));
                } else {
                    assert(init[i] == x && init[j] == x);
                }
            }
        }
    }
}

} // verus!
