//! Human-readable renderings of file diffs and validation results.
//!
//! The renderings hold a few binary64 values; their decimal text is produced
//! by the caller's number formatting and handed in, and each contract names
//! where that text is placed.
use vstd::prelude::*;

use crate::diff::{metadata_view, pair_text, MetadataChange, MetadataDiff, QNetDiff};
use crate::qnet::opt_text;
use crate::text::{
    begins_with, concat_all, contains_text, decimal, decimal_digits, ends_with, lemma_begins_extend,
    lemma_concat_contains_parts, lemma_contains_extend, lemma_contains_first, lemma_contains_last,
    lemma_contains_trans, lemma_split_ends,
};
use crate::validation::{ErrorKindView, ErrorView, ValidationError, ValidationErrorKind, ValidationResult, ValidationWarning};

verus! {

broadcast use vstd::seq_lib::group_seq_properties;

/// The names joined with `", "`.
pub open spec fn joined(names: Seq<Seq<char>>) -> Seq<char>
    decreases names.len(),
{
    if names.len() == 0 {
        seq![]
    } else if names.len() == 1 {
        names[0]
    } else {
        joined(names.drop_last()) + ", "@ + names.last()
    }
}

/// A summary line listing `names` under `label`, or nothing when there are none.
pub open spec fn list_line(label: Seq<char>, names: Seq<Seq<char>>) -> Seq<char> {
    if names.len() == 0 {
        seq![]
    } else {
        "  "@ + label + ": "@ + decimal_digits(names.len()) + " ("@ + joined(names) + ")\n"@
    }
}

/// The version line of a summary.
pub open spec fn version_lines(v: Option<(Seq<char>, Seq<char>)>) -> Seq<char> {
    match v {
        Some((a, b)) => "  Version: "@ + a + " -> "@ + b + "\n"@,
        None => seq![],
    }
}

/// The line of a changed name.
pub open spec fn name_line(n: Option<(Seq<char>, Seq<char>)>) -> Seq<char> {
    match n {
        Some((a, b)) => "     - name: '"@ + a + "' -> '"@ + b + "'\n"@,
        None => seq![],
    }
}

/// The metadata lines of a summary: a heading, and the name change if any.
pub open spec fn metadata_lines(m: Option<MetadataChange>) -> Seq<char> {
    match m {
        Some(c) => "  Metadata changes:\n"@ + name_line(c.name),
        None => seq![],
    }
}

/// The line of a changed numeric field, given the texts of its two values.
pub open spec fn change_line(field: Seq<char>, texts: Option<(Seq<char>, Seq<char>)>) -> Seq<char> {
    match texts {
        Some((a, b)) => "     - "@ + field + ": "@ + a + " -> "@ + b + "\n"@,
        None => seq![],
    }
}

/// A section of numeric changes: present when the section changed, with the
/// line of its one reported field.
pub open spec fn section_lines(
    changed: bool,
    heading: Seq<char>,
    field: Seq<char>,
    texts: Option<(Seq<char>, Seq<char>)>,
) -> Seq<char> {
    if changed {
        heading + change_line(field, texts)
    } else {
        seq![]
    }
}

/// The summary of a file diff. `alpha` and `fidelity` are the texts of the
/// old and new alpha loss and fidelity target when those changed.
pub open spec fn diff_summary(
    d: QNetDiff,
    alpha: Option<(Seq<char>, Seq<char>)>,
    fidelity: Option<(Seq<char>, Seq<char>)>,
) -> Seq<char> {
    "Diff between '"@ + d.source_file@ + "' and '"@ + d.target_file@ + "':\n"@ + version_lines(
        pair_text(d.version_changed),
    ) + metadata_lines(metadata_view(d.metadata_changed)) + list_line(
        "Nodes added"@,
        d.nodes_added.deep_view(),
    ) + list_line("Nodes removed"@, d.nodes_removed.deep_view()) + list_line(
        "Nodes modified"@,
        d.nodes_modified.deep_view(),
    ) + list_line("Links added"@, d.links_added.deep_view()) + list_line(
        "Links removed"@,
        d.links_removed.deep_view(),
    ) + list_line("Links modified"@, d.links_modified.deep_view()) + section_lines(
        d.config_changed is Some,
        "  Config changes:\n"@,
        "alpha_loss"@,
        alpha,
    ) + section_lines(
        d.constraints_changed is Some,
        "  Constraints changes:\n"@,
        "fidelity_target"@,
        fidelity,
    ) + if d.extensions_changed == Some(true) {
        "  Extensions changed\n"@
    } else {
        seq![]
    }
}

/// The names joined with `", "`.
fn join_names(names: &Vec<String>) -> (r: String)
    ensures
        r@ == joined(names.deep_view()),
{
    let ghost v = names.deep_view();
    let mut s = String::new();
    let mut i: usize = 0;
    while i < names.len()
        invariant
            i <= names@.len(),
            v == names.deep_view(),
            s@ == joined(v.subrange(0, i as int)),
        decreases names.len() - i,
    {
        let ghost before = s@;
        assert(v.subrange(0, i + 1).drop_last() =~= v.subrange(0, i as int));
        if i > 0 {
            s.append(", ");
        }
        s.append(names[i].as_str());
        proof {
            if i == 0 {
                assert(before =~= Seq::<char>::empty());
                assert(s@ =~= v[0]);
            }
        }
        i = i + 1;
    }
    assert(v.subrange(0, i as int) =~= v);
    s
}

/// A summary line listing `names` under `label`.
fn list_block(label: &str, names: &Vec<String>) -> (r: String)
    ensures
        r@ == list_line(label@, names.deep_view()),
{
    if names.len() == 0 {
        return String::new();
    }
    let mut s = String::from_str("  ");
    s.append(label);
    s.append(": ");
    s.append(decimal(names.len()).as_str());
    s.append(" (");
    s.append(join_names(names).as_str());
    s.append(")\n");
    s
}

/// The line of a changed numeric field.
fn change_block(field: &str, texts: &Option<(String, String)>) -> (r: String)
    ensures
        r@ == change_line(field@, pair_text(*texts)),
{
    match texts {
        Some((a, b)) => {
            let mut s = String::from_str("     - ");
            s.append(field);
            s.append(": ");
            s.append(a.as_str());
            s.append(" -> ");
            s.append(b.as_str());
            s.append("\n");
            s
        },
        None => String::new(),
    }
}

/// A section of numeric changes.
fn section_block(changed: bool, heading: &str, field: &str, texts: &Option<(String, String)>) -> (r: String)
    ensures
        r@ == section_lines(changed, heading@, field@, pair_text(*texts)),
{
    if changed {
        let mut s = String::from_str(heading);
        s.append(change_block(field, texts).as_str());
        s
    } else {
        String::new()
    }
}

/// The version line of a summary.
fn version_block(v: &Option<(String, String)>) -> (r: String)
    ensures
        r@ == version_lines(pair_text(*v)),
{
    match v {
        Some((a, b)) => {
            let mut s = String::from_str("  Version: ");
            s.append(a.as_str());
            s.append(" -> ");
            s.append(b.as_str());
            s.append("\n");
            s
        },
        None => String::new(),
    }
}

/// The metadata lines of a summary.
fn metadata_block(m: &Option<MetadataDiff>) -> (r: String)
    ensures
        r@ == metadata_lines(metadata_view(*m)),
{
    match m {
        Some(d) => {
            let mut s = String::from_str("  Metadata changes:\n");
            let line = match &d.name_changed {
                Some((a, b)) => {
                    let mut l = String::from_str("     - name: '");
                    l.append(a.as_str());
                    l.append("' -> '");
                    l.append(b.as_str());
                    l.append("'\n");
                    l
                },
                None => String::new(),
            };
            s.append(line.as_str());
            s
        },
        None => String::new(),
    }
}

impl QNetDiff {
    /// The summary of this diff: a heading naming both files, then a line or
    /// section for each kind of change. `alpha_loss_texts` holds the texts of
    /// the old and new alpha loss exactly when the diff reports that change,
    /// and `fidelity_target_texts` those of the fidelity target likewise.
    pub fn generate_summary(
        &self,
        alpha_loss_texts: &Option<(String, String)>,
        fidelity_target_texts: &Option<(String, String)>,
    ) -> (r: String)
        requires
            alpha_loss_texts is Some <==> (self.config_changed matches Some(c)
                && c.alpha_loss_changed is Some),
            fidelity_target_texts is Some <==> (self.constraints_changed matches Some(c)
                && c.fidelity_target_changed is Some),
        ensures
            r@ == diff_summary(*self, pair_text(*alpha_loss_texts), pair_text(*fidelity_target_texts)),
    {
        let mut s = String::from_str("Diff between '");
        s.append(self.source_file.as_str());
        s.append("' and '");
        s.append(self.target_file.as_str());
        s.append("':\n");
        s.append(version_block(&self.version_changed).as_str());
        s.append(metadata_block(&self.metadata_changed).as_str());
        s.append(list_block("Nodes added", &self.nodes_added).as_str());
        s.append(list_block("Nodes removed", &self.nodes_removed).as_str());
        s.append(list_block("Nodes modified", &self.nodes_modified).as_str());
        s.append(list_block("Links added", &self.links_added).as_str());
        s.append(list_block("Links removed", &self.links_removed).as_str());
        s.append(list_block("Links modified", &self.links_modified).as_str());
        s.append(
            section_block(
                self.config_changed.is_some(),
                "  Config changes:\n",
                "alpha_loss",
                alpha_loss_texts,
            ).as_str(),
        );
        s.append(
            section_block(
                self.constraints_changed.is_some(),
                "  Constraints changes:\n",
                "fidelity_target",
                fidelity_target_texts,
            ).as_str(),
        );
        let extensions = if self.extensions_changed == Some(true) {
            String::from_str("  Extensions changed\n")
        } else {
            String::new()
        };
        s.append(extensions.as_str());
        s
    }
}

/// The location suffix of an error: ` [path]`, or nothing.
pub open spec fn path_suffix(path: Option<Seq<char>>) -> Seq<char> {
    match path {
        Some(p) => " ["@ + p + "]"@,
        None => seq![],
    }
}

/// The link suffix of an unknown-node error: ` in link 'id'`, or nothing.
pub open spec fn link_suffix(link: Option<Seq<char>>) -> Seq<char> {
    match link {
        Some(l) => " in link '"@ + l + "'"@,
        None => seq![],
    }
}

/// The text of a validation error. `value` is the text of the number that an
/// invalid distance, fidelity or generation rate carries; the other kinds
/// carry none and ignore it.
pub open spec fn error_text(e: ErrorView, value: Seq<char>) -> Seq<char> {
    match e.kind {
        ErrorKindView::DuplicateNodeId(id) => "Duplicate node ID: "@ + id + path_suffix(e.path),
        ErrorKindView::UnknownNodeReference(node, link) => "Unknown node reference '"@ + node + "'"@
            + link_suffix(link) + path_suffix(e.path),
        ErrorKindView::SelfLoop(link) => "Self-loop detected in link '"@ + link + "'"@,
        ErrorKindView::InvalidDistance(link, _) => "Invalid distance "@ + value + " km for link '"@
            + link + "' (must be > 0)"@ + path_suffix(e.path),
        ErrorKindView::InvalidFidelity(link, _) => "Invalid fidelity "@ + value + " for link '"@
            + link + "' (must be 0 < x <= 1)"@ + path_suffix(e.path),
        ErrorKindView::InvalidGenerationRate(link, _) => "Invalid generation rate "@ + value
            + " Hz for link '"@ + link + "' (must be > 0)"@ + path_suffix(e.path),
        ErrorKindView::GraphDisconnected(count) => "Graph is disconnected with "@ + decimal_digits(
            count,
        ) + " components"@ + path_suffix(e.path),
    }
}

/// The report lines of the first `n` errors, each with its number text.
pub open spec fn error_lines(errors: Seq<ErrorView>, values: Seq<Seq<char>>, n: int) -> Seq<char>
    decreases n,
{
    if n <= 0 {
        seq![]
    } else {
        error_lines(errors, values, n - 1) + "   - "@ + error_text(errors[n - 1], values[n - 1]) + "\n"@
    }
}

/// The report line of a warning: its message and its location, or `unknown`.
pub open spec fn warning_line(w: ValidationWarning) -> Seq<char> {
    "   - "@ + w.message@ + " ["@ + match opt_text(w.path) {
        Some(p) => p,
        None => "unknown"@,
    } + "]\n"@
}

/// The report lines of the first `n` warnings.
pub open spec fn warning_lines(warnings: Seq<ValidationWarning>, n: int) -> Seq<char>
    decreases n,
{
    if n <= 0 {
        seq![]
    } else {
        warning_lines(warnings, n - 1) + warning_line(warnings[n - 1])
    }
}

/// The report of a validation result: whether it passed, then its errors and
/// its warnings, each list under a heading when it is not empty. `values`
/// holds, for each error, the text of the number it carries.
pub open spec fn report_text(r: ValidationResult, values: Seq<Seq<char>>) -> Seq<char> {
    (if r.is_valid {
        "Validation passed.\n"@
    } else {
        "Validation failed.\n"@
    }) + (if r.errors@.len() > 0 {
        "\nErrors:\n"@ + error_lines(r.error_views(), values, r.errors@.len() as int)
    } else {
        seq![]
    }) + (if r.warnings@.len() > 0 {
        "\nWarnings:\n"@ + warning_lines(r.warnings@, r.warnings@.len() as int)
    } else {
        seq![]
    })
}

/// The location suffix of an error.
fn path_block(path: &Option<String>) -> (r: String)
    ensures
        r@ == path_suffix(opt_text(*path)),
{
    match path {
        Some(p) => {
            let mut s = String::from_str(" [");
            s.append(p.as_str());
            s.append("]");
            s
        },
        None => String::new(),
    }
}

impl ValidationError {
    /// The text of this error; `value_text` is the text of the number that an
    /// invalid distance, fidelity or generation rate carries.
    pub fn describe(&self, value_text: &str) -> (r: String)
        ensures
            r@ == error_text(self@, value_text@),
    {
        let path = path_block(&self.path);
        match &self.error_type {
            ValidationErrorKind::DuplicateNodeId { id } => {
                let mut s = String::from_str("Duplicate node ID: ");
                s.append(id.as_str());
                s.append(path.as_str());
                s
            },
            ValidationErrorKind::UnknownNodeReference { node_id, link_id } => {
                let mut s = String::from_str("Unknown node reference '");
                s.append(node_id.as_str());
                s.append("'");
                let link = match link_id {
                    Some(l) => {
                        let mut t = String::from_str(" in link '");
                        t.append(l.as_str());
                        t.append("'");
                        t
                    },
                    None => String::new(),
                };
                s.append(link.as_str());
                s.append(path.as_str());
                s
            },
            ValidationErrorKind::SelfLoop { link_id } => {
                let mut s = String::from_str("Self-loop detected in link '");
                s.append(link_id.as_str());
                s.append("'");
                s
            },
            ValidationErrorKind::InvalidDistance { link_id, .. } => {
                let mut s = String::from_str("Invalid distance ");
                s.append(value_text);
                s.append(" km for link '");
                s.append(link_id.as_str());
                s.append("' (must be > 0)");
                s.append(path.as_str());
                s
            },
            ValidationErrorKind::InvalidFidelity { link_id, .. } => {
                let mut s = String::from_str("Invalid fidelity ");
                s.append(value_text);
                s.append(" for link '");
                s.append(link_id.as_str());
                s.append("' (must be 0 < x <= 1)");
                s.append(path.as_str());
                s
            },
            ValidationErrorKind::InvalidGenerationRate { link_id, .. } => {
                let mut s = String::from_str("Invalid generation rate ");
                s.append(value_text);
                s.append(" Hz for link '");
                s.append(link_id.as_str());
                s.append("' (must be > 0)");
                s.append(path.as_str());
                s
            },
            ValidationErrorKind::GraphDisconnected { component_count } => {
                let mut s = String::from_str("Graph is disconnected with ");
                s.append(decimal(*component_count).as_str());
                s.append(" components");
                s.append(path.as_str());
                s
            },
        }
    }
}

/// The report line of a warning.
fn warning_block(w: &ValidationWarning) -> (r: String)
    ensures
        r@ == warning_line(*w),
{
    let mut s = String::from_str("   - ");
    s.append(w.message.as_str());
    s.append(" [");
    match &w.path {
        Some(p) => s.append(p.as_str()),
        None => s.append("unknown"),
    }
    s.append("]\n");
    s
}

impl ValidationResult {
    /// The report of this result: whether it passed, then its errors and its
    /// warnings. `value_texts` holds, for each error in order, the text of the
    /// number it carries.
    pub fn generate_report(&self, value_texts: &Vec<String>) -> (r: String)
        requires
            value_texts@.len() == self.errors@.len(),
        ensures
            r@ == report_text(*self, value_texts.deep_view()),
    {
        let ghost values = value_texts.deep_view();
        let mut report = if self.is_valid {
            String::from_str("Validation passed.\n")
        } else {
            String::from_str("Validation failed.\n")
        };
        let mut errors = String::new();
        if self.errors.len() > 0 {
            errors = String::from_str("\nErrors:\n");
            let mut i: usize = 0;
            while i < self.errors.len()
                invariant
                    i <= self.errors@.len(),
                    value_texts@.len() == self.errors@.len(),
                    values == value_texts.deep_view(),
                    errors@ == "\nErrors:\n"@ + error_lines(self.error_views(), values, i as int),
                decreases self.errors.len() - i,
            {
                errors.append("   - ");
                errors.append(self.errors[i].describe(value_texts[i].as_str()).as_str());
                errors.append("\n");
                proof {
                    assert(self.error_views()[i as int] == self.errors@[i as int]@);
                    assert(values[i as int] == value_texts@[i as int]@);
                }
                i = i + 1;
            }
        }
        let mut warnings = String::new();
        if self.warnings.len() > 0 {
            warnings = String::from_str("\nWarnings:\n");
            let mut j: usize = 0;
            while j < self.warnings.len()
                invariant
                    j <= self.warnings@.len(),
                    warnings@ == "\nWarnings:\n"@ + warning_lines(self.warnings@, j as int),
                decreases self.warnings.len() - j,
            {
                warnings.append(warning_block(&self.warnings[j]).as_str());
                j = j + 1;
            }
        }
        report.append(errors.as_str());
        report.append(warnings.as_str());
        report
    }
}

/// Joining writes the names of two non-empty lists with `", "` between them:
/// joining is writing every name in order, separated by a comma and a space.
pub proof fn law_joined_separates_with_comma(a: Seq<Seq<char>>, b: Seq<Seq<char>>)
    ensures
        joined(seq![]) == Seq::<char>::empty(),
        a.len() == 1 ==> joined(a) == a[0],
        a.len() > 0 && b.len() > 0 ==> joined(a + b) == joined(a) + ", "@ + joined(b),
    decreases b.len(),
{
    if a.len() > 0 && b.len() > 0 {
        let ab = a + b;
        assert(ab.drop_last() =~= a + b.drop_last());
        assert(ab.last() == b.last());
        if b.len() == 1 {
            assert(b.drop_last() =~= Seq::<Seq<char>>::empty());
            assert(a + b.drop_last() =~= a);
            assert(joined(b) == b[0]);
        } else {
            law_joined_separates_with_comma(a, b.drop_last());
            assert(joined(ab) == joined(a) + ", "@ + joined(b.drop_last()) + ", "@ + b.last());
            assert(joined(b) == joined(b.drop_last()) + ", "@ + b.last());
            assert(joined(a) + ", "@ + joined(b.drop_last()) + ", "@ + b.last() =~= joined(a) + ", "@ + (
            joined(b.drop_last()) + ", "@ + b.last()));
        }
    }
}

/// The line listing a non-empty change list: its label, its count in
/// decimal, and its names joined with `", "`.
pub open spec fn listed(label: Seq<char>, names: Seq<Seq<char>>) -> Seq<char> {
    "  "@ + label + ": "@ + decimal_digits(names.len()) + " ("@ + joined(names) + ")\n"@
}

/// A diff summary begins with the heading naming both files, lists every
/// non-empty change list with its count and names, and mentions every other
/// change: the version, a changed name, a changed configuration with its
/// alpha loss texts, changed constraints with their fidelity target texts,
/// and changed extensions.
#[verifier::rlimit(60)]
pub proof fn law_summary_mentions_every_change(
    d: QNetDiff,
    alpha: Option<(Seq<char>, Seq<char>)>,
    fidelity: Option<(Seq<char>, Seq<char>)>,
)
    ensures
        ({
            let text = diff_summary(d, alpha, fidelity);
            &&& begins_with(text, "Diff between '"@ + d.source_file@ + "' and '"@ + d.target_file@ + "':\n"@)
            &&& d.nodes_added@.len() > 0 ==> contains_text(text, listed("Nodes added"@, d.nodes_added.deep_view()))
            &&& d.nodes_removed@.len() > 0 ==> contains_text(
                text,
                listed("Nodes removed"@, d.nodes_removed.deep_view()),
            )
            &&& d.nodes_modified@.len() > 0 ==> contains_text(
                text,
                listed("Nodes modified"@, d.nodes_modified.deep_view()),
            )
            &&& d.links_added@.len() > 0 ==> contains_text(text, listed("Links added"@, d.links_added.deep_view()))
            &&& d.links_removed@.len() > 0 ==> contains_text(
                text,
                listed("Links removed"@, d.links_removed.deep_view()),
            )
            &&& d.links_modified@.len() > 0 ==> contains_text(
                text,
                listed("Links modified"@, d.links_modified.deep_view()),
            )
            &&& (pair_text(d.version_changed) matches Some((a, b)) ==> contains_text(
                text,
                "  Version: "@ + a + " -> "@ + b + "\n"@,
            ))
            &&& (metadata_view(d.metadata_changed) matches Some(m) ==> contains_text(text, "  Metadata changes:\n"@)
                && (m.name matches Some((a, b)) ==> contains_text(text, "     - name: '"@ + a + "' -> '"@ + b + "'\n"@)))
            &&& (d.config_changed is Some ==> contains_text(text, "  Config changes:\n"@) && (alpha matches Some(
                (a, b),
            ) ==> contains_text(text, "     - alpha_loss: "@ + a + " -> "@ + b + "\n"@)))
            &&& (d.constraints_changed is Some ==> contains_text(text, "  Constraints changes:\n"@) && (
            fidelity matches Some((a, b)) ==> contains_text(
                text,
                "     - fidelity_target: "@ + a + " -> "@ + b + "\n"@,
            )))
            &&& (d.extensions_changed == Some(true) ==> contains_text(text, "  Extensions changed\n"@))
        }),
{
    let h = "Diff between '"@ + d.source_file@ + "' and '"@ + d.target_file@ + "':\n"@;
    let v = version_lines(pair_text(d.version_changed));
    let m = metadata_lines(metadata_view(d.metadata_changed));
    let l1 = list_line("Nodes added"@, d.nodes_added.deep_view());
    let l2 = list_line("Nodes removed"@, d.nodes_removed.deep_view());
    let l3 = list_line("Nodes modified"@, d.nodes_modified.deep_view());
    let l4 = list_line("Links added"@, d.links_added.deep_view());
    let l5 = list_line("Links removed"@, d.links_removed.deep_view());
    let l6 = list_line("Links modified"@, d.links_modified.deep_view());
    let c = section_lines(d.config_changed is Some, "  Config changes:\n"@, "alpha_loss"@, alpha);
    let k = section_lines(
        d.constraints_changed is Some,
        "  Constraints changes:\n"@,
        "fidelity_target"@,
        fidelity,
    );
    let e = if d.extensions_changed == Some(true) {
        "  Extensions changed\n"@
    } else {
        seq![]
    };
    let parts = seq![h, v, m, l1, l2, l3, l4, l5, l6, c, k, e];
    let text = diff_summary(d, alpha, fidelity);
    lemma_concat_twelve(h, v, m, l1, l2, l3, l4, l5, l6, c, k, e);
    lemma_concat_contains_parts(parts);
    assert(parts[0] == h && parts[1] == v && parts[2] == m && parts[3] == l1 && parts[4] == l2);
    assert(parts[5] == l3 && parts[6] == l4 && parts[7] == l5 && parts[8] == l6);
    assert(parts[9] == c && parts[10] == k && parts[11] == e);
    lemma_metadata_lines_mention(text, metadata_view(d.metadata_changed));
    lemma_section_mentions(text, d.config_changed is Some, "  Config changes:\n"@, "alpha_loss"@, alpha);
    lemma_section_mentions(
        text,
        d.constraints_changed is Some,
        "  Constraints changes:\n"@,
        "fidelity_target"@,
        fidelity,
    );
    if let Some((a, b)) = alpha {
        reveal_strlit("alpha_loss");
        reveal_strlit("     - alpha_loss: ");
        reveal_strlit("     - ");
        reveal_strlit(": ");
        assert(change_line("alpha_loss"@, alpha) =~= "     - alpha_loss: "@ + a + " -> "@ + b + "\n"@);
    }
    if let Some((a, b)) = fidelity {
        reveal_strlit("fidelity_target");
        reveal_strlit("     - fidelity_target: ");
        reveal_strlit("     - ");
        reveal_strlit(": ");
        assert(change_line("fidelity_target"@, fidelity) =~= "     - fidelity_target: "@ + a + " -> "@ + b + "\n"@);
    }
}

/// Twelve pieces written one after another.
proof fn lemma_concat_twelve(
    p0: Seq<char>,
    p1: Seq<char>,
    p2: Seq<char>,
    p3: Seq<char>,
    p4: Seq<char>,
    p5: Seq<char>,
    p6: Seq<char>,
    p7: Seq<char>,
    p8: Seq<char>,
    p9: Seq<char>,
    p10: Seq<char>,
    p11: Seq<char>,
)
    ensures
        concat_all(seq![p0, p1, p2, p3, p4, p5, p6, p7, p8, p9, p10, p11]) == p0 + p1 + p2 + p3 + p4 + p5 + p6
            + p7 + p8 + p9 + p10 + p11,
{
    let s1 = seq![p0];
    assert(s1.drop_last() =~= Seq::<Seq<char>>::empty());
    assert(concat_all(s1.drop_last()) == Seq::<char>::empty());
    assert(s1.last() == p0);
    assert(concat_all(s1) =~= p0);
    lemma_concat_push(s1, p1);
    assert(s1.push(p1) =~= seq![p0, p1]);
    lemma_concat_push(seq![p0, p1], p2);
    assert(seq![p0, p1].push(p2) =~= seq![p0, p1, p2]);
    lemma_concat_push(seq![p0, p1, p2], p3);
    assert(seq![p0, p1, p2].push(p3) =~= seq![p0, p1, p2, p3]);
    lemma_concat_push(seq![p0, p1, p2, p3], p4);
    assert(seq![p0, p1, p2, p3].push(p4) =~= seq![p0, p1, p2, p3, p4]);
    lemma_concat_push(seq![p0, p1, p2, p3, p4], p5);
    assert(seq![p0, p1, p2, p3, p4].push(p5) =~= seq![p0, p1, p2, p3, p4, p5]);
    lemma_concat_push(seq![p0, p1, p2, p3, p4, p5], p6);
    assert(seq![p0, p1, p2, p3, p4, p5].push(p6) =~= seq![p0, p1, p2, p3, p4, p5, p6]);
    lemma_concat_push(seq![p0, p1, p2, p3, p4, p5, p6], p7);
    assert(seq![p0, p1, p2, p3, p4, p5, p6].push(p7) =~= seq![p0, p1, p2, p3, p4, p5, p6, p7]);
    lemma_concat_push(seq![p0, p1, p2, p3, p4, p5, p6, p7], p8);
    assert(seq![p0, p1, p2, p3, p4, p5, p6, p7].push(p8) =~= seq![p0, p1, p2, p3, p4, p5, p6, p7, p8]);
    lemma_concat_push(seq![p0, p1, p2, p3, p4, p5, p6, p7, p8], p9);
    assert(seq![p0, p1, p2, p3, p4, p5, p6, p7, p8].push(p9) =~= seq![p0, p1, p2, p3, p4, p5, p6, p7, p8, p9]);
    lemma_concat_push(seq![p0, p1, p2, p3, p4, p5, p6, p7, p8, p9], p10);
    assert(seq![p0, p1, p2, p3, p4, p5, p6, p7, p8, p9].push(p10) =~= seq![
        p0,
        p1,
        p2,
        p3,
        p4,
        p5,
        p6,
        p7,
        p8,
        p9,
        p10,
    ]);
    lemma_concat_push(seq![p0, p1, p2, p3, p4, p5, p6, p7, p8, p9, p10], p11);
    assert(seq![p0, p1, p2, p3, p4, p5, p6, p7, p8, p9, p10].push(p11) =~= seq![
        p0,
        p1,
        p2,
        p3,
        p4,
        p5,
        p6,
        p7,
        p8,
        p9,
        p10,
        p11,
    ]);
}

/// Writing one more piece appends it.
proof fn lemma_concat_push(parts: Seq<Seq<char>>, x: Seq<char>)
    ensures
        concat_all(parts.push(x)) == concat_all(parts) + x,
{
    assert(parts.push(x).drop_last() =~= parts);
}

/// A text containing the metadata lines mentions the heading and the name change.
proof fn lemma_metadata_lines_mention(text: Seq<char>, m: Option<MetadataChange>)
    requires
        contains_text(text, metadata_lines(m)),
    ensures
        m matches Some(mc) ==> contains_text(text, "  Metadata changes:\n"@) && (mc.name matches Some((a, b))
            ==> contains_text(text, "     - name: '"@ + a + "' -> '"@ + b + "'\n"@)),
{
    if let Some(mc) = m {
        lemma_contains_first("  Metadata changes:\n"@, name_line(mc.name));
        lemma_contains_trans(text, metadata_lines(m), "  Metadata changes:\n"@);
        lemma_contains_last("  Metadata changes:\n"@, name_line(mc.name));
        lemma_contains_trans(text, metadata_lines(m), name_line(mc.name));
    }
}

/// A text containing a changed section mentions its heading and its line.
proof fn lemma_section_mentions(
    text: Seq<char>,
    changed: bool,
    heading: Seq<char>,
    field: Seq<char>,
    texts: Option<(Seq<char>, Seq<char>)>,
)
    requires
        contains_text(text, section_lines(changed, heading, field, texts)),
    ensures
        changed ==> contains_text(text, heading) && contains_text(text, change_line(field, texts)),
{
    if changed {
        lemma_contains_first(heading, change_line(field, texts));
        lemma_contains_trans(text, section_lines(changed, heading, field, texts), heading);
        lemma_contains_last(heading, change_line(field, texts));
        lemma_contains_trans(text, section_lines(changed, heading, field, texts), change_line(field, texts));
    }
}

/// The text of a validation error begins with the message of its kind, naming
/// the offending node or link and, for an invalid quantity, the given text of
/// its value; an error with a location ends with it, except a self loop.
pub proof fn law_error_text_names_the_offender(e: ErrorView, value: Seq<char>)
    ensures
        ({
            let t = error_text(e, value);
            &&& match e.kind {
                ErrorKindView::DuplicateNodeId(id) => begins_with(t, "Duplicate node ID: "@ + id),
                ErrorKindView::UnknownNodeReference(node, link) => begins_with(
                    t,
                    "Unknown node reference '"@ + node + "'"@ + match link {
                        Some(l) => " in link '"@ + l + "'"@,
                        None => seq![],
                    },
                ),
                ErrorKindView::SelfLoop(link) => t == "Self-loop detected in link '"@ + link + "'"@,
                ErrorKindView::InvalidDistance(link, _) => begins_with(
                    t,
                    "Invalid distance "@ + value + " km for link '"@ + link + "' (must be > 0)"@,
                ),
                ErrorKindView::InvalidFidelity(link, _) => begins_with(
                    t,
                    "Invalid fidelity "@ + value + " for link '"@ + link + "' (must be 0 < x <= 1)"@,
                ),
                ErrorKindView::InvalidGenerationRate(link, _) => begins_with(
                    t,
                    "Invalid generation rate "@ + value + " Hz for link '"@ + link + "' (must be > 0)"@,
                ),
                ErrorKindView::GraphDisconnected(count) => begins_with(
                    t,
                    "Graph is disconnected with "@ + decimal_digits(count) + " components"@,
                ),
            }
            &&& !(e.kind is SelfLoop) ==> (e.path matches Some(p) ==> ends_with(t, " ["@ + p + "]"@))
        }),
{
    let t = error_text(e, value);
    match e.kind {
        ErrorKindView::DuplicateNodeId(id) => {
            lemma_split_ends("Duplicate node ID: "@ + id, path_suffix(e.path));
        },
        ErrorKindView::UnknownNodeReference(node, link) => {
            lemma_split_ends("Unknown node reference '"@ + node + "'"@ + link_suffix(link), path_suffix(e.path));
        },
        ErrorKindView::SelfLoop(_) => {},
        ErrorKindView::InvalidDistance(link, _) => {
            lemma_split_ends(
                "Invalid distance "@ + value + " km for link '"@ + link + "' (must be > 0)"@,
                path_suffix(e.path),
            );
        },
        ErrorKindView::InvalidFidelity(link, _) => {
            lemma_split_ends(
                "Invalid fidelity "@ + value + " for link '"@ + link + "' (must be 0 < x <= 1)"@,
                path_suffix(e.path),
            );
        },
        ErrorKindView::InvalidGenerationRate(link, _) => {
            lemma_split_ends(
                "Invalid generation rate "@ + value + " Hz for link '"@ + link + "' (must be > 0)"@,
                path_suffix(e.path),
            );
        },
        ErrorKindView::GraphDisconnected(count) => {
            lemma_split_ends(
                "Graph is disconnected with "@ + decimal_digits(count) + " components"@,
                path_suffix(e.path),
            );
        },
    }
}

/// The error lines contain each error's line.
proof fn lemma_error_lines_contain(errors: Seq<ErrorView>, values: Seq<Seq<char>>, n: int, i: int)
    requires
        0 <= i < n,
    ensures
        contains_text(error_lines(errors, values, n), "   - "@ + error_text(errors[i], values[i]) + "\n"@),
    decreases n,
{
    let line = "   - "@ + error_text(errors[i], values[i]) + "\n"@;
    let prev = error_lines(errors, values, n - 1);
    let last = "   - "@ + error_text(errors[n - 1], values[n - 1]) + "\n"@;
    assert(error_lines(errors, values, n) =~= prev + last);
    if i == n - 1 {
        lemma_contains_last(prev, last);
    } else {
        lemma_error_lines_contain(errors, values, n - 1, i);
        lemma_contains_extend(prev, line, last);
    }
}

/// The warning lines contain each warning's line.
proof fn lemma_warning_lines_contain(warnings: Seq<ValidationWarning>, n: int, i: int)
    requires
        0 <= i < n,
    ensures
        contains_text(warning_lines(warnings, n), warning_line(warnings[i])),
    decreases n,
{
    let prev = warning_lines(warnings, n - 1);
    if i == n - 1 {
        lemma_contains_last(prev, warning_line(warnings[i]));
    } else {
        lemma_warning_lines_contain(warnings, n - 1, i);
        lemma_contains_extend(prev, warning_line(warnings[i]), warning_line(warnings[n - 1]));
    }
}

/// A validation report begins by saying whether validation passed, and holds
/// one line for each error, with its text and the given text of its value,
/// and one line for each warning, with its message and location (or
/// `unknown`).
pub proof fn law_report_lists_every_finding(r: ValidationResult, values: Seq<Seq<char>>)
    ensures
        ({
            let t = report_text(r, values);
            &&& begins_with(
                t,
                if r.is_valid {
                    "Validation passed.\n"@
                } else {
                    "Validation failed.\n"@
                },
            )
            &&& forall|i: int|
                0 <= i < r.errors@.len() ==> contains_text(
                    t,
                    "   - "@ + error_text(#[trigger] r.errors@[i]@, values[i]) + "\n"@,
                )
            &&& forall|i: int|
                0 <= i < r.warnings@.len() ==> contains_text(
                    t,
                    "   - "@ + (#[trigger] r.warnings@[i]).message@ + " ["@ + match opt_text(r.warnings@[i].path) {
                        Some(p) => p,
                        None => "unknown"@,
                    } + "]\n"@,
                )
        }),
{
    let head = if r.is_valid {
        "Validation passed.\n"@
    } else {
        "Validation failed.\n"@
    };
    let n = r.errors@.len() as int;
    let errs = if n > 0 {
        "\nErrors:\n"@ + error_lines(r.error_views(), values, n)
    } else {
        seq![]
    };
    let m = r.warnings@.len() as int;
    let warns = if m > 0 {
        "\nWarnings:\n"@ + warning_lines(r.warnings@, m)
    } else {
        seq![]
    };
    let t = report_text(r, values);
    assert(t == head + errs + warns);
    lemma_split_ends(head, errs);
    lemma_begins_extend(head + errs, head, warns);
    assert forall|i: int| 0 <= i < r.errors@.len() implies contains_text(
        t,
        "   - "@ + error_text(#[trigger] r.errors@[i]@, values[i]) + "\n"@,
    ) by {
        let line = "   - "@ + error_text(r.errors@[i]@, values[i]) + "\n"@;
        assert(r.error_views()[i] == r.errors@[i]@);
        lemma_error_lines_contain(r.error_views(), values, n, i);
        lemma_contains_last("\nErrors:\n"@, error_lines(r.error_views(), values, n));
        lemma_contains_trans(errs, error_lines(r.error_views(), values, n), line);
        lemma_contains_last(head, errs);
        lemma_contains_trans(head + errs, errs, line);
        lemma_contains_extend(head + errs, line, warns);
    }
    assert forall|i: int| 0 <= i < r.warnings@.len() implies contains_text(
        t,
        "   - "@ + (#[trigger] r.warnings@[i]).message@ + " ["@ + match opt_text(r.warnings@[i].path) {
            Some(p) => p,
            None => "unknown"@,
        } + "]\n"@,
    ) by {
        let line = warning_line(r.warnings@[i]);
        lemma_warning_lines_contain(r.warnings@, m, i);
        lemma_contains_last("\nWarnings:\n"@, warning_lines(r.warnings@, m));
        lemma_contains_trans(warns, warning_lines(r.warnings@, m), line);
        lemma_contains_last(head + errs, warns);
        lemma_contains_trans(t, warns, line);
    }
}

/// A diff that records no change at all is summarised by its heading alone.
pub proof fn law_quiet_diff_summary_is_heading(
    d: QNetDiff,
    alpha: Option<(Seq<char>, Seq<char>)>,
    fidelity: Option<(Seq<char>, Seq<char>)>,
)
    requires
        d.version_changed is None,
        d.metadata_changed is None,
        d.nodes_added@.len() == 0,
        d.nodes_removed@.len() == 0,
        d.nodes_modified@.len() == 0,
        d.links_added@.len() == 0,
        d.links_removed@.len() == 0,
        d.links_modified@.len() == 0,
        d.config_changed is None,
        d.constraints_changed is None,
        d.extensions_changed != Some(true),
    ensures
        diff_summary(d, alpha, fidelity) == "Diff between '"@ + d.source_file@ + "' and '"@ + d.target_file@
            + "':\n"@,
{
    let h = "Diff between '"@ + d.source_file@ + "' and '"@ + d.target_file@ + "':\n"@;
    let e: Seq<char> = seq![];
    assert(d.nodes_added.deep_view().len() == 0);
    assert(d.nodes_removed.deep_view().len() == 0);
    assert(d.nodes_modified.deep_view().len() == 0);
    assert(d.links_added.deep_view().len() == 0);
    assert(d.links_removed.deep_view().len() == 0);
    assert(d.links_modified.deep_view().len() == 0);
    assert(h + e + e + e + e + e + e + e + e + e + e + e =~= h);
}

} // verus!
