//! Acceptance of a `.qnet` file that has been read and parsed.
use vstd::prelude::*;

use crate::binary64::Binary64;
use crate::qnet::{QNetFile, QNetLink};
use crate::validation::{
    component_count, connectivity_errors, duplicate_errors, link_errors, links_errors, node_ids,
    warns_of_disconnection, ErrorKindView, QNetValidator, ValidationResult,
};

verus! {

/// `std::io::Error`, carried through unopened.
#[verifier::external_type_specification]
#[verifier::external_body]
pub struct ExIoError(std::io::Error);

/// `serde_json::Error`, carried through unopened.
#[verifier::external_type_specification]
#[verifier::external_body]
pub struct ExJsonError(serde_json::Error);

/// Why a `.qnet` file could not be loaded or saved.
#[derive(Debug)]
pub enum QNetError {
    IoError(std::io::Error),
    ParseError(serde_json::Error),
    ValidationError(ValidationResult),
    VersionNotSupported(String),
}

/// The errors that validation finds in a file's nodes and links.
pub open spec fn file_errors(file: QNetFile) -> Seq<ErrorKindView> {
    duplicate_errors(node_ids(file.nodes@)) + links_errors(node_ids(file.nodes@), file.links@)
}

/// The errors that keep a file from loading: those of its nodes and links,
/// then a disconnected node graph.
pub open spec fn load_errors(file: QNetFile) -> Seq<ErrorKindView> {
    file_errors(file) + connectivity_errors(file.nodes@, file.links@)
}

/// Accepts a parsed file of version `1.0` whose nodes and links validate and
/// whose node graph is connected; otherwise reports the unsupported version,
/// or the validation result, which holds the errors and warns of the
/// disconnection.
pub fn accept_loaded_file(file: QNetFile) -> (r: Result<QNetFile, QNetError>)
    requires
        file.nodes@.len() < 0xFFFF_FFFF,
        file.links@.len() < 0xFFFF_FFFF,
    ensures
        file.version@ != "1.0"@ ==> (r matches Err(QNetError::VersionNotSupported(v)) && v@
            == file.version@),
        file.version@ == "1.0"@ && load_errors(file).len() > 0 ==> (r matches Err(
            QNetError::ValidationError(v),
        ) && v.reports(load_errors(file)) && warns_of_disconnection(v, file.nodes@, file.links@)),
        file.version@ == "1.0"@ && load_errors(file).len() == 0 ==> r == Ok::<
            QNetFile,
            QNetError,
        >(file),
{
    let supported = String::from_str("1.0");
    if file.version != supported {
        return Err(QNetError::VersionNotSupported(file.version));
    }
    let mut validation = QNetValidator::validate_all(&file);
    let mut connectivity = QNetValidator::validate_graph_connected(&file.nodes, &file.links);
    validation.take_errors(
        &mut connectivity,
        Ghost(file_errors(file)),
        Ghost(connectivity_errors(file.nodes@, file.links@)),
    );
    if !validation.is_valid {
        return Err(QNetError::ValidationError(validation));
    }
    Ok(file)
}

/// A link that validation accepts: it joins two different defined nodes, its
/// distance and generation rate are greater than zero, and its fidelity lies
/// in `(0, 1]`. A NaN quantity is never accepted.
pub open spec fn link_accepted(ids: Seq<Seq<char>>, link: QNetLink) -> bool {
    &&& link.from@ != link.to@
    &&& ids.contains(link.from@)
    &&& ids.contains(link.to@)
    &&& Binary64::spec_zero().below(link.distance_km)
    &&& Binary64::spec_zero().below(link.base_fidelity)
    &&& link.base_fidelity.at_most(Binary64::spec_one())
    &&& Binary64::spec_zero().below(link.generation_rate_hz)
}

/// A file's nodes and links are well formed: no identifier repeats,
/// validation accepts every link, and the node graph is connected.
pub open spec fn well_formed_file(file: QNetFile) -> bool {
    &&& component_count(file.nodes@, file.links@) <= 1
    &&& node_ids(file.nodes@).no_duplicates()
    &&& forall|k: int| 0 <= k < file.links@.len() ==> link_accepted(node_ids(file.nodes@), #[trigger] file.links@[k])
}

/// No duplicate is reported exactly when no identifier repeats.
proof fn lemma_no_duplicate_errors(ids: Seq<Seq<char>>)
    ensures
        duplicate_errors(ids).len() == 0 <==> ids.no_duplicates(),
    decreases ids.len(),
{
    if ids.len() > 0 {
        let init = ids.drop_last();
        lemma_no_duplicate_errors(init);
        if ids.no_duplicates() {
            assert(init.no_duplicates()) by {
                assert forall|i: int, j: int| 0 <= i < init.len() && 0 <= j < init.len() && i != j implies init[i]
                    != init[j] by {
                    assert(init[i] == ids[i] && init[j] == ids[j]);
                }
            }
            if init.contains(ids.last()) {
                let j = choose|j: int| 0 <= j < init.len() && init[j] == ids.last();
                assert(ids[j] == ids[ids.len() - 1]);
            }
        }
        if init.no_duplicates() && !init.contains(ids.last()) {
            assert forall|i: int, j: int| 0 <= i < ids.len() && 0 <= j < ids.len() && i != j implies ids[i]
                != ids[j] by {
                if i < ids.len() - 1 && j < ids.len() - 1 {
                    assert(init[i] == ids[i] && init[j] == ids[j]);
                } else if i == ids.len() - 1 {
                    assert(init[j] == ids[j]);
                } else {
                    assert(init[i] == ids[i]);
                }
            }
        }
    }
}

/// A link has no error exactly when validation accepts it.
proof fn lemma_link_without_errors(ids: Seq<Seq<char>>, link: QNetLink)
    ensures
        link_errors(ids, link).len() == 0 <==> link_accepted(ids, link),
{
}

/// The links have no error exactly when validation accepts each of them.
proof fn lemma_links_without_errors(ids: Seq<Seq<char>>, links: Seq<QNetLink>)
    ensures
        links_errors(ids, links).len() == 0 <==> forall|k: int| 0 <= k < links.len() ==> link_accepted(ids, #[trigger] links[k]),
    decreases links.len(),
{
    if links.len() > 0 {
        let init = links.drop_last();
        lemma_links_without_errors(ids, init);
        lemma_link_without_errors(ids, links.last());
        if links_errors(ids, links).len() == 0 {
            assert forall|k: int| 0 <= k < links.len() implies link_accepted(ids, #[trigger] links[k]) by {
                if k < links.len() - 1 {
                    assert(init[k] == links[k]);
                }
            }
        }
        if forall|k: int| 0 <= k < links.len() ==> link_accepted(ids, #[trigger] links[k]) {
            assert forall|k: int| 0 <= k < init.len() implies link_accepted(ids, #[trigger] init[k]) by {
                assert(init[k] == links[k]);
            }
            assert(link_accepted(ids, links[links.len() - 1]));
        }
    }
}

/// A file has no load error exactly when its nodes and links are well
/// formed: a file of version `1.0` is accepted exactly then.
pub proof fn law_accepted_exactly_when_well_formed(file: QNetFile)
    ensures
        load_errors(file).len() == 0 <==> well_formed_file(file),
{
    lemma_no_duplicate_errors(node_ids(file.nodes@));
    lemma_links_without_errors(node_ids(file.nodes@), file.links@);
}

} // verus!
