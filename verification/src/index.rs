//! The index snapshot: rows of (path, content hash) read once from the
//! staged index, and membership tests over such a snapshot.

use vstd::prelude::*;

use crate::types::StatusError;

verus! {

/// One index row: a repository-relative path and the content hash the index
/// records for it. Captured once when a pipeline is built; immutable
/// thereafter.
#[derive(Debug, Clone)]
pub struct IndexedFile {
    pub path: String,
    pub oid: Vec<u8>,
}

/// The mathematical value of an index row.
pub struct IndexedFileV {
    pub path: Seq<char>,
    pub oid: Seq<u8>,
}

impl View for IndexedFile {
    type V = IndexedFileV;

    open spec fn view(&self) -> IndexedFileV {
        IndexedFileV { path: self.path@, oid: self.oid@ }
    }
}

/// Whether a snapshot holds a row for the given path.
pub open spec fn spec_in_index(index: Seq<IndexedFileV>, path: Seq<char>) -> bool {
    exists|i: int| 0 <= i < index.len() && index[i].path == path
}

/// Whether the snapshot holds a row for the given path: the tracked /
/// untracked distinction of the engine.
pub fn path_in_entries(entries: &Vec<IndexedFile>, path: &String) -> (r: bool)
    ensures
        r == spec_in_index(entries@.map_values(|e: IndexedFile| e@), path@),
{
    let ghost model = entries@.map_values(|e: IndexedFile| e@);
    let n = entries.len();
    let mut i: usize = 0;
    while i < n
        invariant
            n == entries@.len(),
            model == entries@.map_values(|e: IndexedFile| e@),
            i <= n,
            forall|j: int| 0 <= j < i ==> #[trigger] model[j].path != path@,
        decreases n - i,
    {
        if entries[i].path.eq(path) {
            assert(model[i as int].path == path@);
            return true;
        }
        i += 1;
    }
    assert(!spec_in_index(model, path@));
    false
}

/// All rows of the repository's index, as a snapshot of plain values.
///
/// Relies on gix::Repository::index and gix_index::Entry::path: one row per
/// index entry, in index order; a failure is reported as a `Backend` error.
#[verifier::external_body]
pub fn get_index_entries(repo: &gix::Repository) -> (r: Result<Vec<IndexedFile>, StatusError>)
    ensures
        r matches Err(e) ==> e is Backend,
{
    let index = repo.index().map_err(|e| StatusError::Backend(format!("{}", e)))?;
    Ok(
        index.entries().iter().map(
            |e| IndexedFile { path: e.path(&index).to_string(), oid: e.id.as_slice().to_vec() },
        ).collect(),
    )
}

/// Whether the given path is present in the repository's index right now.
///
/// The snapshot itself comes from the backend, so nothing can be promised
/// about which rows it holds; the result is the membership test
/// `path_in_entries` over whatever snapshot the backend returned.
pub fn path_in_index(repo: &gix::Repository, path: &String) -> (r: Result<bool, StatusError>)
    ensures
        r matches Ok(b) ==> exists|entries: Seq<IndexedFileV>|
            b == #[trigger] spec_in_index(entries, path@),
        r matches Err(e) ==> e is Backend,
{
    match get_index_entries(repo) {
        Result::Ok(entries) => {
            let b = path_in_entries(&entries, path);
            proof {
                assert(b == spec_in_index(
                    entries@.map_values(|e: IndexedFile| e@),
                    path@,
                ));
            }
            Result::Ok(b)
        },
        Result::Err(e) => Result::Err(e),
    }
}

} // verus!
