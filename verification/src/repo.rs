//! The backend boundary: trusted wrappers around `gix` for opening a
//! repository, resolving the HEAD tree, looking a path up inside a tree and
//! hashing file content. Everything the engine learns from the repository
//! on disk flows through these wrappers.

use vstd::prelude::*;

use crate::types::StatusError;

verus! {

#[verifier::external_type_specification]
#[verifier::external_body]
pub struct ExRepository(gix::Repository);

/// Open a repository at the given path.
///
/// Relies on gix::open; a failure is reported as a `Backend` error carrying
/// gix's message.
#[verifier::external_body]
pub fn open_repo(path: &str) -> (r: Result<gix::Repository, StatusError>)
    ensures
        r matches Err(e) ==> e is Backend,
{
    gix::open(path).map_err(
        |e| StatusError::Backend(format!("Failed to open git repository '{}': {}", path, e)),
    )
}

/// The working-directory root of the repository, as text, if it has one.
///
/// Relies on gix::Repository::workdir; a root whose name is not valid
/// unicode is converted lossily.
#[verifier::external_body]
pub fn repo_work_dir(repo: &gix::Repository) -> (r: Option<String>) {
    repo.workdir().map(|p| p.to_string_lossy().into_owned())
}

/// The id of the tree recorded by the HEAD commit, or the empty-tree
/// sentinel id when the repository has no commits yet.
///
/// Relies on gix::Repository::head_commit, gix::Commit::tree and
/// gix_hash::ObjectId::empty_tree.
#[verifier::external_body]
pub fn get_head_tree(repo: &gix::Repository) -> (r: Result<Vec<u8>, StatusError>)
    ensures
        r matches Err(e) ==> e is Backend,
{
    match repo.head_commit() {
        Ok(commit) => match commit.tree() {
            Ok(tree) => Ok(tree.id.as_slice().to_vec()),
            Err(e) => Err(StatusError::Backend(format!("Failed to get HEAD tree: {}", e))),
        },
        Err(_) => Ok(gix_hash::ObjectId::empty_tree(gix_hash::Kind::Sha1).as_slice().to_vec()),
    }
}

/// The content hash the tree with id `tree_id` records at `path`, a
/// repository-relative, forward-slash separated path; `None` when the tree
/// cannot be found or records nothing at that path.
///
/// Relies on gix::Repository::find_tree and gix::Tree::lookup_entry.
#[verifier::external_body]
pub fn tree_lookup(repo: &gix::Repository, tree_id: &Vec<u8>, path: &str) -> (r: Option<
    Vec<u8>,
>) {
    let oid = gix_hash::ObjectId::try_from(&tree_id[..]).ok()?;
    let tree = repo.find_tree(oid).ok()?;
    let entry = tree.lookup_entry(path.as_bytes().split(|&b| b == b'/')).ok()??;
    Some(entry.object_id().as_slice().to_vec())
}

/// The content hash of a blob with the given content, under the backend's
/// canonical hashing scheme: a function of the content bytes alone.
pub uninterp spec fn blob_hash_of(content: Seq<u8>) -> Seq<u8>;

/// Whether the backend's hasher accepts the given content: its one failure,
/// collision detection, is decided by the bytes alone.
pub uninterp spec fn hash_ok(content: Seq<u8>) -> bool;

/// Hash file content the way the backend's object store does.
///
/// Relies on gix_object::compute_hash with the SHA-1 hash kind and the blob
/// object kind: the same bytes always hash to the same value, and the only
/// failure, the hasher's collision detection, depends on the bytes alone.
#[verifier::external_body]
pub fn hash_blob(content: &Vec<u8>) -> (r: Result<Vec<u8>, StatusError>)
    ensures
        r is Ok <==> hash_ok(content@),
        r matches Ok(h) ==> h@ == blob_hash_of(content@),
        r matches Err(e) ==> e is Io,
{
    match gix_object::compute_hash(gix_hash::Kind::Sha1, gix_object::Kind::Blob, content) {
        Ok(oid) => Ok(oid.as_slice().to_vec()),
        Err(e) => Err(StatusError::Io(format!("Failed to hash content: {}", e))),
    }
}

} // verus!
