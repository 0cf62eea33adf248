//! The tracked-status derivation rules: given the content hashes that the
//! HEAD tree, the index and the disk hold for one path, derive the pair of
//! status codes, and discard entries without changes.

use vstd::prelude::*;

use crate::index::IndexedFile;
use crate::index::get_index_entries;
use crate::repo::blob_hash_of;
use crate::repo::get_head_tree;
use crate::repo::hash_blob;
use crate::repo::hash_ok;
use crate::repo::repo_work_dir;
use crate::repo::tree_lookup;
use crate::text::bytes_eq;
use crate::text::join_under;
use crate::text::spec_join_under;
use crate::types::FileMetadata;
use crate::types::FileStatus;
use crate::types::FileStatusV;
use crate::types::StatusChar;
use crate::types::StatusError;
use crate::types::UntrackedFilter;
use crate::types::lemma_status_char_roundtrip;
use crate::untracked::UntrackedIter;

verus! {

/// What the caller found on disk for one tracked path: the path is missing,
/// its bytes were read, or reading failed with the given message.
#[derive(Debug, Clone)]
pub enum DiskFile {
    Missing,
    Contents(Vec<u8>),
    Unreadable(String),
}

/// The mathematical value of a disk observation.
pub enum DiskFileV {
    Missing,
    Contents(Seq<u8>),
    Unreadable(Seq<char>),
}

impl View for DiskFile {
    type V = DiskFileV;

    open spec fn view(&self) -> DiskFileV {
        match self {
            DiskFile::Missing => DiskFileV::Missing,
            DiskFile::Contents(c) => DiskFileV::Contents(c@),
            DiskFile::Unreadable(m) => DiskFileV::Unreadable(m@),
        }
    }
}

/// The content hash a readable disk observation compares under: nothing for
/// a missing path, the canonical hash of the bytes otherwise.
pub open spec fn spec_disk_hash(disk: DiskFileV) -> Option<Seq<u8>> {
    match disk {
        DiskFileV::Missing => Option::None,
        DiskFileV::Contents(c) => Option::Some(blob_hash_of(c)),
        DiskFileV::Unreadable(_) => Option::None,
    }
}

/// The index-side status of a tracked path: absent from the HEAD tree means
/// `Added`; present with a different hash than the index means `Modified`;
/// present with an equal hash means `Unchanged`.
pub open spec fn spec_index_status(head_oid: Option<Seq<u8>>, entry_oid: Seq<u8>) -> StatusChar {
    match head_oid {
        Option::None => StatusChar::Added,
        Option::Some(h) => if h == entry_oid {
            StatusChar::Unchanged
        } else {
            StatusChar::Modified
        },
    }
}

/// The worktree-side status of a tracked path: missing on disk means
/// `Deleted`; present with a different content hash than the index means
/// `Modified`; present with an equal hash means `Unchanged`.
pub open spec fn spec_worktree_status(disk_hash: Option<Seq<u8>>, entry_oid: Seq<u8>) -> StatusChar {
    match disk_hash {
        Option::None => StatusChar::Deleted,
        Option::Some(d) => if d == entry_oid {
            StatusChar::Unchanged
        } else {
            StatusChar::Modified
        },
    }
}

/// Both derivation rules at once, as the characters the engine renders.
pub open spec fn spec_status_chars(
    head_oid: Option<Seq<u8>>,
    entry_oid: Seq<u8>,
    disk_hash: Option<Seq<u8>>,
) -> (char, char) {
    (
        spec_index_status(head_oid, entry_oid).spec_to_char(),
        spec_worktree_status(disk_hash, entry_oid).spec_to_char(),
    )
}

/// The model of an optional borrowed hash value.
pub open spec fn spec_opt_bytes(o: Option<&Vec<u8>>) -> Option<Seq<u8>> {
    match o {
        Option::None => Option::None,
        Option::Some(v) => Option::Some(v@),
    }
}

/// Derive the pair of status characters for one indexed path.
///
/// `head_oid` is the content hash the HEAD tree records for the path, if the
/// path is present there; `entry_oid` is the hash the index records;
/// `disk_hash` is the content hash of the bytes on disk, if the path exists
/// on disk.
pub fn status_chars(
    head_oid: Option<&Vec<u8>>,
    entry_oid: &Vec<u8>,
    disk_hash: Option<&Vec<u8>>,
) -> (r: (char, char))
    ensures
        r == spec_status_chars(spec_opt_bytes(head_oid), entry_oid@, spec_opt_bytes(disk_hash)),
{
    let index_status: char = match head_oid {
        Option::None => 'A',
        Option::Some(h) => if bytes_eq(h, entry_oid) {
            ' '
        } else {
            'M'
        },
    };
    let worktree_status: char = match disk_hash {
        Option::None => 'D',
        Option::Some(d) => if bytes_eq(d, entry_oid) {
            ' '
        } else {
            'M'
        },
    };
    (index_status, worktree_status)
}

/// The full status the engine derives for one tracked path, given what the
/// HEAD tree records for it, a readable disk observation, and whether
/// metadata is attached: a missing path carries epoch-zero metadata rather
/// than failing; a present path carries whatever the caller's stat found.
pub open spec fn spec_tracked_status(
    path: Seq<char>,
    entry_oid: Seq<u8>,
    head_oid: Option<Seq<u8>>,
    disk: DiskFileV,
    include_meta: bool,
    meta: Option<FileMetadata>,
) -> FileStatusV {
    FileStatusV {
        path,
        index_status: spec_index_status(head_oid, entry_oid),
        worktree_status: spec_worktree_status(spec_disk_hash(disk), entry_oid),
        metadata: if include_meta {
            match disk {
                DiskFileV::Missing => Option::Some(FileMetadata { modified_time: 0, size: 0 }),
                _ => meta,
            }
        } else {
            Option::None
        },
    }
}

/// One step of the tracked phase.
pub enum TrackedStep {
    /// The entry diverges somewhere and passed the filter: it is yielded.
    Item(FileStatus),
    /// Deriving the entry's status failed; the failure is surfaced for this
    /// item and iteration goes on.
    ItemError(StatusError),
    /// The entry carries no change, or the filter dropped it.
    Skipped,
    /// No tracked entries remain.
    Exhausted,
}

/// Builder for a tracked-status iterator over a live repository.
pub struct StatusIterBuilder {
    pub repo: gix::Repository,
    pub show_untracked: bool,
    pub path_filter: Option<String>,
}

impl StatusIterBuilder {
    /// A builder that shows untracked files and filters no paths.
    pub fn new(repo: gix::Repository) -> (r: Self)
        ensures
            r.show_untracked == true,
            r.path_filter is None,
    {
        StatusIterBuilder { repo, show_untracked: true, path_filter: Option::None }
    }

    /// Choose whether the untracked phase is marked to run.
    pub fn show_untracked(self, show: bool) -> (r: Self)
        ensures
            r.show_untracked == show,
            r.path_filter == self.path_filter,
    {
        StatusIterBuilder { show_untracked: show, ..self }
    }

    /// Record a path pattern. The iterator itself does not consult it; it
    /// is kept for callers that filter the stream downstream.
    pub fn path_filter(self, pattern: String) -> (r: Self)
        ensures
            r.show_untracked == self.show_untracked,
            r.path_filter == Option::Some(pattern),
    {
        StatusIterBuilder { path_filter: Option::Some(pattern), ..self }
    }

    /// Snapshot the repository and build the iterator.
    pub fn build(self) -> (r: Result<StatusIter, StatusError>)
        ensures
            r matches Result::Err(e) ==> e is Backend,
            r matches Result::Ok(it) ==> {
                &&& it.repo == self.repo
                &&& it.show_untracked == self.show_untracked
                &&& it.pos == 0
                &&& it.untracked_started == false
            },
    {
        StatusIter::new(self.repo, self.show_untracked)
    }
}

/// A pull-based iterator over the statuses of the indexed paths of a
/// repository. The HEAD tree reference and the index snapshot are captured
/// once at construction; the caller reads each entry's bytes from disk and
/// hands them in, one entry per pull. Once the tracked rows are exhausted,
/// `into_untracked` continues with the untracked walk when the iterator
/// was asked to show untracked files.
pub struct StatusIter {
    pub repo: gix::Repository,
    pub show_untracked: bool,
    pub head_tree_id: Vec<u8>,
    pub work_dir: String,
    pub index_entries: Vec<IndexedFile>,
    pub pos: usize,
    pub untracked_started: bool,
}

impl StatusIter {
    /// Open the snapshot: resolve HEAD to a tree (or the empty-tree
    /// sentinel), find the working-directory root, and read the index rows.
    fn new(repo: gix::Repository, show_untracked: bool) -> (r: Result<StatusIter, StatusError>)
        ensures
            r matches Result::Err(e) ==> e is Backend,
            r matches Result::Ok(it) ==> {
                &&& it.repo == repo
                &&& it.show_untracked == show_untracked
                &&& it.pos == 0
                &&& it.untracked_started == false
            },
    {
        let head_tree_id = match get_head_tree(&repo) {
            Result::Ok(id) => id,
            Result::Err(e) => {
                return Result::Err(e);
            },
        };
        let work_dir = match repo_work_dir(&repo) {
            Option::Some(d) => d,
            Option::None => {
                return Result::Err(
                    StatusError::Backend("Repository has no working directory".to_owned()),
                );
            },
        };
        let index_entries = match get_index_entries(&repo) {
            Result::Ok(i) => i,
            Result::Err(e) => {
                return Result::Err(e);
            },
        };
        Result::Ok(
            StatusIter {
                repo,
                show_untracked,
                head_tree_id,
                work_dir,
                index_entries,
                pos: 0,
                untracked_started: false,
            },
        )
    }

    /// Start building a tracked-status iterator.
    pub fn builder(repo: gix::Repository) -> (r: StatusIterBuilder)
        ensures
            r.show_untracked == true,
            r.path_filter is None,
    {
        StatusIterBuilder::new(repo)
    }

    /// The filesystem path whose bytes the next pull needs, if entries
    /// remain.
    pub fn pending_path(&self) -> (r: Option<String>)
        ensures
            match r {
                Option::None => self.pos >= self.index_entries@.len(),
                Option::Some(p) => self.pos < self.index_entries@.len() && p@ == spec_join_under(
                    self.work_dir@,
                    self.index_entries@[self.pos as int].path@,
                ),
            },
    {
        if self.pos < self.index_entries.len() {
            Option::Some(
                join_under(
                    self.work_dir.as_str(),
                    self.index_entries[self.pos].path.as_str(),
                ),
            )
        } else {
            Option::None
        }
    }

    /// The pair of status characters for one indexed path, given its bytes'
    /// hash on disk (or nothing, for a path missing on disk). The HEAD side
    /// comes from a tree lookup against the captured tree reference; the
    /// worktree side is exactly the derivation rule.
    pub fn compute_index_status(
        &self,
        path: &String,
        entry_oid: &Vec<u8>,
        disk_hash: Option<&Vec<u8>>,
    ) -> (r: (char, char))
        ensures
            exists|head: Option<Seq<u8>>|
                r == #[trigger] spec_status_chars(head, entry_oid@, spec_opt_bytes(disk_hash)),
            r.1 == spec_worktree_status(spec_opt_bytes(disk_hash), entry_oid@).spec_to_char(),
    {
        let head = tree_lookup(&self.repo, &self.head_tree_id, path.as_str());
        let head_ref = head.as_ref();
        let r = status_chars(head_ref, entry_oid, disk_hash);
        proof {
            assert(r == spec_status_chars(
                spec_opt_bytes(head_ref),
                entry_oid@,
                spec_opt_bytes(disk_hash),
            ));
        }
        r
    }

    /// One pull: derive the status of the entry at the cursor from the
    /// given disk observation and advance. Entries without changes are
    /// skipped, an unreadable path or a failed hash is surfaced as an
    /// item-level error, and once the entries are exhausted the vestigial
    /// untracked flag is set.
    pub fn next(&mut self, disk: &DiskFile) -> (r: TrackedStep)
        ensures
            final(self).repo == old(self).repo,
            final(self).show_untracked == old(self).show_untracked,
            final(self).head_tree_id == old(self).head_tree_id,
            final(self).work_dir == old(self).work_dir,
            final(self).index_entries == old(self).index_entries,
            if old(self).pos >= old(self).index_entries@.len() {
                &&& r is Exhausted
                &&& final(self).pos == old(self).pos
                &&& final(self).untracked_started == (old(self).untracked_started || old(
                    self,
                ).show_untracked)
            } else {
                let entry = old(self).index_entries@[old(self).pos as int];
                &&& final(self).pos == old(self).pos + 1
                &&& final(self).untracked_started == old(self).untracked_started
                &&& match disk@ {
                    DiskFileV::Unreadable(m) => r matches TrackedStep::ItemError(
                        StatusError::Io(mm),
                    ) && mm@ == m,
                    _ => {
                        &&& r matches TrackedStep::Item(f) ==> exists|head: Option<Seq<u8>>|
                            f@ == #[trigger] spec_tracked_status(
                                entry.path@,
                                entry.oid@,
                                head,
                                disk@,
                                false,
                                Option::None,
                            ) && f@.spec_has_changes()
                        &&& r matches TrackedStep::ItemError(e) ==> e is Io
                        &&& !(r is Exhausted)
                        &&& (disk@ matches DiskFileV::Contents(c) ==> (r is ItemError <==> !hash_ok(
                            c,
                        )))
                        &&& (disk@ is Missing ==> (r matches TrackedStep::Item(f)
                            && f@.worktree_status == StatusChar::Deleted))
                        &&& (disk@ matches DiskFileV::Contents(c) && hash_ok(c)
                            && crate::repo::blob_hash_of(c) != entry.oid@ ==> (
                        r matches TrackedStep::Item(f) && f@.worktree_status
                            == StatusChar::Modified))
                        &&& (r is Skipped ==> spec_disk_hash(disk@) == Option::Some(entry.oid@))
                        &&& (r is Skipped ==> exists|head: Option<Seq<u8>>|
                            !(#[trigger] spec_tracked_status(
                                entry.path@,
                                entry.oid@,
                                head,
                                disk@,
                                false,
                                Option::None,
                            )).spec_has_changes())
                    },
                }
            },
    {
        if self.pos >= self.index_entries.len() {
            if self.show_untracked && !self.untracked_started {
                self.untracked_started = true;
            }
            return TrackedStep::Exhausted;
        }
        let i = self.pos;
        self.pos = i + 1;
        let disk_hash: Option<Vec<u8>> = match disk {
            DiskFile::Missing => Option::None,
            DiskFile::Contents(c) => match hash_blob(c) {
                Result::Ok(h) => Option::Some(h),
                Result::Err(e) => {
                    return TrackedStep::ItemError(e);
                },
            },
            DiskFile::Unreadable(m) => {
                return TrackedStep::ItemError(StatusError::Io(m.clone()));
            },
        };
        let dhr = disk_hash.as_ref();
        let chars = self.compute_index_status(
            &self.index_entries[i].path,
            &self.index_entries[i].oid,
            dhr,
        );
        let file_status = FileStatus {
            path: self.index_entries[i].path.clone(),
            index_status: StatusChar::from_char(chars.0),
            worktree_status: StatusChar::from_char(chars.1),
            metadata: Option::None,
        };
        proof {
            let entry = old(self).index_entries@[i as int];
            let head_w = choose|h: Option<Seq<u8>>|
                chars == #[trigger] spec_status_chars(h, entry.oid@, spec_opt_bytes(dhr));
            assert(spec_opt_bytes(dhr) == spec_disk_hash(disk@));
            lemma_status_char_roundtrip(spec_index_status(head_w, entry.oid@));
            lemma_status_char_roundtrip(
                spec_worktree_status(spec_disk_hash(disk@), entry.oid@),
            );
            assert(file_status@ == spec_tracked_status(
                entry.path@,
                entry.oid@,
                head_w,
                disk@,
                false,
                Option::None,
            ));
        }
        if file_status.has_changes() {
            TrackedStep::Item(file_status)
        } else {
            TrackedStep::Skipped
        }
    }

    /// Enter the untracked phase, which follows the tracked one: once the
    /// tracked rows are exhausted, and when the iterator was asked to show
    /// untracked files, the untracked walk continues from the snapshot
    /// this iterator already captured, at the default depth.
    pub fn into_untracked(self) -> (r: Option<UntrackedIter>)
        requires
            self.pos >= self.index_entries@.len(),
        ensures
            match r {
                Option::Some(w) => {
                    &&& self.show_untracked
                    &&& w.work_dir == self.work_dir
                    &&& w.index == self.index_entries
                    &&& w.filter is Normal
                    &&& w.queue@.len() == 0
                    &&& w.pending_error is None
                    &&& w.dir_stack@.len() == 1 && w.dir_stack@[0]@.len() == 0
                },
                Option::None => !self.show_untracked,
            },
    {
        if self.show_untracked {
            Option::Some(
                UntrackedIter::from_snapshot(
                    self.work_dir,
                    self.index_entries,
                    UntrackedFilter::Normal,
                ),
            )
        } else {
            Option::None
        }
    }
}

/// A path present in both HEAD tree and index with equal hashes, and whose
/// on-disk content hashes to that same value, carries no change on either
/// side; the engine discards such an entry rather than yield it.
pub proof fn lemma_clean_path_has_no_changes(entry_oid: Seq<u8>)
    ensures
        spec_index_status(Option::Some(entry_oid), entry_oid) == StatusChar::Unchanged,
        spec_worktree_status(Option::Some(entry_oid), entry_oid) == StatusChar::Unchanged,
{
}

/// A path whose HEAD-tree hash equals its index hash, and whose on-disk
/// bytes hash to that same value, derives a status without changes on
/// either side — and the engine discards entries without changes, so it
/// yields no entry for such a path.
pub proof fn lemma_clean_path_not_yielded(
    path: Seq<char>,
    entry_oid: Seq<u8>,
    content: Seq<u8>,
    include_meta: bool,
    meta: Option<FileMetadata>,
)
    requires
        blob_hash_of(content) == entry_oid,
    ensures
        !spec_tracked_status(
            path,
            entry_oid,
            Option::Some(entry_oid),
            DiskFileV::Contents(content),
            include_meta,
            meta,
        ).spec_has_changes(),
{
}

/// A path in the index but absent from the HEAD tree is derived as `Added`
/// on the index side, whatever the disk holds.
pub proof fn lemma_absent_from_head_is_added(entry_oid: Seq<u8>, disk_hash: Option<Seq<u8>>)
    ensures
        spec_index_status(Option::None, entry_oid) == StatusChar::Added,
        spec_status_chars(Option::None, entry_oid, disk_hash).0 == 'A',
{
}

/// A path in both HEAD tree and index with matching hashes, but missing from
/// disk, is derived as `Unchanged` on the index side and `Deleted` on the
/// worktree side.
pub proof fn lemma_missing_on_disk_is_deleted(entry_oid: Seq<u8>)
    ensures
        spec_index_status(Option::Some(entry_oid), entry_oid) == StatusChar::Unchanged,
        spec_worktree_status(Option::None, entry_oid) == StatusChar::Deleted,
        spec_status_chars(Option::Some(entry_oid), entry_oid, Option::None) == (' ', 'D'),
{
}

} // verus!
