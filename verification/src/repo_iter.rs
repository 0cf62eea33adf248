//! The status pipeline: one lazy stream that yields tracked-status items
//! first and untracked items second, with an optional status-code filter,
//! optional metadata, and an optional subdirectory scope.
//!
//! The pipeline is a pull-based state machine. `next_request` says what the
//! pipeline needs: the bytes of one tracked path, the listing of one
//! directory, a pull of ready items, or nothing more. The caller performs
//! the filesystem work and hands the result to `next_tracked`,
//! `feed_listing` and `next_untracked`.

use vstd::prelude::*;

use crate::index::IndexedFile;
use crate::index::IndexedFileV;
use crate::index::get_index_entries;
use crate::repo::get_head_tree;
use crate::repo::hash_blob;
use crate::repo::hash_ok;
use crate::repo::repo_work_dir;
use crate::repo::tree_lookup;
use crate::status::DiskFile;
use crate::status::DiskFileV;
use crate::status::TrackedStep;
use crate::status::spec_disk_hash;
use crate::status::spec_index_status;
use crate::status::spec_opt_bytes;
use crate::status::spec_status_chars;
use crate::status::spec_tracked_status;
use crate::status::spec_worktree_status;
use crate::status::status_chars;
use crate::text::join_under;
use crate::text::spec_is_prefix;
use crate::text::spec_join_under;
use crate::text::starts_with;
use crate::types::FileMetadata;
use crate::types::FileStatus;
use crate::types::FileStatusV;
use crate::types::StatusChar;
use crate::types::StatusError;
use crate::types::lemma_status_char_roundtrip;
use crate::untracked::DirEntryInfo;
use crate::untracked::process_listing;
use crate::untracked::spec_listing_descents;
use crate::untracked::spec_listing_yields;

verus! {

/// Which phases of the pipeline run.
#[derive(Debug, Clone, Copy, PartialEq, Eq, Structural)]
pub enum IterMode {
    TrackedOnly,
    Untracked,
    Both,
}

/// Where the pipeline stands: tracked entries first, then the untracked
/// walk.
#[derive(Debug, Clone, Copy, PartialEq, Eq, Structural)]
pub enum IterationPhase {
    TrackedPhase,
    Untracked,
}

/// What the pipeline needs next.
pub enum PipelineStep {
    /// Read this file (or find it missing) and call `next_tracked`.
    NeedFile(String),
    /// List this directory and call `feed_listing`.
    NeedDir(String),
    /// Ready items or a held error are waiting: call `next_untracked`.
    Pull,
    /// The stream is exhausted.
    Done,
}

/// The model of an optional status-code filter.
pub open spec fn spec_filter_model(f: Option<Vec<StatusChar>>) -> Option<Seq<StatusChar>> {
    match f {
        Option::None => Option::None,
        Option::Some(v) => Option::Some(v@),
    }
}

/// Whether a status passes the optional status-code filter: no filter
/// passes everything; a filter passes an item whose index-side or
/// worktree-side code occurs in it.
pub open spec fn spec_filter_allows(filter: Option<Seq<StatusChar>>, f: FileStatusV) -> bool {
    match filter {
        Option::None => true,
        Option::Some(cs) => cs.contains(f.index_status) || cs.contains(f.worktree_status),
    }
}

/// Whether a status-code list holds the given code.
fn chars_contain(v: &Vec<StatusChar>, c: StatusChar) -> (r: bool)
    ensures
        r == v@.contains(c),
{
    let n = v.len();
    let mut i: usize = 0;
    while i < n
        invariant
            n == v@.len(),
            i <= n,
            forall|j: int| 0 <= j < i ==> v@[j] != c,
        decreases n - i,
    {
        if v[i] == c {
            return true;
        }
        i += 1;
    }
    false
}

/// Evaluate the optional status-code filter on one status.
pub fn status_allowed(filter: &Option<Vec<StatusChar>>, f: &FileStatus) -> (r: bool)
    ensures
        r == spec_filter_allows(spec_filter_model(*filter), f@),
{
    match filter {
        Option::None => true,
        Option::Some(cs) => chars_contain(cs, f.index_status) || chars_contain(
            cs,
            f.worktree_status,
        ),
    }
}

/// Keep the statuses the filter allows, in order.
fn filter_statuses(filter: &Option<Vec<StatusChar>>, items: Vec<FileStatus>) -> (r: Vec<
    FileStatus,
>)
    ensures
        r@.map_values(|f: FileStatus| f@) == items@.map_values(|f: FileStatus| f@).filter(
            |fv: FileStatusV| spec_filter_allows(spec_filter_model(*filter), fv),
        ),
{
    let ghost pred = |fv: FileStatusV| spec_filter_allows(spec_filter_model(*filter), fv);
    let ghost model = items@.map_values(|f: FileStatus| f@);
    let mut rest = items;
    let mut out: Vec<FileStatus> = Vec::new();
    let ghost k: int = 0;
    proof {
        reveal(Seq::filter);
        assert(model.take(0) =~= Seq::<FileStatusV>::empty());
    }
    #[verifier::loop_isolation(false)]
    while rest.len() > 0
        invariant
            0 <= k <= model.len(),
            rest@.map_values(|f: FileStatus| f@) == model.skip(k),
            out@.map_values(|f: FileStatus| f@) == model.take(k).filter(pred),
        decreases rest@.len(),
    {
        let ghost prev = out@;
        let item = rest.remove(0);
        proof {
            reveal(Seq::filter);
            assert(rest@.map_values(|f: FileStatus| f@) =~= model.skip(k).drop_first());
            assert(model.skip(k).drop_first() =~= model.skip(k + 1));
            assert(item@ == model.skip(k)[0]);
            assert(model.skip(k)[0] == model[k]);
            assert(model.take(k + 1).drop_last() =~= model.take(k));
            assert(model.take(k + 1).last() == model[k]);
        }
        if status_allowed(filter, &item) {
            out.push(item);
            proof {
                assert(out@.map_values(|f: FileStatus| f@) =~= prev.map_values(
                    |f: FileStatus| f@,
                ).push(model[k]));
            }
        }
        proof {
            k = k + 1;
        }
    }
    proof {
        assert(model.skip(k).len() == 0);
        assert(k == model.len());
        assert(model.take(k) =~= model);
    }
    out
}

/// Keep the index rows whose paths start with the given prefix, in order:
/// exactly the subdirectory scoping the pipeline applies to the snapshot
/// it reads at construction.
pub fn filter_entries_by_prefix(entries: Vec<IndexedFile>, prefix: &String) -> (r: Vec<
    IndexedFile,
>)
    ensures
        r@.map_values(|e: IndexedFile| e@) == entries@.map_values(|e: IndexedFile| e@).filter(
            |ev: IndexedFileV| spec_is_prefix(prefix@, ev.path),
        ),
{
    let ghost pred = |ev: IndexedFileV| spec_is_prefix(prefix@, ev.path);
    let ghost model = entries@.map_values(|e: IndexedFile| e@);
    let mut rest = entries;
    let mut out: Vec<IndexedFile> = Vec::new();
    let ghost k: int = 0;
    proof {
        reveal(Seq::filter);
        assert(model.take(0) =~= Seq::<IndexedFileV>::empty());
    }
    #[verifier::loop_isolation(false)]
    while rest.len() > 0
        invariant
            0 <= k <= model.len(),
            rest@.map_values(|e: IndexedFile| e@) == model.skip(k),
            out@.map_values(|e: IndexedFile| e@) == model.take(k).filter(pred),
        decreases rest@.len(),
    {
        let ghost prev = out@;
        let item = rest.remove(0);
        proof {
            reveal(Seq::filter);
            assert(rest@.map_values(|e: IndexedFile| e@) =~= model.skip(k).drop_first());
            assert(model.skip(k).drop_first() =~= model.skip(k + 1));
            assert(item@ == model.skip(k)[0]);
            assert(model.skip(k)[0] == model[k]);
            assert(model.take(k + 1).drop_last() =~= model.take(k));
            assert(model.take(k + 1).last() == model[k]);
        }
        if starts_with(item.path.as_str(), prefix.as_str()) {
            out.push(item);
            proof {
                assert(out@.map_values(|e: IndexedFile| e@) =~= prev.map_values(
                    |e: IndexedFile| e@,
                ).push(model[k]));
            }
        }
        proof {
            k = k + 1;
        }
    }
    proof {
        assert(model.skip(k).len() == 0);
        assert(k == model.len());
        assert(model.take(k) =~= model);
    }
    out
}

/// The step the untracked side of the pipeline owes in a given state: a
/// pull while queued items or a held error wait, the listing of the
/// stack's top directory while directories remain, and the end of the
/// stream once nothing does.
pub open spec fn spec_untracked_dispatch(s: RepoIter, r: PipelineStep) -> bool {
    if s.queue@.len() > 0 || !(s.pending_error is None) {
        r is Pull
    } else if s.dir_stack@.len() > 0 {
        r matches PipelineStep::NeedDir(d) && d@ == spec_join_under(
            s.work_dir@,
            s.dir_stack@[s.dir_stack@.len() - 1]@,
        )
    } else {
        r is Done
    }
}

/// Builder for the status pipeline.
pub struct RepoIterBuilder {
    pub repo: gix::Repository,
    pub mode: IterMode,
    pub status_filter: Option<Vec<StatusChar>>,
    pub include_metadata: bool,
    pub subdir: Option<String>,
}

impl RepoIterBuilder {
    /// A builder that runs both phases, filters nothing, attaches no
    /// metadata and scopes to the whole working tree.
    pub fn new(repo: gix::Repository) -> (r: Self)
        ensures
            r.mode is Both,
            r.status_filter is None,
            r.include_metadata == false,
            r.subdir is None,
    {
        RepoIterBuilder {
            repo,
            mode: IterMode::Both,
            status_filter: Option::None,
            include_metadata: false,
            subdir: Option::None,
        }
    }

    /// Choose which phases run.
    pub fn mode(self, mode: IterMode) -> (r: Self)
        ensures
            r.mode == mode,
            r.status_filter == self.status_filter,
            r.include_metadata == self.include_metadata,
            r.subdir == self.subdir,
    {
        RepoIterBuilder { mode, ..self }
    }

    /// Keep only items one of whose status codes occurs in `chars`.
    pub fn filter(self, chars: Vec<StatusChar>) -> (r: Self)
        ensures
            r.mode == self.mode,
            r.status_filter == Option::Some(chars),
            r.include_metadata == self.include_metadata,
            r.subdir == self.subdir,
    {
        RepoIterBuilder { status_filter: Option::Some(chars), ..self }
    }

    /// Choose whether each yielded item carries stat metadata.
    pub fn include_metadata(self, attach: bool) -> (r: Self)
        ensures
            r.mode == self.mode,
            r.status_filter == self.status_filter,
            r.include_metadata == attach,
            r.subdir == self.subdir,
    {
        RepoIterBuilder { include_metadata: attach, ..self }
    }

    /// Scope the pipeline to one subdirectory of the working tree.
    pub fn subdir(self, path: String) -> (r: Self)
        ensures
            r.mode == self.mode,
            r.status_filter == self.status_filter,
            r.include_metadata == self.include_metadata,
            r.subdir == Option::Some(path),
    {
        RepoIterBuilder { subdir: Option::Some(path), ..self }
    }

    /// Snapshot the repository and build the pipeline.
    pub fn build(self) -> (r: Result<RepoIter, StatusError>)
        ensures
            r matches Result::Err(e) ==> e is Backend,
            r matches Result::Ok(it) ==> {
                &&& it.repo == self.repo
                &&& it.mode == self.mode
                &&& it.status_filter == self.status_filter
                &&& it.include_metadata == self.include_metadata
                &&& it.phase is TrackedPhase
                &&& it.pos == 0
                &&& it.queue@.len() == 0
                &&& it.pending_error is None
                &&& (self.mode is Untracked ==> it.entries@.len() == 0)
                &&& (self.mode is TrackedOnly ==> it.dir_stack@.len() == 0)
                &&& (!(self.mode is TrackedOnly) ==> it.dir_stack@.len() == 1
                    && it.dir_stack@[0]@ == (match self.subdir {
                    Option::Some(d) => d@,
                    Option::None => Seq::<char>::empty(),
                }))
                &&& (match self.subdir {
                    Option::Some(d) => forall|j: int|
                        0 <= j < it.entries@.len() ==> spec_is_prefix(
                            d@,
                            #[trigger] it.entries@[j].path@,
                        ),
                    Option::None => true,
                })
            },
    {
        RepoIter::new(self.repo, self.mode, self.status_filter, self.include_metadata, self.subdir)
    }
}

/// The status pipeline over a live repository.
///
/// The working-directory root, the HEAD tree reference and the index
/// snapshot are captured once at construction and not refreshed during
/// iteration. During the tracked phase the cursor `pos` walks `entries`;
/// during the untracked phase `dir_stack`, `queue` and `pending_error`
/// drive the walk as in the untracked walker, except that directories are
/// always descended into.
pub struct RepoIter {
    pub repo: gix::Repository,
    pub work_dir: String,
    pub head_tree_id: Vec<u8>,
    pub entries: Vec<IndexedFile>,
    pub pos: usize,
    pub dir_stack: Vec<String>,
    pub queue: Vec<FileStatus>,
    pub pending_error: Option<String>,
    pub mode: IterMode,
    pub status_filter: Option<Vec<StatusChar>>,
    pub include_metadata: bool,
    pub phase: IterationPhase,
}

impl RepoIter {
    /// The model of the index snapshot this pipeline was built over.
    pub open spec fn index_model(&self) -> Seq<IndexedFileV> {
        self.entries@.map_values(|x: IndexedFile| x@)
    }

    /// Open the snapshot: working-directory root, HEAD tree reference, and
    /// the index rows, scoped to `subdir` when one is given.
    fn new(
        repo: gix::Repository,
        mode: IterMode,
        status_filter: Option<Vec<StatusChar>>,
        include_metadata: bool,
        subdir: Option<String>,
    ) -> (r: Result<RepoIter, StatusError>)
        ensures
            r matches Result::Err(e) ==> e is Backend,
            r matches Result::Ok(it) ==> {
                &&& it.repo == repo
                &&& it.mode == mode
                &&& it.status_filter == status_filter
                &&& it.include_metadata == include_metadata
                &&& it.phase is TrackedPhase
                &&& it.pos == 0
                &&& it.queue@.len() == 0
                &&& it.pending_error is None
                &&& (mode is Untracked ==> it.entries@.len() == 0)
                &&& (mode is TrackedOnly ==> it.dir_stack@.len() == 0)
                &&& (!(mode is TrackedOnly) ==> it.dir_stack@.len() == 1 && it.dir_stack@[0]@ == (
                match subdir {
                    Option::Some(d) => d@,
                    Option::None => Seq::<char>::empty(),
                }))
                &&& (match subdir {
                    Option::Some(d) => forall|j: int|
                        0 <= j < it.entries@.len() ==> spec_is_prefix(
                            d@,
                            #[trigger] it.entries@[j].path@,
                        ),
                    Option::None => true,
                })
            },
    {
        let work_dir = match repo_work_dir(&repo) {
            Option::Some(d) => d,
            Option::None => {
                return Result::Err(
                    StatusError::Backend("Repository has no working directory".to_owned()),
                );
            },
        };
        let head_tree_id = match get_head_tree(&repo) {
            Result::Ok(id) => id,
            Result::Err(e) => {
                return Result::Err(e);
            },
        };
        let entries: Vec<IndexedFile> = if matches!(mode, IterMode::Untracked) {
            Vec::new()
        } else {
            let all = match get_index_entries(&repo) {
                Result::Ok(i) => i,
                Result::Err(e) => {
                    return Result::Err(e);
                },
            };
            match &subdir {
                Option::Some(d) => {
                    let kept = filter_entries_by_prefix(all, d);
                    proof {
                        broadcast use vstd::seq_lib::group_seq_properties;

                        reveal(Seq::filter);
                        assert forall|j: int| 0 <= j < kept@.len() implies spec_is_prefix(
                            d@,
                            #[trigger] kept@[j].path@,
                        ) by {
                            let m = kept@.map_values(|e: IndexedFile| e@);
                            assert(m[j] == kept@[j]@);
                            assert(m[j].path == kept@[j].path@);
                        }
                    }
                    kept
                },
                Option::None => all,
            }
        };
        let start_rel: String = match &subdir {
            Option::Some(d) => d.clone(),
            Option::None => String::new(),
        };
        let dir_stack: Vec<String> = if matches!(mode, IterMode::TrackedOnly) {
            Vec::new()
        } else {
            let mut s: Vec<String> = Vec::new();
            s.push(start_rel);
            s
        };
        Result::Ok(
            RepoIter {
                repo,
                work_dir,
                head_tree_id,
                entries,
                pos: 0,
                dir_stack,
                queue: Vec::new(),
                pending_error: Option::None,
                mode,
                status_filter,
                include_metadata,
                phase: IterationPhase::TrackedPhase,
            },
        )
    }

    /// Start building a status pipeline.
    pub fn builder(repo: gix::Repository) -> (r: RepoIterBuilder)
        ensures
            r.mode is Both,
            r.status_filter is None,
            r.include_metadata == false,
            r.subdir is None,
    {
        RepoIterBuilder::new(repo)
    }

    /// Whether the optional status-code filter drops a tracked item: it
    /// does when a filter is set and neither status code occurs in it.
    pub fn should_filter_out_tracked(&self, status: &FileStatus) -> (r: bool)
        ensures
            r == !spec_filter_allows(spec_filter_model(self.status_filter), status@),
    {
        !status_allowed(&self.status_filter, status)
    }

    /// Whether the optional status-code filter drops an untracked item;
    /// the same rule as for tracked items.
    pub fn should_filter_out_untracked(&self, status: &FileStatus) -> (r: bool)
        ensures
            r == !spec_filter_allows(spec_filter_model(self.status_filter), status@),
    {
        !status_allowed(&self.status_filter, status)
    }

    /// The full status of one tracked path, from the HEAD tree lookup, the
    /// disk observation handed in, and the metadata rules: a missing path
    /// gets epoch-zero metadata, a present one the caller's stat result,
    /// and no metadata is attached unless the pipeline was asked for it.
    pub fn compute_file_status(
        &self,
        path: String,
        entry_oid: &Vec<u8>,
        disk: &DiskFile,
        meta: Option<FileMetadata>,
    ) -> (r: Result<FileStatus, StatusError>)
        ensures
            match disk@ {
                DiskFileV::Unreadable(m) => r matches Result::Err(StatusError::Io(mm)) && mm@
                    == m,
                DiskFileV::Missing => r matches Result::Ok(f) && exists|head: Option<Seq<u8>>|
                    f@ == #[trigger] spec_tracked_status(
                        path@,
                        entry_oid@,
                        head,
                        disk@,
                        self.include_metadata,
                        meta,
                    ),
                DiskFileV::Contents(c) => {
                    &&& (r is Ok <==> hash_ok(c))
                    &&& r matches Result::Ok(f) ==> exists|head: Option<Seq<u8>>|
                        f@ == #[trigger] spec_tracked_status(
                            path@,
                            entry_oid@,
                            head,
                            disk@,
                            self.include_metadata,
                            meta,
                        )
                    &&& r matches Result::Err(e) ==> e is Io
                },
            },
    {
        let disk_hash: Option<Vec<u8>> = match disk {
            DiskFile::Missing => Option::None,
            DiskFile::Contents(c) => match hash_blob(c) {
                Result::Ok(h) => Option::Some(h),
                Result::Err(e) => {
                    return Result::Err(e);
                },
            },
            DiskFile::Unreadable(m) => {
                return Result::Err(StatusError::Io(m.clone()));
            },
        };
        let head = tree_lookup(&self.repo, &self.head_tree_id, path.as_str());
        let head_ref = head.as_ref();
        let dhr = disk_hash.as_ref();
        let chars = status_chars(head_ref, entry_oid, dhr);
        let metadata: Option<FileMetadata> = if self.include_metadata {
            match disk {
                DiskFile::Missing => Option::Some(FileMetadata { modified_time: 0, size: 0 }),
                _ => meta,
            }
        } else {
            Option::None
        };
        let file_status = FileStatus {
            path,
            index_status: StatusChar::from_char(chars.0),
            worktree_status: StatusChar::from_char(chars.1),
            metadata,
        };
        proof {
            let head_w = spec_opt_bytes(head_ref);
            assert(chars == spec_status_chars(head_w, entry_oid@, spec_opt_bytes(dhr)));
            assert(spec_opt_bytes(dhr) == spec_disk_hash(disk@));
            lemma_status_char_roundtrip(spec_index_status(head_w, entry_oid@));
            lemma_status_char_roundtrip(spec_worktree_status(spec_disk_hash(disk@), entry_oid@));
            assert(file_status@ == spec_tracked_status(
                path@,
                entry_oid@,
                head_w,
                disk@,
                self.include_metadata,
                meta,
            ));
        }
        Result::Ok(file_status)
    }

    /// One tracked pull: derive the status of the entry at the cursor from
    /// the given disk observation, advance, and yield the status if it
    /// records a change and passes the filter.
    pub fn next_tracked(&mut self, disk: &DiskFile, meta: Option<FileMetadata>) -> (r:
        TrackedStep)
        requires
            old(self).phase is TrackedPhase,
            !(old(self).mode is Untracked),
            old(self).pos < old(self).entries@.len(),
        ensures
            final(self).repo == old(self).repo,
            final(self).work_dir == old(self).work_dir,
            final(self).head_tree_id == old(self).head_tree_id,
            final(self).entries == old(self).entries,
            final(self).dir_stack == old(self).dir_stack,
            final(self).queue == old(self).queue,
            final(self).pending_error == old(self).pending_error,
            final(self).mode == old(self).mode,
            final(self).status_filter == old(self).status_filter,
            final(self).include_metadata == old(self).include_metadata,
            final(self).phase == old(self).phase,
            final(self).pos == old(self).pos + 1,
            match disk@ {
                DiskFileV::Unreadable(m) => r matches TrackedStep::ItemError(StatusError::Io(mm))
                    && mm@ == m,
                _ => {
                    let entry = old(self).entries@[old(self).pos as int];
                    &&& r matches TrackedStep::Item(f) ==> f@.spec_has_changes()
                        && spec_filter_allows(spec_filter_model(old(self).status_filter), f@)
                        && exists|head: Option<Seq<u8>>|
                        f@ == #[trigger] spec_tracked_status(
                            entry.path@,
                            entry.oid@,
                            head,
                            disk@,
                            old(self).include_metadata,
                            meta,
                        )
                    &&& r matches TrackedStep::ItemError(e) ==> e is Io
                    &&& !(r is Exhausted)
                    &&& (disk@ matches DiskFileV::Contents(c) ==> (r is ItemError <==> !hash_ok(
                        c,
                    )))
                    &&& (disk@ is Missing && old(self).status_filter is None ==> (
                    r matches TrackedStep::Item(f) && f@.worktree_status == StatusChar::Deleted))
                    &&& ((disk@ matches DiskFileV::Contents(c) && hash_ok(c)
                        && crate::repo::blob_hash_of(c) != entry.oid@ && old(self).status_filter
                        is None) ==> (r matches TrackedStep::Item(f) && f@.worktree_status
                        == StatusChar::Modified))
                    &&& (r is Skipped ==> exists|head: Option<Seq<u8>>|
                        {
                            ||| !(#[trigger] spec_tracked_status(
                                entry.path@,
                                entry.oid@,
                                head,
                                disk@,
                                old(self).include_metadata,
                                meta,
                            )).spec_has_changes()
                            ||| !spec_filter_allows(
                                spec_filter_model(old(self).status_filter),
                                spec_tracked_status(
                                    entry.path@,
                                    entry.oid@,
                                    head,
                                    disk@,
                                    old(self).include_metadata,
                                    meta,
                                ),
                            )
                        })
                    &&& (old(self).status_filter is None && r is Skipped ==> spec_disk_hash(disk@)
                        == Option::Some(entry.oid@))
                },
            },
    {
        let n = self.entries.len();
        let i = self.pos;
        self.pos = i + 1;
        let path = self.entries[i].path.clone();
        let fs = match self.compute_file_status(path, &self.entries[i].oid, disk, meta) {
            Result::Ok(f) => f,
            Result::Err(e) => {
                return TrackedStep::ItemError(e);
            },
        };
        let keep = fs.has_changes() && !self.should_filter_out_tracked(&fs);
        proof {
            let entry = old(self).entries@[i as int];
            let head_w = choose|h: Option<Seq<u8>>|
                fs@ == #[trigger] spec_tracked_status(
                    entry.path@,
                    entry.oid@,
                    h,
                    disk@,
                    old(self).include_metadata,
                    meta,
                );
            assert(fs@ == spec_tracked_status(
                entry.path@,
                entry.oid@,
                head_w,
                disk@,
                old(self).include_metadata,
                meta,
            ));
        }
        if keep {
            TrackedStep::Item(fs)
        } else {
            TrackedStep::Skipped
        }
    }

    /// The directory whose listing the untracked walk needs next, as a
    /// filesystem path; `None` while pulled items remain, and once the walk
    /// is finished.
    pub fn pending_dir(&self) -> (r: Option<String>)
        ensures
            match r {
                Option::None => !(self.phase is Untracked) || self.queue@.len() > 0 || !(
                self.pending_error is None) || self.dir_stack@.len() == 0,
                Option::Some(d) => {
                    &&& self.phase is Untracked
                    &&& self.queue@.len() == 0
                    &&& self.pending_error is None
                    &&& self.dir_stack@.len() > 0
                    &&& d@ == spec_join_under(
                        self.work_dir@,
                        self.dir_stack@[self.dir_stack@.len() - 1]@,
                    )
                },
            },
    {
        if !matches!(self.phase, IterationPhase::Untracked) || self.queue.len() > 0
            || self.pending_error.is_some() || self.dir_stack.len() == 0 {
            return Option::None;
        }
        let top = &self.dir_stack[self.dir_stack.len() - 1];
        Option::Some(join_under(self.work_dir.as_str(), top.as_str()))
    }

    /// Hand in the listing of the directory `pending_dir` asked for, or
    /// the error that listing it produced. The directory's untracked
    /// files that pass the filter are queued in listing order; its
    /// subdirectories are stacked unconditionally.
    pub fn feed_listing(&mut self, listing: Result<Vec<DirEntryInfo>, String>)
        requires
            old(self).phase is Untracked,
            old(self).queue@.len() == 0,
            old(self).pending_error is None,
            old(self).dir_stack@.len() > 0,
        ensures
            final(self).repo == old(self).repo,
            final(self).work_dir == old(self).work_dir,
            final(self).head_tree_id == old(self).head_tree_id,
            final(self).entries == old(self).entries,
            final(self).pos == old(self).pos,
            final(self).mode == old(self).mode,
            final(self).status_filter == old(self).status_filter,
            final(self).include_metadata == old(self).include_metadata,
            final(self).phase == old(self).phase,
            match listing {
                Result::Ok(entries) => {
                    &&& final(self).pending_error is None
                    &&& final(self).queue@.map_values(|f: FileStatus| f@) == spec_listing_yields(
                        old(self).dir_stack@.last()@,
                        entries@.map_values(|e: DirEntryInfo| e@),
                        old(self).index_model(),
                        true,
                        old(self).include_metadata,
                    ).filter(
                        |fv: FileStatusV| spec_filter_allows(
                            spec_filter_model(old(self).status_filter),
                            fv,
                        ),
                    )
                    &&& final(self).dir_stack@.map_values(|d: String| d@) == old(
                        self,
                    ).dir_stack@.drop_last().map_values(|d: String| d@) + spec_listing_descents(
                        old(self).dir_stack@.last()@,
                        entries@.map_values(|e: DirEntryInfo| e@),
                        old(self).index_model(),
                        true,
                        old(self).include_metadata,
                    )
                },
                Result::Err(e) => {
                    &&& final(self).pending_error == Option::Some(e)
                    &&& final(self).queue@.len() == 0
                    &&& final(self).dir_stack@ == old(self).dir_stack@.drop_last()
                },
            },
    {
        let dir_rel = self.dir_stack.pop().unwrap();
        match listing {
            Result::Ok(entries) => {
                let (yields, mut dirs) = process_listing(
                    &dir_rel,
                    &entries,
                    &self.entries,
                    true,
                    self.include_metadata,
                );
                self.queue = filter_statuses(&self.status_filter, yields);
                let ghost stacked = self.dir_stack@;
                let ghost added = dirs@;
                self.dir_stack.append(&mut dirs);
                proof {
                    assert(self.dir_stack@.map_values(|d: String| d@) =~= stacked.map_values(
                        |d: String| d@,
                    ) + added.map_values(|d: String| d@));
                }
            },
            Result::Err(e) => {
                self.pending_error = Option::Some(e);
            },
        }
    }

    /// Pull the next untracked item: a held directory error first, else
    /// the next queued untracked file; `None` once the current listing is
    /// drained.
    pub fn next_untracked(&mut self) -> (r: Option<Result<FileStatus, StatusError>>)
        ensures
            final(self).repo == old(self).repo,
            final(self).work_dir == old(self).work_dir,
            final(self).head_tree_id == old(self).head_tree_id,
            final(self).entries == old(self).entries,
            final(self).pos == old(self).pos,
            final(self).dir_stack == old(self).dir_stack,
            final(self).mode == old(self).mode,
            final(self).status_filter == old(self).status_filter,
            final(self).include_metadata == old(self).include_metadata,
            final(self).phase == old(self).phase,
            match old(self).pending_error {
                Option::Some(e) => {
                    &&& r matches Option::Some(item) && item matches Result::Err(
                        StatusError::Io(m),
                    ) && m == e
                    &&& final(self).pending_error is None
                    &&& final(self).queue == old(self).queue
                },
                Option::None => {
                    &&& final(self).pending_error is None
                    &&& if old(self).queue@.len() > 0 {
                        &&& r matches Option::Some(item) && item matches Result::Ok(f) && f == old(
                            self,
                        ).queue@[0]
                        &&& final(self).queue@ == old(self).queue@.drop_first()
                    } else {
                        &&& r is None
                        &&& final(self).queue == old(self).queue
                    }
                },
            },
    {
        match &self.pending_error {
            Option::Some(_) => {
                let e = self.pending_error.take().unwrap();
                Option::Some(Result::Err(StatusError::Io(e)))
            },
            Option::None => {
                if self.queue.len() > 0 {
                    let f = self.queue.remove(0);
                    Option::Some(Result::Ok(f))
                } else {
                    Option::None
                }
            },
        }
    }

    /// What the pipeline needs next, advancing the phase when the tracked
    /// phase is over: the disk observation of the next tracked entry, the
    /// listing of the next pending directory, a pull of ready untracked
    /// items, or nothing — the stream is exhausted.
    ///
    /// The returned step and the new phase are functions of the old state:
    /// the phase never moves backwards, it leaves the tracked phase exactly
    /// when the mode skips it or its entries are exhausted, and while the
    /// tracked phase runs with entries remaining the next entry's disk
    /// observation is always what is asked for.
    pub fn next_request(&mut self) -> (r: PipelineStep)
        ensures
            final(self).repo == old(self).repo,
            final(self).work_dir == old(self).work_dir,
            final(self).head_tree_id == old(self).head_tree_id,
            final(self).entries == old(self).entries,
            final(self).pos == old(self).pos,
            final(self).dir_stack == old(self).dir_stack,
            final(self).queue == old(self).queue,
            final(self).pending_error == old(self).pending_error,
            final(self).mode == old(self).mode,
            final(self).status_filter == old(self).status_filter,
            final(self).include_metadata == old(self).include_metadata,
            final(self).phase == (if old(self).phase is Untracked || old(self).mode is Untracked
                || (!(old(self).mode is TrackedOnly) && old(self).pos >= old(
                self,
            ).entries@.len()) {
                IterationPhase::Untracked
            } else {
                IterationPhase::TrackedPhase
            }),
            if final(self).phase is TrackedPhase {
                if old(self).pos < old(self).entries@.len() {
                    r matches PipelineStep::NeedFile(p) && p@ == spec_join_under(
                        old(self).work_dir@,
                        old(self).entries@[old(self).pos as int].path@,
                    )
                } else {
                    r is Done
                }
            } else {
                spec_untracked_dispatch(*final(self), r)
            },
    {
        if matches!(self.phase, IterationPhase::TrackedPhase) {
            if matches!(self.mode, IterMode::Untracked) {
                self.phase = IterationPhase::Untracked;
            } else if self.pos < self.entries.len() {
                return PipelineStep::NeedFile(
                    join_under(self.work_dir.as_str(), self.entries[self.pos].path.as_str()),
                );
            } else if matches!(self.mode, IterMode::TrackedOnly) {
                return PipelineStep::Done;
            } else {
                self.phase = IterationPhase::Untracked;
            }
        }
        if self.queue.len() > 0 || self.pending_error.is_some() {
            PipelineStep::Pull
        } else if self.dir_stack.len() > 0 {
            let top = &self.dir_stack[self.dir_stack.len() - 1];
            PipelineStep::NeedDir(join_under(self.work_dir.as_str(), top.as_str()))
        } else {
            PipelineStep::Done
        }
    }
}

} // verus!
