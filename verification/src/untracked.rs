//! The untracked walker: a stack-based, depth-first traversal of the
//! working tree that yields the on-disk files absent from the index.
//!
//! The walk is a resumable state machine. The caller lists one directory at
//! a time and hands the listing in; the walker decides, entry by entry,
//! whether to skip it, descend into it, or yield it as untracked.

use vstd::prelude::*;

use crate::index::IndexedFile;
use crate::index::IndexedFileV;
use crate::index::path_in_entries;
use crate::index::spec_in_index;
use crate::index::get_index_entries;
use crate::repo::repo_work_dir;
use crate::text::join_rel;
use crate::text::join_under;
use crate::text::spec_join_rel;
use crate::text::spec_join_under;
use crate::text::starts_with_dot;
use crate::types::FileMetadata;
use crate::types::FileStatus;
use crate::types::FileStatusV;
use crate::types::StatusChar;
use crate::types::StatusError;
use crate::types::UntrackedFilter;

verus! {

/// One entry of a directory listing, as the caller hands it in: the entry's
/// name if it is representable as text, whether it is a directory, and its
/// stat metadata if the caller gathered any.
#[derive(Debug, Clone)]
pub struct DirEntryInfo {
    pub name: Option<String>,
    pub is_dir: bool,
    pub meta: Option<FileMetadata>,
}

/// The mathematical value of a directory-listing entry.
pub struct DirEntryInfoV {
    pub name: Option<Seq<char>>,
    pub is_dir: bool,
    pub meta: Option<FileMetadata>,
}

impl View for DirEntryInfo {
    type V = DirEntryInfoV;

    open spec fn view(&self) -> DirEntryInfoV {
        DirEntryInfoV {
            name: match self.name {
                Option::None => Option::None,
                Option::Some(ref n) => Option::Some(n@),
            },
            is_dir: self.is_dir,
            meta: self.meta,
        }
    }
}

/// What the walker does with one directory entry.
pub enum EntryAction {
    /// Dropped: not representable as text, dot-named, or present in the
    /// index.
    Skip,
    /// A directory to traverse later, by its repository-relative path.
    Descend(String),
    /// An untracked file to yield.
    Yield(FileStatus),
}

/// The mathematical value of an `EntryAction`.
pub enum EntryActionV {
    Skip,
    Descend(Seq<char>),
    Yield(FileStatusV),
}

impl View for EntryAction {
    type V = EntryActionV;

    open spec fn view(&self) -> EntryActionV {
        match self {
            EntryAction::Skip => EntryActionV::Skip,
            EntryAction::Descend(d) => EntryActionV::Descend(d@),
            EntryAction::Yield(f) => EntryActionV::Yield(f@),
        }
    }
}

/// The walker's decision for one entry of the directory at `dir_rel`
/// (repository-relative; empty for the walk root):
/// - a name that is not representable as text is dropped silently;
/// - a name starting with `.` is skipped, which also covers the
///   version-control metadata directory;
/// - a path present in the index is skipped: it belongs to the tracked
///   phase;
/// - a directory is queued for traversal only when `descend` allows it;
/// - anything else is yielded as an untracked file, with metadata only when
///   `attach_meta` asks for it.
pub open spec fn spec_entry_action(
    dir_rel: Seq<char>,
    e: DirEntryInfoV,
    index: Seq<IndexedFileV>,
    descend: bool,
    attach_meta: bool,
) -> EntryActionV {
    match e.name {
        Option::None => EntryActionV::Skip,
        Option::Some(name) => if name.len() > 0 && name[0] == '.' {
            EntryActionV::Skip
        } else {
            let rel = spec_join_rel(dir_rel, name);
            if spec_in_index(index, rel) {
                EntryActionV::Skip
            } else if e.is_dir {
                if descend {
                    EntryActionV::Descend(rel)
                } else {
                    EntryActionV::Skip
                }
            } else {
                EntryActionV::Yield(
                    FileStatusV {
                        path: rel,
                        index_status: StatusChar::Unchanged,
                        worktree_status: StatusChar::Untracked,
                        metadata: if attach_meta {
                            e.meta
                        } else {
                            Option::None
                        },
                    },
                )
            }
        },
    }
}

/// Decide what to do with one directory entry; the decision is exactly
/// `spec_entry_action`.
pub fn process_entry(
    dir_rel: &String,
    entry: &DirEntryInfo,
    index: &Vec<IndexedFile>,
    descend: bool,
    attach_meta: bool,
) -> (r: EntryAction)
    ensures
        r@ == spec_entry_action(
            dir_rel@,
            entry@,
            index@.map_values(|x: IndexedFile| x@),
            descend,
            attach_meta,
        ),
{
    match &entry.name {
        Option::None => EntryAction::Skip,
        Option::Some(name) => {
            if starts_with_dot(name.as_str()) {
                return EntryAction::Skip;
            }
            let rel = join_rel(dir_rel.as_str(), name.as_str());
            if path_in_entries(index, &rel) {
                return EntryAction::Skip;
            }
            if entry.is_dir {
                if descend {
                    EntryAction::Descend(rel)
                } else {
                    EntryAction::Skip
                }
            } else {
                let metadata = if attach_meta {
                    entry.meta
                } else {
                    Option::None
                };
                EntryAction::Yield(
                    FileStatus {
                        path: rel,
                        index_status: StatusChar::Unchanged,
                        worktree_status: StatusChar::Untracked,
                        metadata,
                    },
                )
            }
        },
    }
}

/// The untracked files one directory listing yields, in listing order.
pub open spec fn spec_listing_yields(
    dir_rel: Seq<char>,
    entries: Seq<DirEntryInfoV>,
    index: Seq<IndexedFileV>,
    descend: bool,
    attach_meta: bool,
) -> Seq<FileStatusV>
    decreases entries.len(),
{
    if entries.len() == 0 {
        Seq::empty()
    } else {
        let rest = spec_listing_yields(dir_rel, entries.drop_first(), index, descend, attach_meta);
        match spec_entry_action(dir_rel, entries.first(), index, descend, attach_meta) {
            EntryActionV::Yield(f) => seq![f] + rest,
            _ => rest,
        }
    }
}

/// The subdirectories one directory listing queues for traversal, in
/// listing order.
pub open spec fn spec_listing_descents(
    dir_rel: Seq<char>,
    entries: Seq<DirEntryInfoV>,
    index: Seq<IndexedFileV>,
    descend: bool,
    attach_meta: bool,
) -> Seq<Seq<char>>
    decreases entries.len(),
{
    if entries.len() == 0 {
        Seq::empty()
    } else {
        let rest = spec_listing_descents(
            dir_rel,
            entries.drop_first(),
            index,
            descend,
            attach_meta,
        );
        match spec_entry_action(dir_rel, entries.first(), index, descend, attach_meta) {
            EntryActionV::Descend(d) => seq![d] + rest,
            _ => rest,
        }
    }
}

/// Process one whole directory listing: the untracked files it yields and
/// the subdirectories it queues, both in listing order.
pub fn process_listing(
    dir_rel: &String,
    entries: &Vec<DirEntryInfo>,
    index: &Vec<IndexedFile>,
    descend: bool,
    attach_meta: bool,
) -> (r: (Vec<FileStatus>, Vec<String>))
    ensures
        r.0@.map_values(|f: FileStatus| f@) == spec_listing_yields(
            dir_rel@,
            entries@.map_values(|e: DirEntryInfo| e@),
            index@.map_values(|x: IndexedFile| x@),
            descend,
            attach_meta,
        ),
        r.1@.map_values(|d: String| d@) == spec_listing_descents(
            dir_rel@,
            entries@.map_values(|e: DirEntryInfo| e@),
            index@.map_values(|x: IndexedFile| x@),
            descend,
            attach_meta,
        ),
{
    let ghost es = entries@.map_values(|e: DirEntryInfo| e@);
    let ghost ix = index@.map_values(|x: IndexedFile| x@);
    let mut yields: Vec<FileStatus> = Vec::new();
    let mut dirs: Vec<String> = Vec::new();
    let n = entries.len();
    let mut i: usize = 0;
    proof {
        assert(es.skip(0) =~= es);
    }
    #[verifier::loop_isolation(false)]
    while i < n
        invariant
            i <= n,
            spec_listing_yields(dir_rel@, es, ix, descend, attach_meta) == yields@.map_values(
                |f: FileStatus| f@,
            ) + spec_listing_yields(dir_rel@, es.skip(i as int), ix, descend, attach_meta),
            spec_listing_descents(dir_rel@, es, ix, descend, attach_meta) == dirs@.map_values(
                |d: String| d@,
            ) + spec_listing_descents(dir_rel@, es.skip(i as int), ix, descend, attach_meta),
        decreases n - i,
    {
        let a = process_entry(dir_rel, &entries[i], index, descend, attach_meta);
        proof {
            assert(es.skip(i as int).first() == es[i as int]);
            assert(es.skip(i as int).drop_first() =~= es.skip(i as int + 1));
        }
        let ghost old_yields = yields@;
        let ghost old_dirs = dirs@;
        match a {
            EntryAction::Skip => {},
            EntryAction::Descend(d) => {
                dirs.push(d);
                proof {
                    assert(dirs@.map_values(|x: String| x@) =~= old_dirs.map_values(
                        |x: String| x@,
                    ) + seq![d@]);
                    assert(seq![d@] + spec_listing_descents(
                        dir_rel@,
                        es.skip(i as int + 1),
                        ix,
                        descend,
                        attach_meta,
                    ) =~= spec_listing_descents(
                        dir_rel@,
                        es.skip(i as int),
                        ix,
                        descend,
                        attach_meta,
                    ));
                }
            },
            EntryAction::Yield(f) => {
                yields.push(f);
                proof {
                    assert(yields@.map_values(|x: FileStatus| x@) =~= old_yields.map_values(
                        |x: FileStatus| x@,
                    ) + seq![f@]);
                    assert(seq![f@] + spec_listing_yields(
                        dir_rel@,
                        es.skip(i as int + 1),
                        ix,
                        descend,
                        attach_meta,
                    ) =~= spec_listing_yields(
                        dir_rel@,
                        es.skip(i as int),
                        ix,
                        descend,
                        attach_meta,
                    ));
                }
            },
        }
        i += 1;
    }
    proof {
        assert(es.skip(n as int) =~= Seq::<DirEntryInfoV>::empty());
    }
    (yields, dirs)
}

/// How often a path occurs among yielded statuses.
pub open spec fn spec_count_path(ys: Seq<FileStatusV>, p: Seq<char>) -> int
    decreases ys.len(),
{
    if ys.len() == 0 {
        0
    } else {
        (if ys.first().path == p {
            1int
        } else {
            0int
        }) + spec_count_path(ys.drop_first(), p)
    }
}

/// Path counts add up over concatenated yield streams, so the
/// order-independence of each directory's yields carries over to a whole
/// walk: however the directories' streams are arranged, each path's total
/// count is the sum of its per-directory counts.
pub proof fn lemma_count_path_concat(y1: Seq<FileStatusV>, y2: Seq<FileStatusV>, p: Seq<char>)
    ensures
        spec_count_path(y1 + y2, p) == spec_count_path(y1, p) + spec_count_path(y2, p),
    decreases y1.len(),
{
    if y1.len() == 0 {
        assert(y1 + y2 =~= y2);
    } else {
        assert((y1 + y2).first() == y1.first());
        assert((y1 + y2).drop_first() =~= y1.drop_first() + y2);
        lemma_count_path_concat(y1.drop_first(), y2, p);
    }
}

/// How many entries of a listing are yielded with the given path.
pub open spec fn spec_count_entries_yielding(
    dir_rel: Seq<char>,
    entries: Seq<DirEntryInfoV>,
    index: Seq<IndexedFileV>,
    descend: bool,
    attach_meta: bool,
    p: Seq<char>,
) -> int
    decreases entries.len(),
{
    if entries.len() == 0 {
        0
    } else {
        (match spec_entry_action(dir_rel, entries.first(), index, descend, attach_meta) {
            EntryActionV::Yield(f) => if f.path == p {
                1int
            } else {
                0int
            },
            _ => 0int,
        }) + spec_count_entries_yielding(
            dir_rel,
            entries.drop_first(),
            index,
            descend,
            attach_meta,
            p,
        )
    }
}

proof fn lemma_count_path_cons(f: FileStatusV, rest: Seq<FileStatusV>, p: Seq<char>)
    ensures
        spec_count_path(seq![f] + rest, p) == (if f.path == p {
            1int
        } else {
            0int
        }) + spec_count_path(rest, p),
{
    assert((seq![f] + rest).first() == f);
    assert((seq![f] + rest).drop_first() =~= rest);
}

/// Every status the walker yields from a listing has no index-side status,
/// is marked untracked on the worktree side, and names a path absent from
/// the index snapshot.
pub proof fn lemma_untracked_yields_shape(
    dir_rel: Seq<char>,
    entries: Seq<DirEntryInfoV>,
    index: Seq<IndexedFileV>,
    descend: bool,
    attach_meta: bool,
)
    ensures
        forall|j: int|
            0 <= j < spec_listing_yields(dir_rel, entries, index, descend, attach_meta).len()
                ==> {
                let f = #[trigger] spec_listing_yields(
                    dir_rel,
                    entries,
                    index,
                    descend,
                    attach_meta,
                )[j];
                &&& f.index_status == StatusChar::Unchanged
                &&& f.worktree_status == StatusChar::Untracked
                &&& !spec_in_index(index, f.path)
            },
    decreases entries.len(),
{
    if entries.len() > 0 {
        lemma_untracked_yields_shape(dir_rel, entries.drop_first(), index, descend, attach_meta);
        let rest = spec_listing_yields(dir_rel, entries.drop_first(), index, descend, attach_meta);
        match spec_entry_action(dir_rel, entries.first(), index, descend, attach_meta) {
            EntryActionV::Yield(f) => {
                assert(spec_listing_yields(dir_rel, entries, index, descend, attach_meta) == seq![
                    f,
                ] + rest);
                assert(forall|j: int|
                    1 <= j < (seq![f] + rest).len() ==> (seq![f] + rest)[j] == rest[j - 1]);
            },
            _ => {},
        }
    }
}

/// How often a path occurs among a listing's yields equals how many of the
/// listing's entries are yielded with that path.
proof fn lemma_count_path_matches_entries(
    dir_rel: Seq<char>,
    entries: Seq<DirEntryInfoV>,
    index: Seq<IndexedFileV>,
    descend: bool,
    attach_meta: bool,
    p: Seq<char>,
)
    ensures
        spec_count_path(spec_listing_yields(dir_rel, entries, index, descend, attach_meta), p)
            == spec_count_entries_yielding(dir_rel, entries, index, descend, attach_meta, p),
    decreases entries.len(),
{
    if entries.len() > 0 {
        lemma_count_path_matches_entries(
            dir_rel,
            entries.drop_first(),
            index,
            descend,
            attach_meta,
            p,
        );
        let rest = spec_listing_yields(dir_rel, entries.drop_first(), index, descend, attach_meta);
        match spec_entry_action(dir_rel, entries.first(), index, descend, attach_meta) {
            EntryActionV::Yield(f) => {
                lemma_count_path_cons(f, rest, p);
            },
            _ => {},
        }
    }
}

/// Joining distinct names under one directory gives distinct paths.
proof fn lemma_join_rel_injective(dir: Seq<char>, a: Seq<char>, b: Seq<char>)
    requires
        spec_join_rel(dir, a) == spec_join_rel(dir, b),
    ensures
        a == b,
{
    if dir.len() == 0 {
    } else {
        let ja = dir + seq!['/'] + a;
        let jb = dir + seq!['/'] + b;
        assert(ja.len() == jb.len());
        assert(a.len() == b.len());
        assert(forall|i: int| 0 <= i < a.len() ==> a[i] == ja[dir.len() + 1 + i]);
        assert(forall|i: int| 0 <= i < b.len() ==> b[i] == jb[dir.len() + 1 + i]);
        assert(a =~= b);
    }
}

/// A listing with no entry of the given name yields nothing at the path
/// that name would join to.
proof fn lemma_no_name_no_yield(
    dir_rel: Seq<char>,
    entries: Seq<DirEntryInfoV>,
    index: Seq<IndexedFileV>,
    descend: bool,
    attach_meta: bool,
    nm: Seq<char>,
)
    requires
        forall|i: int|
            0 <= i < entries.len() ==> #[trigger] entries[i].name != Option::Some(nm),
    ensures
        spec_count_entries_yielding(
            dir_rel,
            entries,
            index,
            descend,
            attach_meta,
            spec_join_rel(dir_rel, nm),
        ) == 0,
    decreases entries.len(),
{
    if entries.len() > 0 {
        assert(entries[0] == entries.first());
        match spec_entry_action(dir_rel, entries.first(), index, descend, attach_meta) {
            EntryActionV::Yield(f) => {
                if f.path == spec_join_rel(dir_rel, nm) {
                    let name0 = entries.first().name->Some_0;
                    lemma_join_rel_injective(dir_rel, name0, nm);
                    assert(false);
                }
            },
            _ => {},
        }
        assert(forall|i: int|
            0 <= i < entries.drop_first().len() ==> #[trigger] entries.drop_first()[i].name
                != Option::Some(nm));
        lemma_no_name_no_yield(dir_rel, entries.drop_first(), index, descend, attach_meta, nm);
    }
}

/// An on-disk file that the walker does not exclude — its entry is
/// representable as text, not dot-named, not a directory, and its path not
/// in the index — is yielded exactly once from its directory's listing,
/// provided the listing's names are distinct, as a real directory's are.
pub proof fn lemma_untracked_exactly_once(
    dir_rel: Seq<char>,
    entries: Seq<DirEntryInfoV>,
    index: Seq<IndexedFileV>,
    descend: bool,
    attach_meta: bool,
    k: int,
)
    requires
        0 <= k < entries.len(),
        spec_entry_action(dir_rel, entries[k], index, descend, attach_meta) is Yield,
        forall|i: int, j: int|
            0 <= i < entries.len() && 0 <= j < entries.len() && #[trigger] entries[i].name
                == #[trigger] entries[j].name ==> i == j,
    ensures
        spec_count_path(
            spec_listing_yields(dir_rel, entries, index, descend, attach_meta),
            spec_entry_action(dir_rel, entries[k], index, descend, attach_meta)->Yield_0.path,
        ) == 1,
    decreases entries.len(),
{
    let p = spec_entry_action(dir_rel, entries[k], index, descend, attach_meta)->Yield_0.path;
    lemma_count_path_matches_entries(dir_rel, entries, index, descend, attach_meta, p);
    lemma_count_entries_yielding_once(dir_rel, entries, index, descend, attach_meta, k);
}

proof fn lemma_count_entries_yielding_once(
    dir_rel: Seq<char>,
    entries: Seq<DirEntryInfoV>,
    index: Seq<IndexedFileV>,
    descend: bool,
    attach_meta: bool,
    k: int,
)
    requires
        0 <= k < entries.len(),
        spec_entry_action(dir_rel, entries[k], index, descend, attach_meta) is Yield,
        forall|i: int, j: int|
            0 <= i < entries.len() && 0 <= j < entries.len() && #[trigger] entries[i].name
                == #[trigger] entries[j].name ==> i == j,
    ensures
        spec_count_entries_yielding(
            dir_rel,
            entries,
            index,
            descend,
            attach_meta,
            spec_entry_action(dir_rel, entries[k], index, descend, attach_meta)->Yield_0.path,
        ) == 1,
    decreases entries.len(),
{
    let p = spec_entry_action(dir_rel, entries[k], index, descend, attach_meta)->Yield_0.path;
    let nm = entries[k].name->Some_0;
    assert(entries[k].name is Some);
    assert(p == spec_join_rel(dir_rel, nm));
    if k == 0 {
        assert(entries[0] == entries.first());
        assert(forall|i: int|
            0 <= i < entries.drop_first().len() ==> #[trigger] entries.drop_first()[i].name
                != Option::Some(nm)) by {
            assert(forall|i: int|
                0 <= i < entries.drop_first().len() ==> entries.drop_first()[i] == entries[i + 1]);
        }
        lemma_no_name_no_yield(dir_rel, entries.drop_first(), index, descend, attach_meta, nm);
    } else {
        assert(entries[0] == entries.first());
        match spec_entry_action(dir_rel, entries.first(), index, descend, attach_meta) {
            EntryActionV::Yield(f) => {
                if f.path == p {
                    let name0 = entries.first().name->Some_0;
                    lemma_join_rel_injective(dir_rel, name0, nm);
                    assert(entries[0].name == entries[k].name);
                    assert(false);
                }
            },
            _ => {},
        }
        assert(entries.drop_first()[k - 1] == entries[k]);
        assert(forall|i: int, j: int|
            0 <= i < entries.drop_first().len() && 0 <= j < entries.drop_first().len()
                && #[trigger] entries.drop_first()[i].name
                == #[trigger] entries.drop_first()[j].name ==> i == j) by {
            assert(forall|i: int|
                0 <= i < entries.drop_first().len() ==> entries.drop_first()[i] == entries[i + 1]);
        }
        lemma_count_entries_yielding_once(
            dir_rel,
            entries.drop_first(),
            index,
            descend,
            attach_meta,
            k - 1,
        );
    }
}

proof fn lemma_count_entries_remove(
    dir_rel: Seq<char>,
    entries: Seq<DirEntryInfoV>,
    index: Seq<IndexedFileV>,
    descend: bool,
    attach_meta: bool,
    p: Seq<char>,
    j: int,
)
    requires
        0 <= j < entries.len(),
    ensures
        spec_count_entries_yielding(dir_rel, entries, index, descend, attach_meta, p) == (
        match spec_entry_action(dir_rel, entries[j], index, descend, attach_meta) {
            EntryActionV::Yield(f) => if f.path == p {
                1int
            } else {
                0int
            },
            _ => 0int,
        }) + spec_count_entries_yielding(
            dir_rel,
            entries.remove(j),
            index,
            descend,
            attach_meta,
            p,
        ),
    decreases j,
{
    if j == 0 {
        assert(entries[0] == entries.first());
        assert(entries.remove(0) =~= entries.drop_first());
    } else {
        assert(entries.remove(j).first() == entries.first());
        assert(entries.remove(j).drop_first() =~= entries.drop_first().remove(j - 1));
        assert(entries.drop_first()[j - 1] == entries[j]);
        lemma_count_entries_remove(
            dir_rel,
            entries.drop_first(),
            index,
            descend,
            attach_meta,
            p,
            j - 1,
        );
    }
}

proof fn lemma_count_entries_permutation(
    dir_rel: Seq<char>,
    e1: Seq<DirEntryInfoV>,
    e2: Seq<DirEntryInfoV>,
    index: Seq<IndexedFileV>,
    descend: bool,
    attach_meta: bool,
    p: Seq<char>,
)
    requires
        e1.to_multiset() == e2.to_multiset(),
    ensures
        spec_count_entries_yielding(dir_rel, e1, index, descend, attach_meta, p)
            == spec_count_entries_yielding(dir_rel, e2, index, descend, attach_meta, p),
    decreases e1.len(),
{
    broadcast use vstd::seq_lib::group_to_multiset_ensures;

    assert(e1.to_multiset().len() == e1.len());
    assert(e2.to_multiset().len() == e2.len());
    if e1.len() == 0 {
        assert(e2.len() == 0);
    } else {
        let x = e1.first();
        assert(e1[0] == x);
        assert(e1.contains(x));
        assert(e1.to_multiset().count(x) > 0);
        assert(e2.to_multiset().count(x) > 0);
        assert(e2.contains(x));
        let j = choose|j: int| 0 <= j < e2.len() && e2[j] == x;
        lemma_count_entries_remove(dir_rel, e2, index, descend, attach_meta, p, j);
        assert(e1.remove(0) =~= e1.drop_first());
        assert(e1.drop_first().to_multiset() == e1.to_multiset().remove(x));
        assert(e2.remove(j).to_multiset() == e2.to_multiset().remove(x));
        lemma_count_entries_permutation(
            dir_rel,
            e1.drop_first(),
            e2.remove(j),
            index,
            descend,
            attach_meta,
            p,
        );
    }
}

/// Two listings of the same directory that hold the same entries in any
/// order yield the same untracked statuses up to order: every path occurs
/// equally often in both yield streams, so two passes over an unchanged
/// directory produce the same set of statuses however the listing is
/// ordered.
pub proof fn lemma_walk_order_independent(
    dir_rel: Seq<char>,
    e1: Seq<DirEntryInfoV>,
    e2: Seq<DirEntryInfoV>,
    index: Seq<IndexedFileV>,
    descend: bool,
    attach_meta: bool,
)
    requires
        e1.to_multiset() == e2.to_multiset(),
    ensures
        forall|p: Seq<char>|
            spec_count_path(spec_listing_yields(dir_rel, e1, index, descend, attach_meta), p)
                == #[trigger] spec_count_path(
                spec_listing_yields(dir_rel, e2, index, descend, attach_meta),
                p,
            ),
{
    assert forall|p: Seq<char>|
        spec_count_path(spec_listing_yields(dir_rel, e1, index, descend, attach_meta), p)
            == #[trigger] spec_count_path(
            spec_listing_yields(dir_rel, e2, index, descend, attach_meta),
            p,
        ) by {
        lemma_count_path_matches_entries(dir_rel, e1, index, descend, attach_meta, p);
        lemma_count_path_matches_entries(dir_rel, e2, index, descend, attach_meta, p);
        lemma_count_entries_permutation(dir_rel, e1, e2, index, descend, attach_meta, p);
    }
}

/// One whole walk's yields, as a function of the listings the driver fed:
/// the directories in the order their listings were handed in, each paired
/// with its listing. The machine consumes one directory per feed, so a
/// complete walk's yield stream is the concatenation of its listings'
/// yields.
pub open spec fn spec_walk_yields(
    feeds: Seq<(Seq<char>, Seq<DirEntryInfoV>)>,
    index: Seq<IndexedFileV>,
    descend: bool,
    attach_meta: bool,
) -> Seq<FileStatusV>
    decreases feeds.len(),
{
    if feeds.len() == 0 {
        Seq::empty()
    } else {
        spec_listing_yields(feeds.first().0, feeds.first().1, index, descend, attach_meta)
            + spec_walk_yields(feeds.drop_first(), index, descend, attach_meta)
    }
}

proof fn lemma_walk_yields_count(
    feeds: Seq<(Seq<char>, Seq<DirEntryInfoV>)>,
    index: Seq<IndexedFileV>,
    descend: bool,
    attach_meta: bool,
    p: Seq<char>,
)
    ensures
        feeds.len() > 0 ==> spec_count_path(
            spec_walk_yields(feeds, index, descend, attach_meta),
            p,
        ) == spec_count_path(
            spec_listing_yields(feeds.first().0, feeds.first().1, index, descend, attach_meta),
            p,
        ) + spec_count_path(
            spec_walk_yields(feeds.drop_first(), index, descend, attach_meta),
            p,
        ),
{
    if feeds.len() > 0 {
        lemma_count_path_concat(
            spec_listing_yields(feeds.first().0, feeds.first().1, index, descend, attach_meta),
            spec_walk_yields(feeds.drop_first(), index, descend, attach_meta),
            p,
        );
    }
}

/// Two whole walks over the same directories in the same order, each
/// directory's listing permuted arbitrarily, yield every path equally
/// often: per-directory order independence carries over to the walk.
pub proof fn lemma_walk_listing_orders(
    feeds1: Seq<(Seq<char>, Seq<DirEntryInfoV>)>,
    feeds2: Seq<(Seq<char>, Seq<DirEntryInfoV>)>,
    index: Seq<IndexedFileV>,
    descend: bool,
    attach_meta: bool,
)
    requires
        feeds1.len() == feeds2.len(),
        forall|a: int| 0 <= a < feeds1.len() ==> (#[trigger] feeds1[a]).0 == feeds2[a].0,
        forall|a: int|
            0 <= a < feeds1.len() ==> (#[trigger] feeds1[a]).1.to_multiset()
                == feeds2[a].1.to_multiset(),
    ensures
        forall|p: Seq<char>|
            spec_count_path(spec_walk_yields(feeds1, index, descend, attach_meta), p)
                == #[trigger] spec_count_path(
                spec_walk_yields(feeds2, index, descend, attach_meta),
                p,
            ),
    decreases feeds1.len(),
{
    if feeds1.len() > 0 {
        assert(feeds1[0] == feeds1.first());
        assert(feeds2[0] == feeds2.first());
        lemma_walk_order_independent(
            feeds1.first().0,
            feeds1.first().1,
            feeds2.first().1,
            index,
            descend,
            attach_meta,
        );
        assert(forall|a: int|
            0 <= a < feeds1.drop_first().len() ==> #[trigger] feeds1.drop_first()[a] == feeds1[a
                + 1]);
        assert(forall|a: int|
            0 <= a < feeds2.drop_first().len() ==> #[trigger] feeds2.drop_first()[a] == feeds2[a
                + 1]);
        lemma_walk_listing_orders(
            feeds1.drop_first(),
            feeds2.drop_first(),
            index,
            descend,
            attach_meta,
        );
        assert forall|p: Seq<char>|
            spec_count_path(spec_walk_yields(feeds1, index, descend, attach_meta), p)
                == #[trigger] spec_count_path(
                spec_walk_yields(feeds2, index, descend, attach_meta),
                p,
            ) by {
            lemma_walk_yields_count(feeds1, index, descend, attach_meta, p);
            lemma_walk_yields_count(feeds2, index, descend, attach_meta, p);
        }
    }
}

proof fn lemma_walk_count_remove(
    feeds: Seq<(Seq<char>, Seq<DirEntryInfoV>)>,
    index: Seq<IndexedFileV>,
    descend: bool,
    attach_meta: bool,
    p: Seq<char>,
    j: int,
)
    requires
        0 <= j < feeds.len(),
    ensures
        spec_count_path(spec_walk_yields(feeds, index, descend, attach_meta), p)
            == spec_count_path(
            spec_listing_yields(feeds[j].0, feeds[j].1, index, descend, attach_meta),
            p,
        ) + spec_count_path(
            spec_walk_yields(feeds.remove(j), index, descend, attach_meta),
            p,
        ),
    decreases j,
{
    lemma_walk_yields_count(feeds, index, descend, attach_meta, p);
    if j == 0 {
        assert(feeds[0] == feeds.first());
        assert(feeds.remove(0) =~= feeds.drop_first());
    } else {
        assert(feeds.remove(j)[0] == feeds[0]);
        assert(feeds.remove(j).first() == feeds.first());
        assert(feeds.remove(j).drop_first() =~= feeds.drop_first().remove(j - 1));
        assert(feeds.drop_first()[j - 1] == feeds[j]);
        lemma_walk_count_remove(feeds.drop_first(), index, descend, attach_meta, p, j - 1);
        lemma_walk_yields_count(feeds.remove(j), index, descend, attach_meta, p);
    }
}

/// Two whole walks that feed the same directory listings in different
/// orders yield every path equally often: the order in which the driver
/// visits directories does not change the set of yielded statuses.
pub proof fn lemma_walk_feed_orders(
    feeds1: Seq<(Seq<char>, Seq<DirEntryInfoV>)>,
    feeds2: Seq<(Seq<char>, Seq<DirEntryInfoV>)>,
    index: Seq<IndexedFileV>,
    descend: bool,
    attach_meta: bool,
)
    requires
        feeds1.to_multiset() == feeds2.to_multiset(),
    ensures
        forall|p: Seq<char>|
            spec_count_path(spec_walk_yields(feeds1, index, descend, attach_meta), p)
                == #[trigger] spec_count_path(
                spec_walk_yields(feeds2, index, descend, attach_meta),
                p,
            ),
    decreases feeds1.len(),
{
    broadcast use vstd::seq_lib::group_to_multiset_ensures;

    assert(feeds1.to_multiset().len() == feeds1.len());
    assert(feeds2.to_multiset().len() == feeds2.len());
    if feeds1.len() > 0 {
        let x = feeds1.first();
        assert(feeds1[0] == x);
        assert(feeds1.contains(x));
        assert(feeds1.to_multiset().count(x) > 0);
        assert(feeds2.to_multiset().count(x) > 0);
        assert(feeds2.contains(x));
        let j = choose|j: int| 0 <= j < feeds2.len() && feeds2[j] == x;
        assert(feeds1.remove(0) =~= feeds1.drop_first());
        assert(feeds1.drop_first().to_multiset() == feeds1.to_multiset().remove(x));
        assert(feeds2.remove(j).to_multiset() == feeds2.to_multiset().remove(x));
        lemma_walk_feed_orders(
            feeds1.drop_first(),
            feeds2.remove(j),
            index,
            descend,
            attach_meta,
        );
        assert forall|p: Seq<char>|
            spec_count_path(spec_walk_yields(feeds1, index, descend, attach_meta), p)
                == #[trigger] spec_count_path(
                spec_walk_yields(feeds2, index, descend, attach_meta),
                p,
            ) by {
            lemma_walk_yields_count(feeds1, index, descend, attach_meta, p);
            lemma_walk_count_remove(feeds2, index, descend, attach_meta, p, j);
        }
    }
}

/// Whether a listing entry's name, when it has one, is free of `/`, as a
/// real directory entry's name is.
pub open spec fn spec_name_slash_free(e: DirEntryInfoV) -> bool {
    match e.name {
        Option::Some(n) => !n.contains('/'),
        Option::None => true,
    }
}

/// Paths joined from slash-free names decompose uniquely: equal joins mean
/// equal directories and equal names.
proof fn lemma_join_rel_unique(d1: Seq<char>, n1: Seq<char>, d2: Seq<char>, n2: Seq<char>)
    requires
        !n1.contains('/'),
        !n2.contains('/'),
        spec_join_rel(d1, n1) == spec_join_rel(d2, n2),
    ensures
        d1 == d2,
        n1 == n2,
{
    let j = spec_join_rel(d1, n1);
    assert(seq!['/'].len() == 1);
    if d1.len() > 0 {
        assert(j == d1 + seq!['/'] + n1);
        assert(j.len() == d1.len() + 1 + n1.len());
    }
    if d2.len() > 0 {
        assert(spec_join_rel(d2, n2) == d2 + seq!['/'] + n2);
        assert(j.len() == d2.len() + 1 + n2.len());
    }
    if d1.len() == 0 && d2.len() == 0 {
    } else if d1.len() == 0 {
        assert(j[d2.len() as int] == '/');
        assert(n1[d2.len() as int] == '/');
        assert(n1.contains('/'));
        assert(false);
    } else if d2.len() == 0 {
        assert(j[d1.len() as int] == '/');
        assert(n2[d1.len() as int] == '/');
        assert(n2.contains('/'));
        assert(false);
    } else {
        assert(d1.len() + 1 + n1.len() == d2.len() + 1 + n2.len());
        if d1.len() < d2.len() {
            assert(j[d2.len() as int] == '/');
            assert(n1[d2.len() - d1.len() - 1] == '/');
            assert(n1.contains('/'));
            assert(false);
        } else if d2.len() < d1.len() {
            assert(j[d1.len() as int] == '/');
            assert(n2[d1.len() - d2.len() - 1] == '/');
            assert(n2.contains('/'));
            assert(false);
        } else {
            assert(forall|i: int| 0 <= i < d1.len() ==> d1[i] == j[i] && d2[i] == j[i]);
            assert(d1 =~= d2);
            assert(forall|i: int|
                0 <= i < n1.len() ==> n1[i] == j[d1.len() + 1 + i] && n2[i] == j[d1.len() + 1
                    + i]);
            assert(n1 =~= n2);
        }
    }
}

/// A listing of one directory yields nothing at a path that joins a
/// slash-free name under a different directory.
proof fn lemma_no_foreign_yield(
    dir_rel: Seq<char>,
    entries: Seq<DirEntryInfoV>,
    index: Seq<IndexedFileV>,
    descend: bool,
    attach_meta: bool,
    dd: Seq<char>,
    nn: Seq<char>,
)
    requires
        dd != dir_rel,
        !nn.contains('/'),
        forall|i: int| 0 <= i < entries.len() ==> spec_name_slash_free(#[trigger] entries[i]),
    ensures
        spec_count_entries_yielding(
            dir_rel,
            entries,
            index,
            descend,
            attach_meta,
            spec_join_rel(dd, nn),
        ) == 0,
    decreases entries.len(),
{
    if entries.len() > 0 {
        assert(entries[0] == entries.first());
        match spec_entry_action(dir_rel, entries.first(), index, descend, attach_meta) {
            EntryActionV::Yield(f) => {
                if f.path == spec_join_rel(dd, nn) {
                    let name0 = entries.first().name->Some_0;
                    lemma_join_rel_unique(dir_rel, name0, dd, nn);
                    assert(false);
                }
            },
            _ => {},
        }
        assert(forall|i: int|
            0 <= i < entries.drop_first().len() ==> spec_name_slash_free(
                #[trigger] entries.drop_first()[i],
            )) by {
            assert(forall|i: int|
                0 <= i < entries.drop_first().len() ==> entries.drop_first()[i] == entries[i
                    + 1]);
        }
        lemma_no_foreign_yield(
            dir_rel,
            entries.drop_first(),
            index,
            descend,
            attach_meta,
            dd,
            nn,
        );
    }
}

/// A whole walk whose fed directories all differ from `dd` yields nothing
/// at a path that joins a slash-free name under `dd`.
proof fn lemma_walk_no_foreign_yield(
    feeds: Seq<(Seq<char>, Seq<DirEntryInfoV>)>,
    index: Seq<IndexedFileV>,
    descend: bool,
    attach_meta: bool,
    dd: Seq<char>,
    nn: Seq<char>,
)
    requires
        !nn.contains('/'),
        forall|a: int| 0 <= a < feeds.len() ==> (#[trigger] feeds[a]).0 != dd,
        forall|a: int, i: int|
            0 <= a < feeds.len() && 0 <= i < feeds[a].1.len() ==> spec_name_slash_free(
                #[trigger] feeds[a].1[i],
            ),
    ensures
        spec_count_path(
            spec_walk_yields(feeds, index, descend, attach_meta),
            spec_join_rel(dd, nn),
        ) == 0,
    decreases feeds.len(),
{
    let p = spec_join_rel(dd, nn);
    if feeds.len() > 0 {
        lemma_walk_yields_count(feeds, index, descend, attach_meta, p);
        assert(feeds[0] == feeds.first());
        lemma_count_path_matches_entries(
            feeds.first().0,
            feeds.first().1,
            index,
            descend,
            attach_meta,
            p,
        );
        lemma_no_foreign_yield(
            feeds.first().0,
            feeds.first().1,
            index,
            descend,
            attach_meta,
            dd,
            nn,
        );
        assert(forall|a: int|
            0 <= a < feeds.drop_first().len() ==> (#[trigger] feeds.drop_first()[a]).0 != dd) by {
            assert(forall|a: int|
                0 <= a < feeds.drop_first().len() ==> feeds.drop_first()[a] == feeds[a + 1]);
        }
        assert(forall|a: int, i: int|
            0 <= a < feeds.drop_first().len() && 0 <= i < feeds.drop_first()[a].1.len()
                ==> spec_name_slash_free(#[trigger] feeds.drop_first()[a].1[i])) by {
            assert(forall|a: int|
                0 <= a < feeds.drop_first().len() ==> feeds.drop_first()[a] == feeds[a + 1]);
        }
        lemma_walk_no_foreign_yield(
            feeds.drop_first(),
            index,
            descend,
            attach_meta,
            dd,
            nn,
        );
    }
}

/// An on-disk file the walker does not exclude is yielded exactly once
/// across a whole walk: if one entry of one fed listing is yielded, its
/// path occurs exactly once in the complete yield stream — provided the
/// driver feeds each directory at most once, listing names are slash-free
/// as a real directory's are, and the names within the file's own listing
/// are distinct.
pub proof fn lemma_walk_exactly_once(
    feeds: Seq<(Seq<char>, Seq<DirEntryInfoV>)>,
    index: Seq<IndexedFileV>,
    descend: bool,
    attach_meta: bool,
    d: int,
    k: int,
)
    requires
        0 <= d < feeds.len(),
        0 <= k < feeds[d].1.len(),
        spec_entry_action(feeds[d].0, feeds[d].1[k], index, descend, attach_meta) is Yield,
        forall|a: int, b: int|
            0 <= a < feeds.len() && 0 <= b < feeds.len() && (#[trigger] feeds[a]).0 == (
            #[trigger] feeds[b]).0 ==> a == b,
        forall|a: int, i: int|
            0 <= a < feeds.len() && 0 <= i < feeds[a].1.len() ==> spec_name_slash_free(
                #[trigger] feeds[a].1[i],
            ),
        forall|i: int, j: int|
            0 <= i < feeds[d].1.len() && 0 <= j < feeds[d].1.len() && #[trigger] feeds[d].1[i].name
                == #[trigger] feeds[d].1[j].name ==> i == j,
    ensures
        spec_count_path(
            spec_walk_yields(feeds, index, descend, attach_meta),
            spec_entry_action(feeds[d].0, feeds[d].1[k], index, descend, attach_meta)->Yield_0.path,
        ) == 1,
    decreases feeds.len(),
{
    let p = spec_entry_action(feeds[d].0, feeds[d].1[k], index, descend, attach_meta)->Yield_0.path;
    let nk = feeds[d].1[k].name->Some_0;
    assert(p == spec_join_rel(feeds[d].0, nk));
    assert(spec_name_slash_free(feeds[d].1[k]));
    lemma_walk_yields_count(feeds, index, descend, attach_meta, p);
    assert(feeds[0] == feeds.first());
    assert(forall|a: int|
        0 <= a < feeds.drop_first().len() ==> #[trigger] feeds.drop_first()[a] == feeds[a + 1]);
    if d == 0 {
        lemma_untracked_exactly_once(feeds[0].0, feeds[0].1, index, descend, attach_meta, k);
        assert(forall|a: int|
            0 <= a < feeds.drop_first().len() ==> (#[trigger] feeds.drop_first()[a]).0
                != feeds[0].0);
        assert(forall|a: int, i: int|
            0 <= a < feeds.drop_first().len() && 0 <= i < feeds.drop_first()[a].1.len()
                ==> spec_name_slash_free(#[trigger] feeds.drop_first()[a].1[i]));
        lemma_walk_no_foreign_yield(
            feeds.drop_first(),
            index,
            descend,
            attach_meta,
            feeds[0].0,
            nk,
        );
    } else {
        lemma_count_path_matches_entries(
            feeds[0].0,
            feeds[0].1,
            index,
            descend,
            attach_meta,
            p,
        );
        lemma_no_foreign_yield(
            feeds[0].0,
            feeds[0].1,
            index,
            descend,
            attach_meta,
            feeds[d].0,
            nk,
        );
        assert(forall|a: int, b: int|
            0 <= a < feeds.drop_first().len() && 0 <= b < feeds.drop_first().len() && (
            #[trigger] feeds.drop_first()[a]).0 == (#[trigger] feeds.drop_first()[b]).0 ==> a
                == b);
        assert(forall|a: int, i: int|
            0 <= a < feeds.drop_first().len() && 0 <= i < feeds.drop_first()[a].1.len()
                ==> spec_name_slash_free(#[trigger] feeds.drop_first()[a].1[i]));
        assert(feeds.drop_first()[d - 1] == feeds[d]);
        assert(forall|i: int, j: int|
            0 <= i < feeds.drop_first()[d - 1].1.len() && 0 <= j < feeds.drop_first()[d
                - 1].1.len() && #[trigger] feeds.drop_first()[d - 1].1[i].name
                == #[trigger] feeds.drop_first()[d - 1].1[j].name ==> i == j);
        lemma_walk_exactly_once(feeds.drop_first(), index, descend, attach_meta, d - 1, k);
    }
}

/// The untracked walk as a resumable state machine.
///
/// `dir_stack` holds the repository-relative paths of the directories still
/// to traverse, most recently discovered on top; the empty path stands for
/// the walk root. `queue` holds the untracked files of the last listing not
/// yet pulled. The index snapshot is captured when the walker is built and
/// not refreshed during the walk.
pub struct UntrackedIter {
    pub work_dir: String,
    pub index: Vec<IndexedFile>,
    pub dir_stack: Vec<String>,
    pub queue: Vec<FileStatus>,
    pub pending_error: Option<String>,
    pub filter: UntrackedFilter,
}

impl UntrackedIter {
    /// The model of the index snapshot this walker was built over.
    pub open spec fn index_model(&self) -> Seq<IndexedFileV> {
        self.index@.map_values(|x: IndexedFile| x@)
    }

    /// Build a walker directly from a snapshot: the working-directory root,
    /// the index rows, and the walk depth. The walk starts at the root
    /// unless the filter asks for no untracked files at all.
    pub fn from_snapshot(work_dir: String, index: Vec<IndexedFile>, filter: UntrackedFilter) -> (r:
        Self)
        ensures
            r.work_dir == work_dir,
            r.index == index,
            r.filter == filter,
            r.queue@.len() == 0,
            r.pending_error is None,
            filter is No ==> r.dir_stack@.len() == 0,
            !(filter is No) ==> r.dir_stack@.len() == 1 && r.dir_stack@[0]@.len() == 0,
    {
        let dir_stack: Vec<String> = if matches!(filter, UntrackedFilter::No) {
            Vec::new()
        } else {
            let mut s: Vec<String> = Vec::new();
            s.push(String::new());
            s
        };
        UntrackedIter {
            work_dir,
            index,
            dir_stack,
            queue: Vec::new(),
            pending_error: Option::None,
            filter,
        }
    }

    /// Start building a walker over a live repository.
    pub fn builder<'repo>(repo: &'repo gix::Repository) -> (r: UntrackedIterBuilder<'repo>)
        ensures
            r.filter is Normal,
            r.path_filter is None,
    {
        UntrackedIterBuilder::new(repo)
    }

    /// Whether the snapshot tracks the given repository-relative path.
    pub fn path_is_tracked(&self, path: &String) -> (r: bool)
        ensures
            r == spec_in_index(self.index_model(), path@),
    {
        path_in_entries(&self.index, path)
    }

    /// The directory whose listing the walker needs next, as a filesystem
    /// path under the walk root; `None` while pulled items remain, and once
    /// the walk is finished.
    pub fn pending_dir(&self) -> (r: Option<String>)
        ensures
            match r {
                Option::None => self.queue@.len() > 0 || !(self.pending_error is None)
                    || self.dir_stack@.len() == 0,
                Option::Some(d) => {
                    &&& self.queue@.len() == 0
                    &&& self.pending_error is None
                    &&& self.dir_stack@.len() > 0
                    &&& d@ == spec_join_under(
                        self.work_dir@,
                        self.dir_stack@[self.dir_stack@.len() - 1]@,
                    )
                },
            },
    {
        if self.queue.len() > 0 || self.pending_error.is_some() || self.dir_stack.len() == 0 {
            return Option::None;
        }
        let top = &self.dir_stack[self.dir_stack.len() - 1];
        Option::Some(join_under(self.work_dir.as_str(), top.as_str()))
    }

    /// Hand in the listing of the directory `pending_dir` asked for, or the
    /// error that listing it produced. The directory is consumed either
    /// way: its untracked files are queued in listing order and its
    /// subdirectories stacked for traversal, or the error is held to be
    /// surfaced by the next pull.
    pub fn feed_listing(&mut self, listing: Result<Vec<DirEntryInfo>, String>)
        requires
            old(self).queue@.len() == 0,
            old(self).pending_error is None,
            old(self).dir_stack@.len() > 0,
        ensures
            final(self).work_dir == old(self).work_dir,
            final(self).index == old(self).index,
            final(self).filter == old(self).filter,
            match listing {
                Result::Ok(entries) => {
                    &&& final(self).pending_error is None
                    &&& final(self).queue@.map_values(|f: FileStatus| f@) == spec_listing_yields(
                        old(self).dir_stack@.last()@,
                        entries@.map_values(|e: DirEntryInfo| e@),
                        old(self).index_model(),
                        old(self).filter is All,
                        false,
                    )
                    &&& final(self).dir_stack@.map_values(|d: String| d@) == old(
                        self,
                    ).dir_stack@.drop_last().map_values(|d: String| d@) + spec_listing_descents(
                        old(self).dir_stack@.last()@,
                        entries@.map_values(|e: DirEntryInfo| e@),
                        old(self).index_model(),
                        old(self).filter is All,
                        false,
                    )
                },
                Result::Err(e) => {
                    &&& final(self).pending_error == Option::Some(e)
                    &&& final(self).queue@.len() == 0
                    &&& final(self).dir_stack@ == old(self).dir_stack@.drop_last()
                },
            },
    {
        let dir_rel = self.dir_stack.pop().unwrap();
        match listing {
            Result::Ok(entries) => {
                let descend = matches!(self.filter, UntrackedFilter::All);
                let (yields, mut dirs) = process_listing(
                    &dir_rel,
                    &entries,
                    &self.index,
                    descend,
                    false,
                );
                self.queue = yields;
                let ghost stacked = self.dir_stack@;
                let ghost added = dirs@;
                self.dir_stack.append(&mut dirs);
                proof {
                    assert(self.dir_stack@.map_values(|d: String| d@) =~= stacked.map_values(
                        |d: String| d@,
                    ) + added.map_values(|d: String| d@));
                }
            },
            Result::Err(e) => {
                self.pending_error = Option::Some(e);
            },
        }
    }

    /// Pull the next item: a held directory error first, else the next
    /// queued untracked file; `None` once the current listing is drained,
    /// after which `pending_dir` says whether the walk goes on.
    pub fn next(&mut self) -> (r: Option<Result<FileStatus, StatusError>>)
        ensures
            final(self).work_dir == old(self).work_dir,
            final(self).index == old(self).index,
            final(self).filter == old(self).filter,
            final(self).dir_stack == old(self).dir_stack,
            match old(self).pending_error {
                Option::Some(e) => {
                    &&& r matches Option::Some(item) && item matches Result::Err(
                        StatusError::Io(m),
                    ) && m == e
                    &&& final(self).pending_error is None
                    &&& final(self).queue == old(self).queue
                },
                Option::None => {
                    &&& final(self).pending_error is None
                    &&& if old(self).queue@.len() > 0 {
                        &&& r matches Option::Some(item) && item matches Result::Ok(f) && f == old(
                            self,
                        ).queue@[0]
                        &&& final(self).queue@ == old(self).queue@.drop_first()
                    } else {
                        &&& r is None
                        &&& final(self).queue == old(self).queue
                    }
                },
            },
    {
        match &self.pending_error {
            Option::Some(_) => {
                let e = self.pending_error.take().unwrap();
                Option::Some(Result::Err(StatusError::Io(e)))
            },
            Option::None => {
                if self.queue.len() > 0 {
                    let f = self.queue.remove(0);
                    Option::Some(Result::Ok(f))
                } else {
                    Option::None
                }
            },
        }
    }

    /// Whether the walk is over: nothing queued, nothing stacked, no held
    /// error.
    pub fn finished(&self) -> (r: bool)
        ensures
            r == (self.queue@.len() == 0 && self.dir_stack@.len() == 0 && self.pending_error
                is None),
    {
        self.queue.len() == 0 && self.dir_stack.len() == 0 && self.pending_error.is_none()
    }
}

/// Builder for an untracked walker over a live repository.
pub struct UntrackedIterBuilder<'repo> {
    pub repo: &'repo gix::Repository,
    pub filter: UntrackedFilter,
    pub path_filter: Option<String>,
}

impl<'repo> UntrackedIterBuilder<'repo> {
    /// A builder with the default walk depth and no path filter.
    pub fn new(repo: &'repo gix::Repository) -> (r: Self)
        ensures
            r.filter is Normal,
            r.path_filter is None,
    {
        UntrackedIterBuilder { repo, filter: UntrackedFilter::Normal, path_filter: Option::None }
    }

    /// Choose the walk depth.
    pub fn filter(self, filter: UntrackedFilter) -> (r: Self)
        ensures
            r.filter == filter,
            r.path_filter == self.path_filter,
    {
        UntrackedIterBuilder { filter, ..self }
    }

    /// Record a path pattern. The walker itself does not consult it; it is
    /// kept for callers that filter the stream downstream.
    pub fn path_filter(self, pattern: String) -> (r: Self)
        ensures
            r.filter == self.filter,
            r.path_filter == Option::Some(pattern),
    {
        UntrackedIterBuilder { path_filter: Option::Some(pattern), ..self }
    }

    /// Snapshot the repository's working-directory root and index and build
    /// the walker. Fails with a `Backend` error when the repository has no
    /// working directory or its index cannot be read.
    pub fn build(self) -> (r: Result<UntrackedIter, StatusError>)
        ensures
            r matches Result::Err(e) ==> e is Backend,
            r matches Result::Ok(it) ==> {
                &&& it.filter == self.filter
                &&& it.queue@.len() == 0
                &&& it.pending_error is None
                &&& (self.filter is No ==> it.dir_stack@.len() == 0)
                &&& (!(self.filter is No) ==> it.dir_stack@.len() == 1 && it.dir_stack@[0]@.len()
                    == 0)
            },
    {
        let work_dir = match repo_work_dir(self.repo) {
            Option::Some(d) => d,
            Option::None => {
                return Result::Err(
                    StatusError::Backend("Repository has no working directory".to_owned()),
                );
            },
        };
        let index = match get_index_entries(self.repo) {
            Result::Ok(i) => i,
            Result::Err(e) => {
                return Result::Err(e);
            },
        };
        Result::Ok(UntrackedIter::from_snapshot(work_dir, index, self.filter))
    }
}

} // verus!
