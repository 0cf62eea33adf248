//! The data model of the status engine: status codes, file statuses and the
//! error taxonomy.

use vstd::prelude::*;

verus! {

/// One-letter status code summarizing a path's divergence between two of
/// {HEAD tree, index, working tree}.
///
/// `Renamed`, `Copied` and `Unmerged` are representable but never produced by
/// this engine; they are reserved for future rename detection.
#[derive(Debug, Clone, Copy, PartialEq, Eq, Structural)]
pub enum StatusChar {
    Modified,
    Added,
    Deleted,
    Renamed,
    Copied,
    Unmerged,
    Untracked,
    Ignored,
    Unchanged,
}

impl StatusChar {
    /// The textual rendering of each status code.
    pub open spec fn spec_to_char(self) -> char {
        match self {
            StatusChar::Modified => 'M',
            StatusChar::Added => 'A',
            StatusChar::Deleted => 'D',
            StatusChar::Renamed => 'R',
            StatusChar::Copied => 'C',
            StatusChar::Unmerged => 'U',
            StatusChar::Untracked => '?',
            StatusChar::Ignored => '!',
            StatusChar::Unchanged => ' ',
        }
    }

    /// Render this status code as its single-character text form.
    pub fn to_char(self) -> (c: char)
        ensures
            c == self.spec_to_char(),
    {
        match self {
            StatusChar::Modified => 'M',
            StatusChar::Added => 'A',
            StatusChar::Deleted => 'D',
            StatusChar::Renamed => 'R',
            StatusChar::Copied => 'C',
            StatusChar::Unmerged => 'U',
            StatusChar::Untracked => '?',
            StatusChar::Ignored => '!',
            StatusChar::Unchanged => ' ',
        }
    }

    /// What `from_char` returns for each character: the inverse of
    /// `spec_to_char`, with every unassigned character mapping to
    /// `Unchanged`.
    pub open spec fn spec_from_char(c: char) -> StatusChar {
        if c == 'M' {
            StatusChar::Modified
        } else if c == 'A' {
            StatusChar::Added
        } else if c == 'D' {
            StatusChar::Deleted
        } else if c == 'R' {
            StatusChar::Renamed
        } else if c == 'C' {
            StatusChar::Copied
        } else if c == 'U' {
            StatusChar::Unmerged
        } else if c == '?' {
            StatusChar::Untracked
        } else if c == '!' {
            StatusChar::Ignored
        } else {
            StatusChar::Unchanged
        }
    }

    /// Parse a single-character status code; unassigned characters map to
    /// `Unchanged`.
    pub fn from_char(c: char) -> (r: StatusChar)
        ensures
            r == StatusChar::spec_from_char(c),
    {
        match c {
            'M' => StatusChar::Modified,
            'A' => StatusChar::Added,
            'D' => StatusChar::Deleted,
            'R' => StatusChar::Renamed,
            'C' => StatusChar::Copied,
            'U' => StatusChar::Unmerged,
            '?' => StatusChar::Untracked,
            '!' => StatusChar::Ignored,
            _ => StatusChar::Unchanged,
        }
    }
}

/// Rendering a status code as its character and parsing it back gives the
/// code itself: the nine codes map to nine distinct characters.
pub proof fn lemma_status_char_roundtrip(s: StatusChar)
    ensures
        StatusChar::spec_from_char(s.spec_to_char()) == s,
{
}

/// How deeply the untracked walk descends into subdirectories.
#[derive(Debug, Clone, Copy, PartialEq, Eq, Structural)]
pub enum UntrackedFilter {
    /// Show no untracked files.
    No,
    /// Show untracked files without descending into subdirectories.
    Normal,
    /// Show all untracked files, including those in subdirectories.
    All,
}

impl Default for UntrackedFilter {
    /// The default walk depth is `Normal`.
    fn default() -> (r: Self)
        ensures
            r == UntrackedFilter::Normal,
    {
        UntrackedFilter::Normal
    }
}

/// Configuration for status operations.
#[derive(Debug, Clone, Copy, PartialEq, Eq, Structural)]
pub struct StatusOptions {
    pub untracked: UntrackedFilter,
    pub show_ignored: bool,
    pub recurse_submodules: bool,
}

impl Default for StatusOptions {
    /// All options off, untracked walk at its default depth.
    fn default() -> (r: Self)
        ensures
            r == (StatusOptions {
                untracked: UntrackedFilter::Normal,
                show_ignored: false,
                recurse_submodules: false,
            }),
    {
        StatusOptions { untracked: UntrackedFilter::Normal, show_ignored: false, recurse_submodules: false }
    }
}

/// Filesystem metadata attached to a yielded status: modification time as
/// seconds since the epoch, and size in bytes.
#[derive(Debug, Clone, Copy, PartialEq, Eq, Structural)]
pub struct FileMetadata {
    pub modified_time: u64,
    pub size: u64,
}

/// The status of one path: the repository-relative, forward-slash separated
/// path, one status code per comparison side, and optional metadata.
#[derive(Debug, Clone, PartialEq)]
pub struct FileStatus {
    pub path: String,
    pub index_status: StatusChar,
    pub worktree_status: StatusChar,
    pub metadata: Option<FileMetadata>,
}

/// The mathematical value of a `FileStatus`: the path as a character
/// sequence beside the plain fields.
pub struct FileStatusV {
    pub path: Seq<char>,
    pub index_status: StatusChar,
    pub worktree_status: StatusChar,
    pub metadata: Option<FileMetadata>,
}

impl View for FileStatus {
    type V = FileStatusV;

    open spec fn view(&self) -> FileStatusV {
        FileStatusV {
            path: self.path@,
            index_status: self.index_status,
            worktree_status: self.worktree_status,
            metadata: self.metadata,
        }
    }
}

impl FileStatusV {
    /// Whether either side of the status records a change.
    pub open spec fn spec_has_changes(self) -> bool {
        self.index_status != StatusChar::Unchanged || self.worktree_status != StatusChar::Unchanged
    }
}

impl FileStatus {
    /// Whether either side of the status records a change. The engine never
    /// yields a tracked entry for which this is false.
    pub fn has_changes(&self) -> (r: bool)
        ensures
            r == self@.spec_has_changes(),
    {
        self.index_status != StatusChar::Unchanged || self.worktree_status != StatusChar::Unchanged
    }

    /// Whether the index side records a change.
    pub fn is_staged(&self) -> (r: bool)
        ensures
            r == (self@.index_status != StatusChar::Unchanged),
    {
        self.index_status != StatusChar::Unchanged
    }

    /// Whether the working-tree side records a change.
    pub fn is_worktree_modified(&self) -> (r: bool)
        ensures
            r == (self@.worktree_status != StatusChar::Unchanged),
    {
        self.worktree_status != StatusChar::Unchanged
    }
}

/// A status extended with the content hashes of each comparison side and
/// the path resolved against the working tree, for callers that inspect a
/// divergence more closely. The hashes start out unfilled.
#[derive(Debug, Clone)]
pub struct FileStatusExt {
    pub base: FileStatus,
    pub index_oid: Option<Vec<u8>>,
    pub worktree_oid: Option<Vec<u8>>,
    pub head_oid: Option<Vec<u8>>,
    pub worktree_path: String,
}

impl FileStatusExt {
    /// Extend a status against a repository: resolve its path under the
    /// working-directory root, with the hash fields unfilled. Fails when
    /// the repository has no working directory.
    pub fn from_base(base: FileStatus, repo: &gix::Repository) -> (r: Result<
        FileStatusExt,
        StatusError,
    >)
        ensures
            r matches Err(e) ==> e is Backend,
            r matches Ok(e) ==> {
                &&& e.base == base
                &&& e.index_oid is None
                &&& e.worktree_oid is None
                &&& e.head_oid is None
                &&& exists|wd: Seq<char>|
                    e.worktree_path@ == #[trigger] crate::text::spec_join_under(wd, base@.path)
            },
    {
        let work_dir = match crate::repo::repo_work_dir(repo) {
            Option::Some(d) => d,
            Option::None => {
                return Result::Err(
                    StatusError::Backend("Repository has no working directory".to_owned()),
                );
            },
        };
        let worktree_path = crate::text::join_under(work_dir.as_str(), base.path.as_str());
        proof {
            assert(worktree_path@ == crate::text::spec_join_under(work_dir@, base@.path));
        }
        Result::Ok(
            FileStatusExt {
                base,
                index_oid: Option::None,
                worktree_oid: Option::None,
                head_oid: Option::None,
                worktree_path,
            },
        )
    }
}

/// The error taxonomy: `Backend` failures abort pipeline construction;
/// `Io` failures are surfaced per item during iteration.
#[derive(Debug, Clone)]
pub enum StatusError {
    /// The repository cannot be opened, the index is unreadable, or a tree
    /// lookup fails.
    Backend(String),
    /// A directory is unreadable, a file is unreadable, or a stat fails.
    Io(String),
}

} // verus!
