//! A repository status engine: it reconciles the last-committed tree, the
//! staged index and the live working directory into one stream of per-path
//! status codes, with filtering and metadata decoration over that stream.
//!
//! The engine itself works on plain values: index snapshots, content hashes,
//! directory listings. Reading the repository goes through a small set of
//! trusted wrappers around `gix`; listing directories and reading file bytes
//! is handed in by the caller, one directory or file at a time, so the walk
//! is a resumable state machine.

pub mod cli;
pub mod decorators;
pub mod filters;
pub mod goldest;
pub mod ignore;
pub mod index;
pub mod paths;
pub mod pick;
pub mod repo;
pub mod repo_iter;
pub mod status;
pub mod text;
pub mod types;
pub mod untracked;

pub use decorators::DateIter;
pub use decorators::FileStatusWithDate;
pub use filters::StatusFilter;
pub use filters::StatusFilterIter;
pub use index::IndexedFile;
pub use index::get_index_entries;
pub use index::path_in_index;
pub use repo::get_head_tree;
pub use repo::open_repo;
pub use repo_iter::IterMode;
pub use repo_iter::RepoIter;
pub use repo_iter::RepoIterBuilder;
pub use status::StatusIter;
pub use status::StatusIterBuilder;
pub use types::FileMetadata;
pub use types::FileStatus;
pub use types::FileStatusExt;
pub use types::StatusChar;
pub use types::StatusError;
pub use types::StatusOptions;
pub use types::UntrackedFilter;
pub use untracked::UntrackedIter;
pub use untracked::UntrackedIterBuilder;
