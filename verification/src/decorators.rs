//! The decorator stage: attaches modification time and size to each
//! surviving item of a status stream.

use vstd::prelude::*;

use crate::text::join_under;
use crate::text::spec_join_under;
use crate::types::FileMetadata;
use crate::types::FileStatus;
use crate::types::FileStatusV;
use crate::types::StatusChar;
use crate::types::StatusError;

verus! {

/// A status with filesystem metadata attached.
#[derive(Debug, Clone)]
pub struct FileStatusWithDate {
    pub status: FileStatus,
    pub modified_time: u64,
    pub size: u64,
}

/// The mathematical value of a decorated status.
pub struct FileStatusWithDateV {
    pub status: FileStatusV,
    pub modified_time: u64,
    pub size: u64,
}

impl View for FileStatusWithDate {
    type V = FileStatusWithDateV;

    open spec fn view(&self) -> FileStatusWithDateV {
        FileStatusWithDateV {
            status: self.status@,
            modified_time: self.modified_time,
            size: self.size,
        }
    }
}

/// The decorator over a materialized stream of items. The caller stats the
/// path `pending_path` names and hands the result to `next`; a path already
/// known deleted is not stated and defaults to epoch-zero metadata.
pub struct DateIter {
    pub inner: Vec<Result<FileStatus, StatusError>>,
    pub work_dir: String,
}

impl DateIter {
    /// Build the decorator stage over a stream of items and the
    /// working-directory root the paths resolve against.
    pub fn new(inner: Vec<Result<FileStatus, StatusError>>, work_dir: String) -> (r: Self)
        ensures
            r.inner == inner,
            r.work_dir == work_dir,
    {
        DateIter { inner, work_dir }
    }

    /// The filesystem path the next pull needs a stat of: the resolved path
    /// of the first remaining item, unless the stream is drained, the first
    /// item is an error to forward, or the item is already known deleted.
    pub fn pending_path(&self) -> (r: Option<String>)
        ensures
            match r {
                Option::Some(p) => {
                    &&& self.inner@.len() > 0
                    &&& self.inner@[0] matches Result::Ok(f) && f@.worktree_status
                        != StatusChar::Deleted && p@ == spec_join_under(self.work_dir@, f@.path)
                },
                Option::None => self.inner@.len() == 0 || self.inner@[0] is Err || (
                self.inner@[0] matches Result::Ok(f) && f@.worktree_status == StatusChar::Deleted),
            },
    {
        if self.inner.len() == 0 {
            return Option::None;
        }
        match &self.inner[0] {
            Result::Ok(f) => {
                if f.worktree_status == StatusChar::Deleted {
                    Option::None
                } else {
                    Option::Some(join_under(self.work_dir.as_str(), f.path.as_str()))
                }
            },
            Result::Err(_) => Option::None,
        }
    }

    /// Decorate the next item. An error item is forwarded unchanged; a
    /// deleted path gets epoch-zero metadata without consulting `meta`; any
    /// other path takes the caller's stat result, a failed stat becoming an
    /// item-level error. `None` once the stream is drained.
    pub fn next(&mut self, meta: Option<Result<FileMetadata, String>>) -> (r: Option<
        Result<FileStatusWithDate, StatusError>,
    >)
        requires
            (old(self).inner@.len() > 0 && (old(self).inner@[0] matches Result::Ok(f)
                && f@.worktree_status != StatusChar::Deleted)) ==> meta is Some,
        ensures
            final(self).work_dir == old(self).work_dir,
            if old(self).inner@.len() == 0 {
                r is None && final(self).inner == old(self).inner
            } else {
                &&& final(self).inner@ == old(self).inner@.drop_first()
                &&& match old(self).inner@[0] {
                    Result::Err(e) => r == Option::Some(
                        Result::<FileStatusWithDate, StatusError>::Err(e),
                    ),
                    Result::Ok(f) => if f@.worktree_status == StatusChar::Deleted {
                        r matches Option::Some(Result::Ok(d)) && d@.status == f@
                            && d@.modified_time == 0 && d@.size == 0
                    } else {
                        match meta->Some_0 {
                            Result::Ok(md) => r matches Option::Some(Result::Ok(d)) && d@.status
                                == f@ && d@.modified_time == md.modified_time && d@.size
                                == md.size,
                            Result::Err(m) => r matches Option::Some(Result::Err(
                                StatusError::Io(mm),
                            )) && mm == m,
                        }
                    },
                }
            },
    {
        if self.inner.len() == 0 {
            return Option::None;
        }
        let item = self.inner.remove(0);
        proof {
            assert(self.inner@ =~= old(self).inner@.drop_first());
        }
        match item {
            Result::Err(e) => Option::Some(Result::Err(e)),
            Result::Ok(f) => {
                if f.worktree_status == StatusChar::Deleted {
                    Option::Some(
                        Result::Ok(FileStatusWithDate { status: f, modified_time: 0, size: 0 }),
                    )
                } else {
                    match meta.unwrap() {
                        Result::Ok(md) => Option::Some(
                            Result::Ok(
                                FileStatusWithDate {
                                    status: f,
                                    modified_time: md.modified_time,
                                    size: md.size,
                                },
                            ),
                        ),
                        Result::Err(m) => Option::Some(Result::Err(StatusError::Io(m))),
                    }
                }
            },
        }
    }
}

} // verus!
