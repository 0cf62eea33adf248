//! The filter stage: a predicate over statuses, and a stream filter that
//! preserves order, drops non-matching items and forwards item-level errors.

use vstd::prelude::*;

use crate::types::FileStatus;
use crate::types::StatusChar;
use crate::types::StatusError;

verus! {

/// Which statuses pass the filter stage. The `Custom` variant holds a
/// caller-supplied predicate value, so the enum is generic in the
/// predicate's type.
#[derive(Debug, Clone, Copy)]
pub enum StatusFilter<F> where F: Fn(&FileStatus) -> bool {
    /// Only items with changes; always true of what the engine yields, kept
    /// for API symmetry.
    Changed,
    /// Only items whose index side records a change.
    Staged,
    /// Only items whose worktree side records a change.
    Worktree,
    /// Items for which either status field equals the given code.
    IndexStatus(StatusChar),
    /// Items for which either status field equals the given code.
    WorktreeStatus(StatusChar),
    /// A caller-supplied predicate.
    Custom(F),
}

impl<F> StatusFilter<F> where F: Fn(&FileStatus) -> bool {
    /// Whether this filter can be evaluated on every status: a custom
    /// predicate must accept every argument.
    pub open spec fn wf(self) -> bool {
        match self {
            StatusFilter::Custom(p) => forall|s: &FileStatus| call_requires(p, (s,)),
            _ => true,
        }
    }

    /// The relation between a status and the verdict `m` this filter gives
    /// it. For every built-in filter the verdict is a function of the
    /// status; for a custom predicate it is whatever the predicate's own
    /// contract admits.
    ///
    /// `IndexStatus(c)` and `WorktreeStatus(c)` match when either status
    /// field equals `c`, not only their named field.
    pub open spec fn spec_verdict(self, s: &FileStatus, m: bool) -> bool {
        match self {
            StatusFilter::Changed => m == s@.spec_has_changes(),
            StatusFilter::Staged => m == (s@.index_status != StatusChar::Unchanged),
            StatusFilter::Worktree => m == (s@.worktree_status != StatusChar::Unchanged),
            StatusFilter::IndexStatus(c) => m == (s@.index_status == c || s@.worktree_status == c),
            StatusFilter::WorktreeStatus(c) => m == (s@.index_status == c || s@.worktree_status
                == c),
            StatusFilter::Custom(p) => call_ensures(p, (s,), m),
        }
    }

    /// Evaluate this filter on one status.
    pub fn matches(&self, s: &FileStatus) -> (m: bool)
        requires
            self.wf(),
        ensures
            self.spec_verdict(s, m),
    {
        match self {
            StatusFilter::Changed => s.has_changes(),
            StatusFilter::Staged => s.is_staged(),
            StatusFilter::Worktree => s.is_worktree_modified(),
            StatusFilter::IndexStatus(c) => s.index_status == *c || s.worktree_status == *c,
            StatusFilter::WorktreeStatus(c) => s.index_status == *c || s.worktree_status == *c,
            StatusFilter::Custom(p) => p(s),
        }
    }
}

/// A stream filter over status items: yields the matching items of `inner`
/// in order, drops the rest, and forwards item-level errors unchanged.
pub struct StatusFilterIter<F> where F: Fn(&FileStatus) -> bool {
    pub inner: Vec<Result<FileStatus, StatusError>>,
    pub filter: StatusFilter<F>,
}

impl<F> StatusFilterIter<F> where F: Fn(&FileStatus) -> bool {
    /// Build the filter stage over a materialized stream of items.
    pub fn new(inner: Vec<Result<FileStatus, StatusError>>, filter: StatusFilter<F>) -> (r: Self)
        ensures
            r.inner == inner,
            r.filter == filter,
    {
        StatusFilterIter { inner, filter }
    }

    /// The next surviving item: the first remaining error, or the first
    /// remaining status that the filter matches; `None` once the rest of the
    /// stream holds only non-matching statuses.
    pub fn next(&mut self) -> (r: Option<Result<FileStatus, StatusError>>)
        requires
            old(self).filter.wf(),
        ensures
            final(self).filter == old(self).filter,
            match r {
                Option::None => {
                    &&& final(self).inner@.len() == 0
                    &&& forall|j: int|
                        0 <= j < old(self).inner@.len() ==> #[trigger] old(self).inner@[j] is Ok
                            && old(self).filter.spec_verdict(&old(self).inner@[j]->Ok_0, false)
                },
                Option::Some(item) => {
                    exists|k: int|
                        {
                            &&& 0 <= k < old(self).inner@.len()
                            &&& item == old(self).inner@[k]
                            &&& (item matches Ok(s) ==> old(self).filter.spec_verdict(&s, true))
                            &&& final(self).inner@ == old(self).inner@.skip(k + 1)
                            &&& forall|j: int|
                                0 <= j < k ==> #[trigger] old(self).inner@[j] is Ok && old(
                                    self,
                                ).filter.spec_verdict(&old(self).inner@[j]->Ok_0, false)
                        }
                },
            },
    {
        let ghost orig = old(self).inner@;
        let ghost dropped: int = 0;
        #[verifier::loop_isolation(false)]
        loop
            invariant
                self.filter == old(self).filter,
                0 <= dropped <= orig.len(),
                self.inner@ == orig.skip(dropped),
                forall|j: int|
                    0 <= j < dropped ==> #[trigger] orig[j] is Ok && self.filter.spec_verdict(
                        &orig[j]->Ok_0,
                        false,
                    ),
            decreases self.inner@.len(),
        {
            if self.inner.is_empty() {
                assert(orig.skip(dropped).len() == 0);
                return Option::None;
            }
            let item = self.inner.remove(0);
            proof {
                assert(orig.skip(dropped)[0] == orig[dropped]);
                assert(orig.skip(dropped).remove(0) =~= orig.skip(dropped + 1));
            }
            match item {
                Result::Ok(s) => {
                    if self.filter.matches(&s) {
                        proof {
                            let k = dropped;
                            assert(orig[k] == Result::<FileStatus, StatusError>::Ok(s));
                            assert(self.inner@ == orig.skip(k + 1));
                        }
                        return Option::Some(Result::Ok(s));
                    }
                    proof {
                        dropped = dropped + 1;
                    }
                },
                Result::Err(e) => {
                    proof {
                        let k = dropped;
                        assert(orig[k] == Result::<FileStatus, StatusError>::Err(e));
                    }
                    return Option::Some(Result::Err(e));
                },
            }
        }
    }
}

} // verus!
