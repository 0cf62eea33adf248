use gixkit::decorators::DateIter;
use gixkit::FileMetadata;
use gixkit::FileStatus;
use gixkit::StatusChar;
use gixkit::StatusError;
use gixkit::StatusFilter;
use gixkit::StatusFilterIter;

type PlainFilter = StatusFilter<fn(&FileStatus) -> bool>;

fn fs(path: &str, i: StatusChar, w: StatusChar) -> FileStatus {
    FileStatus {
        path: String::from(path),
        index_status: i,
        worktree_status: w,
        metadata: None,
    }
}

fn paths_of(mut it: StatusFilterIter<fn(&FileStatus) -> bool>) -> Vec<String> {
    let mut out = Vec::new();
    while let Some(item) = it.next() {
        out.push(item.unwrap().path);
    }
    out
}

#[test]
fn index_status_filter_matches_either_field() {
    // The item's index side is clear and only its worktree side is
    // Modified; an IndexStatus(Modified) filter still matches it.
    let items = vec![Ok(fs("w.txt", StatusChar::Unchanged, StatusChar::Modified))];
    let filter: PlainFilter = StatusFilter::IndexStatus(StatusChar::Modified);
    let it = StatusFilterIter::new(items, filter);
    assert_eq!(paths_of(it), vec![String::from("w.txt")]);
}

#[test]
fn worktree_status_filter_matches_either_field() {
    // Only the index side is Added; a WorktreeStatus(Added) filter still
    // matches it.
    let items = vec![Ok(fs("i.txt", StatusChar::Added, StatusChar::Unchanged))];
    let filter: PlainFilter = StatusFilter::WorktreeStatus(StatusChar::Added);
    let it = StatusFilterIter::new(items, filter);
    assert_eq!(paths_of(it), vec![String::from("i.txt")]);
}

#[test]
fn status_filter_drops_non_matching() {
    let items = vec![
        Ok(fs("a", StatusChar::Added, StatusChar::Unchanged)),
        Ok(fs("b", StatusChar::Unchanged, StatusChar::Modified)),
        Ok(fs("c", StatusChar::Deleted, StatusChar::Unchanged)),
    ];
    let filter: PlainFilter = StatusFilter::IndexStatus(StatusChar::Added);
    let it = StatusFilterIter::new(items, filter);
    assert_eq!(paths_of(it), vec![String::from("a")]);
}

#[test]
fn staged_and_worktree_filters() {
    let items = || {
        vec![
            Ok(fs("staged", StatusChar::Added, StatusChar::Unchanged)),
            Ok(fs("worktree", StatusChar::Unchanged, StatusChar::Modified)),
        ]
    };
    let staged: PlainFilter = StatusFilter::Staged;
    let it = StatusFilterIter::new(items(), staged);
    assert_eq!(paths_of(it), vec![String::from("staged")]);
    let worktree: PlainFilter = StatusFilter::Worktree;
    let it = StatusFilterIter::new(items(), worktree);
    assert_eq!(paths_of(it), vec![String::from("worktree")]);
    let changed: PlainFilter = StatusFilter::Changed;
    let it = StatusFilterIter::new(items(), changed);
    assert_eq!(
        paths_of(it),
        vec![String::from("staged"), String::from("worktree")]
    );
}

#[test]
fn filter_forwards_errors() {
    let items: Vec<Result<FileStatus, StatusError>> = vec![
        Ok(fs("dropped", StatusChar::Unchanged, StatusChar::Unchanged)),
        Err(StatusError::Io(String::from("boom"))),
        Ok(fs("kept", StatusChar::Added, StatusChar::Unchanged)),
    ];
    let staged: PlainFilter = StatusFilter::Staged;
    let mut it = StatusFilterIter::new(items, staged);
    match it.next() {
        Some(Err(StatusError::Io(m))) => assert_eq!(m, "boom"),
        _ => panic!("the error is forwarded before later items"),
    }
    match it.next() {
        Some(Ok(f)) => assert_eq!(f.path, "kept"),
        _ => panic!("the matching item follows"),
    }
    assert!(it.next().is_none());
}

#[test]
fn custom_predicate_filter() {
    let items = vec![
        Ok(fs("long-name", StatusChar::Added, StatusChar::Unchanged)),
        Ok(fs("x", StatusChar::Added, StatusChar::Unchanged)),
    ];
    let mut it = StatusFilterIter::new(items, StatusFilter::Custom(|f: &FileStatus| f.path.len() > 1));
    match it.next() {
        Some(Ok(f)) => assert_eq!(f.path, "long-name"),
        _ => panic!("the predicate keeps the long name"),
    }
    assert!(it.next().is_none());
}

#[test]
fn decorator_attaches_stat_result() {
    let items = vec![Ok(fs("a.txt", StatusChar::Unchanged, StatusChar::Modified))];
    let mut it = DateIter::new(items, String::from("/w"));
    assert_eq!(it.pending_path().as_deref(), Some("/w/a.txt"));
    let d = it
        .next(Some(Ok(FileMetadata { modified_time: 1700000000, size: 42 })))
        .unwrap()
        .unwrap();
    assert_eq!(d.status.path, "a.txt");
    assert_eq!(d.modified_time, 1700000000);
    assert_eq!(d.size, 42);
    assert!(it.next(None).is_none());
}

#[test]
fn decorator_defaults_deleted_to_epoch() {
    let items = vec![Ok(fs("gone.txt", StatusChar::Unchanged, StatusChar::Deleted))];
    let mut it = DateIter::new(items, String::from("/w"));
    assert!(it.pending_path().is_none());
    let d = it.next(None).unwrap().unwrap();
    assert_eq!(d.modified_time, 0);
    assert_eq!(d.size, 0);
}

#[test]
fn decorator_surfaces_stat_failure() {
    let items = vec![Ok(fs("a.txt", StatusChar::Unchanged, StatusChar::Modified))];
    let mut it = DateIter::new(items, String::from("/w"));
    match it.next(Some(Err(String::from("stat failed")))) {
        Some(Err(StatusError::Io(m))) => assert_eq!(m, "stat failed"),
        _ => panic!("a stat failure propagates as an item-level error"),
    }
}

#[test]
fn decorator_forwards_errors() {
    let items: Vec<Result<FileStatus, StatusError>> =
        vec![Err(StatusError::Backend(String::from("bad")))];
    let mut it = DateIter::new(items, String::from("/w"));
    assert!(it.pending_path().is_none());
    match it.next(None) {
        Some(Err(StatusError::Backend(m))) => assert_eq!(m, "bad"),
        _ => panic!("an error item passes through"),
    }
}
