use gixkit::status::status_chars;
use gixkit::FileStatus;
use gixkit::StatusChar;

fn h(byte: u8) -> Vec<u8> {
    vec![byte; 20]
}

#[test]
fn clean_path_yields_nothing() {
    // HEAD, index and disk all agree: no change on either side, so the
    // engine discards the entry.
    let oid = h(1);
    let (i, w) = status_chars(Some(&oid), &oid, Some(&oid));
    assert_eq!(i, ' ');
    assert_eq!(w, ' ');
    let fs = FileStatus {
        path: String::from("a.txt"),
        index_status: StatusChar::from_char(i),
        worktree_status: StatusChar::from_char(w),
        metadata: None,
    };
    assert!(!fs.has_changes());
}

#[test]
fn no_commits_index_entry_is_added() {
    // Repository with no commits: the path is absent from the (empty)
    // HEAD tree, disk content hashes to the index hash.
    let oid = h(1);
    let (i, w) = status_chars(None, &oid, Some(&oid));
    assert_eq!(i, 'A');
    assert_eq!(w, ' ');
    assert_eq!(StatusChar::from_char(i), StatusChar::Added);
    assert_eq!(StatusChar::from_char(w), StatusChar::Unchanged);
}

#[test]
fn disk_divergence_is_worktree_modified() {
    // HEAD and index agree; the disk hashes differently.
    let oid = h(1);
    let disk = h(2);
    let (i, w) = status_chars(Some(&oid), &oid, Some(&disk));
    assert_eq!(i, ' ');
    assert_eq!(w, 'M');
}

#[test]
fn missing_on_disk_is_deleted() {
    let oid = h(1);
    let (i, w) = status_chars(Some(&oid), &oid, None);
    assert_eq!(i, ' ');
    assert_eq!(w, 'D');
}

#[test]
fn head_divergence_is_index_modified() {
    let head = h(3);
    let oid = h(1);
    let (i, w) = status_chars(Some(&head), &oid, Some(&oid));
    assert_eq!(i, 'M');
    assert_eq!(w, ' ');
}

#[test]
fn status_char_text_round_trip() {
    let all = [
        (StatusChar::Modified, 'M'),
        (StatusChar::Added, 'A'),
        (StatusChar::Deleted, 'D'),
        (StatusChar::Renamed, 'R'),
        (StatusChar::Copied, 'C'),
        (StatusChar::Unmerged, 'U'),
        (StatusChar::Untracked, '?'),
        (StatusChar::Ignored, '!'),
        (StatusChar::Unchanged, ' '),
    ];
    for (s, c) in all {
        assert_eq!(s.to_char(), c);
        assert_eq!(StatusChar::from_char(c), s);
    }
    assert_eq!(StatusChar::from_char('z'), StatusChar::Unchanged);
}

#[test]
fn change_queries() {
    let staged = FileStatus {
        path: String::from("a"),
        index_status: StatusChar::Added,
        worktree_status: StatusChar::Unchanged,
        metadata: None,
    };
    assert!(staged.has_changes());
    assert!(staged.is_staged());
    assert!(!staged.is_worktree_modified());
    let wt = FileStatus {
        path: String::from("a"),
        index_status: StatusChar::Unchanged,
        worktree_status: StatusChar::Modified,
        metadata: None,
    };
    assert!(wt.has_changes());
    assert!(!wt.is_staged());
    assert!(wt.is_worktree_modified());
}
