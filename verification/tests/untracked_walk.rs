use gixkit::index::IndexedFile;
use gixkit::untracked::DirEntryInfo;
use gixkit::untracked::EntryAction;
use gixkit::untracked::process_entry;
use gixkit::untracked::process_listing;
use gixkit::StatusChar;
use gixkit::UntrackedFilter;
use gixkit::UntrackedIter;

fn entry(name: &str, is_dir: bool) -> DirEntryInfo {
    DirEntryInfo { name: Some(String::from(name)), is_dir, meta: None }
}

fn indexed(path: &str) -> IndexedFile {
    IndexedFile { path: String::from(path), oid: vec![1; 20] }
}

fn walk_all(mut it: UntrackedIter, listings: &mut Vec<(String, Vec<DirEntryInfo>)>) -> Vec<String> {
    // Drive the walk: answer each directory request from the prepared
    // listings (matching on the absolute path), collect yielded paths.
    let mut out = Vec::new();
    loop {
        while let Some(item) = it.next() {
            out.push(item.expect("no listing errors in this walk").path);
        }
        match it.pending_dir() {
            Some(dir) => {
                let pos = listings
                    .iter()
                    .position(|(d, _)| *d == dir)
                    .unwrap_or_else(|| panic!("unexpected directory request"));
                let (_, l) = listings.remove(pos);
                it.feed_listing(Ok(l));
            }
            None => break,
        }
    }
    assert!(it.finished());
    out
}

#[test]
fn untracked_file_is_yielded() {
    // Index has no entry for a.txt; disk has a.txt.
    let it = UntrackedIter::from_snapshot(String::from("/w"), vec![], UntrackedFilter::Normal);
    let mut listings = vec![(String::from("/w"), vec![entry("a.txt", false)])];
    let mut it = it;
    // Walk by hand once to also check the yielded statuses.
    assert_eq!(it.pending_dir().as_deref(), Some("/w"));
    it.feed_listing(Ok(listings.remove(0).1));
    let item = it.next().unwrap().unwrap();
    assert_eq!(item.path, "a.txt");
    assert_eq!(item.index_status, StatusChar::Unchanged);
    assert_eq!(item.worktree_status, StatusChar::Untracked);
    assert!(item.metadata.is_none());
    assert!(it.next().is_none());
    assert!(it.finished());
}

#[test]
fn tracked_file_is_skipped() {
    let it = UntrackedIter::from_snapshot(
        String::from("/w"),
        vec![indexed("a.txt")],
        UntrackedFilter::Normal,
    );
    let mut listings = vec![(
        String::from("/w"),
        vec![entry("a.txt", false), entry("b.txt", false)],
    )];
    let out = walk_all(it, &mut listings);
    assert_eq!(out, vec![String::from("b.txt")]);
}

#[test]
fn dot_entries_are_skipped() {
    // Disk has .git/ and .hidden: neither appears in the stream.
    let it = UntrackedIter::from_snapshot(String::from("/w"), vec![], UntrackedFilter::All);
    let mut listings = vec![(
        String::from("/w"),
        vec![entry(".git", true), entry(".hidden", false), entry("seen", false)],
    )];
    let out = walk_all(it, &mut listings);
    assert_eq!(out, vec![String::from("seen")]);
}

#[test]
fn all_filter_descends_into_subdirectories() {
    // Disk has build/out.o, not indexed; under All the walk descends.
    let it = UntrackedIter::from_snapshot(String::from("/w"), vec![], UntrackedFilter::All);
    let mut listings = vec![
        (String::from("/w"), vec![entry("build", true)]),
        (String::from("/w/build"), vec![entry("out.o", false)]),
    ];
    let out = walk_all(it, &mut listings);
    assert_eq!(out, vec![String::from("build/out.o")]);
}

#[test]
fn normal_filter_does_not_descend() {
    let it = UntrackedIter::from_snapshot(String::from("/w"), vec![], UntrackedFilter::Normal);
    let mut listings = vec![(String::from("/w"), vec![entry("build", true)])];
    let out = walk_all(it, &mut listings);
    assert!(out.is_empty());
}

#[test]
fn no_filter_walks_nothing() {
    let it = UntrackedIter::from_snapshot(String::from("/w"), vec![], UntrackedFilter::No);
    assert!(it.pending_dir().is_none());
    assert!(it.finished());
}

#[test]
fn non_decodable_names_are_dropped_silently() {
    let it = UntrackedIter::from_snapshot(String::from("/w"), vec![], UntrackedFilter::Normal);
    let mut listings = vec![(
        String::from("/w"),
        vec![
            DirEntryInfo { name: None, is_dir: false, meta: None },
            entry("ok.txt", false),
        ],
    )];
    let out = walk_all(it, &mut listings);
    assert_eq!(out, vec![String::from("ok.txt")]);
}

#[test]
fn listing_error_is_surfaced_once() {
    let mut it =
        UntrackedIter::from_snapshot(String::from("/w"), vec![], UntrackedFilter::Normal);
    assert_eq!(it.pending_dir().as_deref(), Some("/w"));
    it.feed_listing(Err(String::from("permission denied")));
    match it.next() {
        Some(Err(gixkit::StatusError::Io(m))) => assert_eq!(m, "permission denied"),
        _ => panic!("expected an item-level error"),
    }
    assert!(it.next().is_none());
    assert!(it.finished());
}

#[test]
fn walk_is_order_independent() {
    // Two passes over the same directory, listed in different orders,
    // yield the same set of untracked paths.
    let index = vec![indexed("tracked.txt")];
    let l1 = vec![
        entry("a.txt", false),
        entry("tracked.txt", false),
        entry(".hidden", false),
        entry("b.txt", false),
    ];
    let mut l2 = l1.clone();
    l2.reverse();
    let it1 = UntrackedIter::from_snapshot(String::from("/w"), index.clone(), UntrackedFilter::Normal);
    let it2 = UntrackedIter::from_snapshot(String::from("/w"), index, UntrackedFilter::Normal);
    let mut out1 = walk_all(it1, &mut vec![(String::from("/w"), l1)]);
    let mut out2 = walk_all(it2, &mut vec![(String::from("/w"), l2)]);
    out1.sort();
    out2.sort();
    assert_eq!(out1, out2);
    assert_eq!(out1, vec![String::from("a.txt"), String::from("b.txt")]);
}

#[test]
fn untracked_yields_each_file_exactly_once() {
    let it = UntrackedIter::from_snapshot(String::from("/w"), vec![], UntrackedFilter::Normal);
    let mut listings = vec![(
        String::from("/w"),
        vec![entry("a", false), entry("b", false), entry("c", false)],
    )];
    let out = walk_all(it, &mut listings);
    assert_eq!(out.len(), 3);
    for name in ["a", "b", "c"] {
        assert_eq!(out.iter().filter(|p| *p == name).count(), 1);
    }
}

#[test]
fn process_entry_decisions() {
    let index = vec![indexed("sub/known.txt")];
    let dir = String::from("sub");
    match process_entry(&dir, &entry("known.txt", false), &index, true, false) {
        EntryAction::Skip => {}
        _ => panic!("an indexed path belongs to the tracked phase"),
    }
    match process_entry(&dir, &entry("fresh.txt", false), &index, true, false) {
        EntryAction::Yield(f) => assert_eq!(f.path, "sub/fresh.txt"),
        _ => panic!("an unindexed file is yielded"),
    }
    match process_entry(&dir, &entry("inner", true), &index, true, false) {
        EntryAction::Descend(d) => assert_eq!(d, "sub/inner"),
        _ => panic!("a directory is descended into when allowed"),
    }
    match process_entry(&dir, &entry("inner", true), &index, false, false) {
        EntryAction::Skip => {}
        _ => panic!("a directory is skipped when descent is off"),
    }
}

#[test]
fn process_listing_orders_and_splits() {
    let index = vec![];
    let root = String::from("");
    let listing = vec![
        entry("z.txt", false),
        entry("dir1", true),
        entry("a.txt", false),
        entry("dir2", true),
    ];
    let (yields, dirs) = process_listing(&root, &listing, &index, true, false);
    let paths: Vec<String> = yields.into_iter().map(|f| f.path).collect();
    assert_eq!(paths, vec![String::from("z.txt"), String::from("a.txt")]);
    assert_eq!(dirs, vec![String::from("dir1"), String::from("dir2")]);
}

#[test]
fn path_is_tracked_checks_snapshot() {
    let it = UntrackedIter::from_snapshot(
        String::from("/w"),
        vec![indexed("a"), indexed("b/c")],
        UntrackedFilter::Normal,
    );
    assert!(it.path_is_tracked(&String::from("a")));
    assert!(it.path_is_tracked(&String::from("b/c")));
    assert!(!it.path_is_tracked(&String::from("b")));
}
