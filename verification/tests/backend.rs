use gixkit::open_repo;
use gixkit::repo::hash_blob;
use gixkit::status::status_chars;
use gixkit::StatusError;

// The content hash of the bytes "hello world\n" under git's blob hashing
// convention, as `git hash-object` computes it.
const HELLO_HASH: [u8; 20] = [
    0x3b, 0x18, 0xe5, 0x12, 0xdb, 0xa7, 0x9e, 0x4c, 0x83, 0x00, 0xdd, 0x08, 0xae, 0xb3, 0x7f,
    0x8e, 0x72, 0x8b, 0x8d, 0xad,
];

#[test]
fn blob_hashing_matches_the_object_store() {
    let content = b"hello world\n".to_vec();
    let h = hash_blob(&content).expect("hashing in memory succeeds");
    assert_eq!(h, HELLO_HASH.to_vec());
}

#[test]
fn empty_blob_hash_is_canonical() {
    // The well-known hash of the empty blob.
    let h = hash_blob(&Vec::new()).expect("hashing in memory succeeds");
    assert_eq!(
        h,
        vec![
            0xe6, 0x9d, 0xe2, 0x9b, 0xb2, 0xd1, 0xd6, 0x43, 0x4b, 0x8b, 0x29, 0xae, 0x77, 0x5a,
            0xd8, 0xc2, 0xe4, 0x8c, 0x53, 0x91
        ]
    );
}

#[test]
fn modified_content_shows_as_worktree_modified() {
    // An indexed file whose on-disk bytes hash differently shows Modified
    // on the worktree side; same bytes show clean.
    let indexed = HELLO_HASH.to_vec();
    let same = hash_blob(&b"hello world\n".to_vec()).unwrap();
    let changed = hash_blob(&b"hello there\n".to_vec()).unwrap();
    let (_, w) = status_chars(Some(&indexed), &indexed, Some(&same));
    assert_eq!(w, ' ');
    let (_, w) = status_chars(Some(&indexed), &indexed, Some(&changed));
    assert_eq!(w, 'M');
}

#[test]
fn opening_a_missing_repository_fails() {
    match open_repo("/nonexistent-path-for-sure/nowhere") {
        Err(StatusError::Backend(m)) => {
            assert!(m.contains("Failed to open git repository"));
        }
        _ => panic!("opening a missing repository is a backend error"),
    }
}

#[test]
fn xdg_config_paths_end_canonically() {
    if let Some(p) = gixkit::paths::xdg_git_config() {
        assert!(p.ends_with("/config") || p.ends_with("\\config"));
    }
    if let Some(p) = gixkit::paths::xdg_git_config_d() {
        assert!(p.ends_with("/config.d") || p.ends_with("\\config.d"));
    }
    if let Some(d) = gixkit::paths::xdg_git_dir() {
        assert!(d.ends_with("git"));
    }
}
