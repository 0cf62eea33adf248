use gixkit::goldest::format_timestamp;
use gixkit::goldest::format_u64;
use gixkit::goldest::goldest_default_line;
use gixkit::goldest::goldest_porcelain_line;
use gixkit::goldest::goldest_short_line;
use gixkit::goldest::select_window;
use gixkit::goldest::sort_by_mtime;
use gixkit::goldest::status_line;
use gixkit::text::join_rel;
use gixkit::text::join_under;
use gixkit::text::parse_usize;
use gixkit::text::split_at_char;
use gixkit::text::starts_with;
use gixkit::text::trim;
use gixkit::FileMetadata;
use gixkit::FileStatus;
use gixkit::StatusChar;

fn with_mtime(path: &str, t: u64) -> FileStatus {
    FileStatus {
        path: String::from(path),
        index_status: StatusChar::Unchanged,
        worktree_status: StatusChar::Modified,
        metadata: Some(FileMetadata { modified_time: t, size: 1 }),
    }
}

#[test]
fn joining_paths() {
    assert_eq!(join_rel("", "a.txt"), "a.txt");
    assert_eq!(join_rel("sub", "a.txt"), "sub/a.txt");
    assert_eq!(join_under("/w", ""), "/w");
    assert_eq!(join_under("/w", "sub/a"), "/w/sub/a");
}

#[test]
fn prefix_test() {
    assert!(starts_with("sub/a.txt", "sub"));
    assert!(starts_with("sub", ""));
    assert!(!starts_with("su", "sub"));
    assert!(!starts_with("other/a", "sub"));
}

#[test]
fn splitting_text() {
    assert_eq!(split_at_char("a,b,c", ','), vec!["a", "b", "c"]);
    assert_eq!(split_at_char("", ','), vec![""]);
    assert_eq!(split_at_char("a,,b", ','), vec!["a", "", "b"]);
    assert_eq!(split_at_char("one\n", '\n'), vec!["one", ""]);
}

#[test]
fn trimming_text() {
    assert_eq!(trim("  x  "), "x");
    assert_eq!(trim("\t a b \r\n"), "a b");
    assert_eq!(trim("   "), "");
    assert_eq!(trim("plain"), "plain");
}

#[test]
fn parsing_numbers() {
    assert_eq!(parse_usize("0"), Some(0));
    assert_eq!(parse_usize("12345"), Some(12345));
    assert_eq!(parse_usize(""), None);
    assert_eq!(parse_usize("12a"), None);
    assert_eq!(parse_usize("-3"), None);
    assert_eq!(parse_usize("99999999999999999999999999"), None);
}

#[test]
fn sorting_by_modification_time() {
    let files = vec![
        with_mtime("newest", 300),
        with_mtime("oldest", 100),
        with_mtime("middle", 200),
    ];
    let sorted = sort_by_mtime(files);
    let paths: Vec<String> = sorted.into_iter().map(|f| f.path).collect();
    assert_eq!(
        paths,
        vec![
            String::from("oldest"),
            String::from("middle"),
            String::from("newest")
        ]
    );
}

#[test]
fn missing_metadata_sorts_first() {
    let mut no_meta = with_mtime("bare", 0);
    no_meta.metadata = None;
    let files = vec![with_mtime("dated", 50), no_meta];
    let sorted = sort_by_mtime(files);
    assert_eq!(sorted[0].path, "bare");
    assert_eq!(sorted[1].path, "dated");
}

#[test]
fn windowing_a_report() {
    let files: Vec<FileStatus> = (0..5).map(|i| with_mtime(&format!("f{}", i), i)).collect();
    let w = select_window(files.clone(), 1, 2);
    let paths: Vec<String> = w.into_iter().map(|f| f.path).collect();
    assert_eq!(paths, vec![String::from("f1"), String::from("f2")]);
    let w = select_window(files.clone(), 4, 10);
    assert_eq!(w.len(), 1);
    let w = select_window(files, 9, 2);
    assert!(w.is_empty());
}

#[test]
fn rendering_numbers() {
    assert_eq!(format_u64(0), "0");
    assert_eq!(format_u64(7), "7");
    assert_eq!(format_u64(12345), "12345");
    assert_eq!(format_u64(1000), "1000");
}

#[test]
fn rendering_status_lines() {
    let f = FileStatus {
        path: String::from("a.txt"),
        index_status: StatusChar::Added,
        worktree_status: StatusChar::Modified,
        metadata: None,
    };
    assert_eq!(status_line(&f), "AM a.txt");
    assert_eq!(goldest_short_line(&f, "01-01-70T00:00:00Z"), "AM 01-01-70T00:00:00Z a.txt");
    assert_eq!(
        goldest_porcelain_line(&f, "01-01-70T00:00:00Z", 42),
        "AM 01-01-70T00:00:00Z a.txt 42"
    );
    assert_eq!(goldest_default_line(&f, "01-01-70T00:00:00Z"), "a.txt 01-01-70T00:00:00Z");
}

#[test]
fn rendering_timestamps() {
    // The epoch renders to a fixed text in the report's date format; this
    // goes through the real date library.
    assert_eq!(format_timestamp(0).as_deref(), Some("01-01-70T00:00:00Z"));
    assert_eq!(
        format_timestamp(1431648000).as_deref(),
        Some("05-15-15T00:00:00Z")
    );
}

#[test]
fn timestamps_before_year_ten_thousand_render() {
    // The last second of year 9999 renders; a far-future value outside
    // the date library's range does not.
    assert_eq!(
        format_timestamp(253402300799).as_deref(),
        Some("12-31-99T23:59:59Z")
    );
    assert_eq!(format_timestamp(u64::MAX), None);
}
