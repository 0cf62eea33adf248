use gixkit::ignore::added_message;
use gixkit::ignore::list_patterns;
use gixkit::ignore::no_patterns_message;
use gixkit::ignore::removed_message;
use gixkit::ignore::read_patterns;
use gixkit::ignore::remove_pattern;
use gixkit::ignore::repo_nah_path;
use gixkit::pick::parse_selection;

#[test]
fn selection_of_single_indices() {
    assert_eq!(parse_selection("1,3,5", 9), vec![1, 3, 5]);
}

#[test]
fn selection_of_a_range() {
    assert_eq!(parse_selection("1-5", 9), vec![1, 2, 3, 4, 5]);
}

#[test]
fn selection_clips_to_bounds() {
    assert_eq!(parse_selection("0-99", 4), vec![1, 2, 3, 4]);
    assert_eq!(parse_selection("7", 4), Vec::<usize>::new());
    assert_eq!(parse_selection("0", 4), Vec::<usize>::new());
}

#[test]
fn selection_dedups_and_sorts() {
    assert_eq!(parse_selection("3,1-3,2", 9), vec![1, 2, 3]);
    assert_eq!(parse_selection("5,1", 9), vec![1, 5]);
}

#[test]
fn selection_ignores_garbage() {
    assert_eq!(parse_selection("q", 9), Vec::<usize>::new());
    assert_eq!(parse_selection("", 9), Vec::<usize>::new());
    assert_eq!(parse_selection("a-b,2", 9), vec![2]);
    assert_eq!(parse_selection("1-2-3,4", 9), vec![4]);
}

#[test]
fn selection_trims_whitespace() {
    assert_eq!(parse_selection(" 2 , 4 ", 9), vec![2, 4]);
}

#[test]
fn selection_overflow_is_rejected() {
    assert_eq!(
        parse_selection("99999999999999999999999999", 9),
        Vec::<usize>::new()
    );
}

#[test]
fn patterns_skip_blank_and_comment_lines() {
    let content = String::from("target\n\n# a comment\n  \nbuild/out\n");
    let patterns = read_patterns(&content);
    assert_eq!(
        patterns,
        vec![String::from("target"), String::from("build/out")]
    );
    assert_eq!(list_patterns(&content), patterns);
}

#[test]
fn patterns_of_empty_content() {
    assert!(read_patterns(&String::from("")).is_empty());
}

#[test]
fn remove_pattern_keeps_the_rest() {
    let content = String::from("one\ntwo\nthree");
    let left = remove_pattern(&content, &String::from("two"));
    assert_eq!(left, Some(String::from("one\nthree")));
}

#[test]
fn remove_last_pattern_leaves_nothing() {
    let content = String::from("only\n");
    assert_eq!(remove_pattern(&content, &String::from("only")), None);
}

#[test]
fn remove_missing_pattern_changes_nothing() {
    let content = String::from("one\ntwo");
    let left = remove_pattern(&content, &String::from("absent"));
    assert_eq!(left, Some(String::from("one\ntwo")));
}

#[test]
fn nah_path_sits_under_the_metadata_directory() {
    assert_eq!(
        repo_nah_path(&String::from("/home/me/proj")),
        String::from("/home/me/proj/.git/nah")
    );
}

#[test]
fn ignore_messages() {
    assert_eq!(added_message("target", false), "Added 'target' to ignore list");
    assert_eq!(added_message("target", true), "Added 'target' to global ignore list");
    assert_eq!(
        removed_message("target", false),
        "Removed 'target' from ignore list"
    );
    assert_eq!(no_patterns_message(true), "No patterns in global ignore list");
}
