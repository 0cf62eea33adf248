use gixkit::StatusOptions;
use gixkit::UntrackedFilter;

#[test]
fn default_untracked_filter_is_normal() {
    assert!(matches!(UntrackedFilter::default(), UntrackedFilter::Normal));
}

#[test]
fn default_status_options() {
    let o = StatusOptions::default();
    assert!(matches!(o.untracked, UntrackedFilter::Normal));
    assert!(!o.show_ignored);
    assert!(!o.recurse_submodules);
}
