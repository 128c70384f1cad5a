use acs::version::{format_source, short_commit};

#[test]
fn format_source_omits_duplicate_branch_ref() {
    assert_eq!(
        format_source("local-commit", "main", "main"),
        "source local-commit"
    );
}

#[test]
fn format_source_keeps_distinct_ref() {
    assert_eq!(
        format_source("remote-tag", "v0.1.0", "detached"),
        "source remote-tag v0.1.0"
    );
}

#[test]
fn short_commit_limits_to_twelve_chars() {
    assert_eq!(short_commit("1234567890abcdef"), "1234567890ab");
    assert_eq!(short_commit("1234567"), "1234567");
}
