use worktree::names::next_worktree_name;
use worktree::names::parse_digits;
use worktree::names::usize_to_string;
use worktree::names::validate_worktree_name;
use worktree::names::worktree_index;

fn names(v: &[&str]) -> Vec<String> {
    v.iter().map(|s| String::from(*s)).collect()
}

#[test]
fn valid_plain_names_are_accepted() {
    assert!(validate_worktree_name("feature").is_ok());
    assert!(validate_worktree_name("work-1").is_ok());
    assert!(validate_worktree_name("0-wt").is_ok());
    assert!(validate_worktree_name("A").is_ok());
}

#[test]
fn names_with_separators_are_rejected() {
    assert!(validate_worktree_name("a/b").is_err());
    assert!(validate_worktree_name("../x").is_err());
    assert!(validate_worktree_name("x/").is_err());
    assert!(validate_worktree_name("/x").is_err());
}

#[test]
fn special_names_are_rejected() {
    assert!(validate_worktree_name("").is_err());
    assert!(validate_worktree_name(".").is_err());
    assert!(validate_worktree_name("..").is_err());
}

#[test]
fn invalid_name_error_message() {
    let err = validate_worktree_name("a/b").unwrap_err();
    assert_eq!(err.message(), "invalid worktree name 'a/b'");
}

#[test]
fn worktree_index_reads_both_suffixes() {
    assert_eq!(worktree_index("0-wt"), Some(0));
    assert_eq!(worktree_index("12-wt"), Some(12));
    assert_eq!(worktree_index("3-worktree"), Some(3));
    assert_eq!(worktree_index("007-wt"), Some(7));
}

#[test]
fn worktree_index_rejects_other_names() {
    assert_eq!(worktree_index("feature"), None);
    assert_eq!(worktree_index("x-wt"), None);
    assert_eq!(worktree_index("-wt"), None);
    assert_eq!(worktree_index("-worktree"), None);
    assert_eq!(worktree_index("5-worktrees"), None);
    assert_eq!(worktree_index("wt-5"), None);
    assert_eq!(worktree_index("18446744073709551616-wt"), None);
}

#[test]
fn next_name_on_empty_directory() {
    assert_eq!(next_worktree_name(&names(&[])), "0-wt");
    assert_eq!(next_worktree_name(&names(&["feature", "other"])), "0-wt");
}

#[test]
fn next_name_is_monotonic() {
    assert_eq!(next_worktree_name(&names(&["0-wt", "1-wt"])), "2-wt");
}

#[test]
fn next_name_is_gap_aware() {
    assert_eq!(next_worktree_name(&names(&["0-wt", "2-wt"])), "3-wt");
}

#[test]
fn next_name_counts_legacy_suffix() {
    assert_eq!(next_worktree_name(&names(&["1-worktree"])), "2-wt");
    assert_eq!(next_worktree_name(&names(&["1-worktree", "3-wt"])), "4-wt");
}

#[test]
fn next_name_ignores_non_matching_entries() {
    assert_eq!(next_worktree_name(&names(&["5-wt", "feature", "zz"])), "6-wt");
}

#[test]
fn generated_name_is_never_taken() {
    let existing = names(&["0-wt", "1-wt", "7-wt", "feature", "2-worktree"]);
    let next = next_worktree_name(&existing);
    assert!(!existing.contains(&next));
    assert_eq!(next, "8-wt");
}

#[test]
fn decimal_formatting_is_exact() {
    assert_eq!(usize_to_string(0), "0");
    assert_eq!(usize_to_string(7), "7");
    assert_eq!(usize_to_string(10), "10");
    assert_eq!(usize_to_string(409), "409");
    assert_eq!(usize_to_string(usize::MAX), format!("{}", usize::MAX));
}

#[test]
fn digit_parsing_is_exact() {
    assert_eq!(parse_digits("0"), Some(0));
    assert_eq!(parse_digits("409"), Some(409));
    assert_eq!(parse_digits("007"), Some(7));
    assert_eq!(parse_digits(""), None);
    assert_eq!(parse_digits("4a"), None);
    assert_eq!(parse_digits("-4"), None);
    assert_eq!(parse_digits("+4"), None);
    assert_eq!(parse_digits("18446744073709551615"), Some(usize::MAX));
    assert_eq!(parse_digits("18446744073709551616"), None);
}
