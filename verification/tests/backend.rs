use worktree::gitout::parse_worktree_list;
use worktree::paths::config_path;
use worktree::paths::display_path;
use worktree::paths::join_path;
use worktree::paths::parent_dir;
use worktree::retry::RetryDecision;
use worktree::retry::RetryState;
use worktree::retry::add_failure_error;
use worktree::retry::is_git_lock_error;
use worktree::retry::remove_failure_error;
use worktree::strutil::str_le;
use worktree::strutil::trim_str;

fn strings(v: &[&str]) -> Vec<String> {
    v.iter().map(|s| String::from(*s)).collect()
}

#[test]
fn lock_contention_signatures_match() {
    assert!(is_git_lock_error(
        "fatal: Unable to create '/repo/.git/index.lock': File exists."
    ));
    assert!(is_git_lock_error("Another git process seems to be running in this repository"));
    assert!(is_git_lock_error("error: could not write new index file"));
    assert!(is_git_lock_error("fatal: unable to create lock file under .git"));
}

#[test]
fn other_failures_do_not_match() {
    assert!(!is_git_lock_error("fatal: not a git repository"));
    assert!(!is_git_lock_error("unable to create directory; lock free"));
    assert!(!is_git_lock_error(""));
}

#[test]
fn matching_is_case_insensitive() {
    assert!(is_git_lock_error("FATAL: INDEX.LOCK EXISTS"));
    assert!(is_git_lock_error("Could Not Write New Index File"));
}

#[test]
fn retry_backoff_doubles_to_a_cap() {
    let mut st = RetryState::new();
    let contended = "fatal: Unable to create '/repo/.git/index.lock': File exists.";
    let mut delays = Vec::new();
    for _ in 0..6 {
        match st.decide(contended, 0) {
            RetryDecision::Retry(d) => delays.push(d),
            RetryDecision::GiveUp => panic!("should retry"),
        }
    }
    assert_eq!(delays, vec![30, 60, 120, 240, 480, 500]);
}

#[test]
fn retry_stops_at_the_deadline() {
    let mut st = RetryState::new();
    let contended = "fatal: Unable to create '/repo/.git/index.lock': File exists.";
    assert!(matches!(st.decide(contended, 2999), RetryDecision::Retry(30)));
    assert!(matches!(st.decide(contended, 3000), RetryDecision::GiveUp));
}

#[test]
fn retry_refuses_non_transient_failures() {
    let mut st = RetryState::new();
    assert!(matches!(st.decide("fatal: not a git repository", 0), RetryDecision::GiveUp));
}

#[test]
fn backend_error_messages_carry_diagnostics() {
    assert_eq!(add_failure_error("  \n").message(), "git worktree add failed");
    assert_eq!(
        add_failure_error("fatal: bad ref\n").message(),
        "git worktree add failed: fatal: bad ref"
    );
    assert_eq!(
        remove_failure_error("/repo/.worktrees/one", "").message(),
        "git worktree remove failed for /repo/.worktrees/one"
    );
    assert_eq!(
        remove_failure_error("/repo/.worktrees/one", " locked \n").message(),
        "git worktree remove failed for /repo/.worktrees/one: locked"
    );
}

#[test]
fn worktree_listing_is_parsed() {
    let output = "worktree /repo\nHEAD 0123abc\nbranch refs/heads/main\n\nworktree /repo/.worktrees/one\nHEAD 4567def\ndetached\n";
    assert_eq!(
        parse_worktree_list(output, "/repo"),
        strings(&["/repo", "/repo/.worktrees/one"])
    );
}

#[test]
fn relative_listed_paths_are_anchored_at_the_root() {
    let output = "worktree sub/dir\n";
    assert_eq!(parse_worktree_list(output, "/repo"), strings(&["/repo/sub/dir"]));
}

#[test]
fn listing_tolerates_blank_and_foreign_lines() {
    let output = "worktree   \nbare\nworktreeish /x\n\nworktree /a";
    assert_eq!(parse_worktree_list(output, "/repo"), strings(&["/a"]));
}

#[test]
fn listing_handles_crlf_lines() {
    let output = "worktree /a\r\nworktree /b\r\n";
    assert_eq!(parse_worktree_list(output, "/repo"), strings(&["/a", "/b"]));
}

#[test]
fn empty_listing_has_no_paths() {
    assert_eq!(parse_worktree_list("", "/repo"), strings(&[]));
}

#[test]
fn parents_of_absolute_paths() {
    assert_eq!(parent_dir("/repo/.git"), Some(String::from("/repo")));
    assert_eq!(parent_dir("/repo"), Some(String::from("/")));
    assert_eq!(parent_dir("/"), None);
    assert_eq!(parent_dir("plain"), None);
}

#[test]
fn joining_appends_one_component() {
    assert_eq!(join_path("/repo/.worktrees", "feature"), "/repo/.worktrees/feature");
}

#[test]
fn config_path_lies_under_home() {
    assert_eq!(config_path("/home/dev"), "/home/dev/.worktree/config.toml");
}

#[test]
fn display_path_shortens_the_home_prefix() {
    assert_eq!(display_path("/home/dev/.worktree/config.toml", "/home/dev"), "~/.worktree/config.toml");
    assert_eq!(display_path("/home/dev", "/home/dev"), "~");
    assert_eq!(display_path("/home/devious/file", "/home/dev"), "/home/devious/file");
    assert_eq!(display_path("/etc/config", "/home/dev"), "/etc/config");
}

#[test]
fn trimming_strips_ascii_whitespace() {
    assert_eq!(trim_str("  /a/b \t\r\n"), "/a/b");
    assert_eq!(trim_str(""), "");
    assert_eq!(trim_str(" \t "), "");
    assert_eq!(trim_str("x"), "x");
}

#[test]
fn lexicographic_order_is_by_code_point() {
    assert!(str_le("a", "b"));
    assert!(str_le("a", "a"));
    assert!(!str_le("b", "a"));
    assert!(str_le("10-wt", "2-wt"));
    assert!(str_le("", "a"));
    assert!(str_le("ab", "abc"));
    assert!(!str_le("abc", "ab"));
}
