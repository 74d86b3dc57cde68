use worktree::config::Config;
use worktree::config::ToolConfig;
use worktree::config::builtin_command_args;
use worktree::config::default_config_contents;
use worktree::dispatch::Action;
use worktree::dispatch::Commands;
use worktree::dispatch::CreateArgs;
use worktree::dispatch::SwitchArgs;
use worktree::dispatch::ToolCommand;
use worktree::dispatch::ToolCreateArgs;
use worktree::dispatch::ToolSwitchArgs;
use worktree::dispatch::run;
use worktree::errors::WtError;
use worktree::listing::sorted_names;
use worktree::repo::CommandSpec;
use worktree::repo::Repo;
use worktree::repo::propagated_exit_code;

fn strings(v: &[&str]) -> Vec<String> {
    v.iter().map(|s| String::from(*s)).collect()
}

fn test_repo() -> Repo {
    Repo {
        root: String::from("/repo"),
        git_common_dir: String::from("/repo/.git"),
        worktrees_dir: String::from("/repo/.worktrees"),
    }
}

#[test]
fn discover_derives_root_and_managed_dir() {
    let repo = Repo::from_git_common_dir(String::from("/repo/.git")).unwrap();
    assert_eq!(repo.root, "/repo");
    assert_eq!(repo.git_common_dir, "/repo/.git");
    assert_eq!(repo.worktrees_dir, "/repo/.worktrees");
}

#[test]
fn discover_fails_without_parent() {
    assert!(Repo::from_git_common_dir(String::from("/")).is_none());
    assert!(Repo::from_git_common_dir(String::from("git")).is_none());
}

#[test]
fn create_and_switch_resolve_the_same_path() {
    let repo = test_repo();
    let created = repo.check_create_target("feature", false, false).unwrap();
    let switched = repo.switch_worktree("feature", true).unwrap();
    assert_eq!(created, "/repo/.worktrees/feature");
    assert_eq!(created, switched);
}

#[test]
fn create_refuses_existing_directory() {
    let repo = test_repo();
    let err = repo.check_create_target("feature", true, true).unwrap_err();
    assert_eq!(err.message(), "worktree 'feature' already exists");
}

#[test]
fn create_refuses_non_directory_target() {
    let repo = test_repo();
    let err = repo.check_create_target("feature", true, false).unwrap_err();
    assert_eq!(
        err.message(),
        "worktree path exists and is not a directory: /repo/.worktrees/feature"
    );
}

#[test]
fn switch_refuses_missing_worktree() {
    let repo = test_repo();
    let err = repo.switch_worktree("dne", false).unwrap_err();
    assert_eq!(err.message(), "worktree 'dne' does not exist");
}

#[test]
fn switch_validates_before_looking() {
    let repo = test_repo();
    let err = repo.switch_worktree("../evil", true).unwrap_err();
    assert_eq!(err.message(), "invalid worktree name '../evil'");
}

#[test]
fn resolve_name_validates_given_name() {
    let repo = test_repo();
    let existing = strings(&["0-wt"]);
    let ok = repo.resolve_create_name(Some(String::from("feature")), &existing);
    assert_eq!(ok.unwrap(), "feature");
    let err = repo.resolve_create_name(Some(String::from("a/b")), &existing);
    assert!(err.is_err());
}

#[test]
fn resolve_name_generates_default() {
    let repo = test_repo();
    let existing = strings(&["0-wt", "2-wt"]);
    assert_eq!(repo.resolve_create_name(None, &existing).unwrap(), "3-wt");
}

#[test]
fn clear_selects_only_managed_worktrees() {
    let repo = test_repo();
    let listed = strings(&[
        "/repo",
        "/repo/.worktrees/one",
        "/elsewhere/foreign",
        "/repo/.worktreesX/nope",
        "/repo/.worktrees/two",
    ]);
    let managed = repo.managed_worktrees(&listed);
    assert_eq!(managed, strings(&["/repo/.worktrees/one", "/repo/.worktrees/two"]));
}

#[test]
fn clear_bookkeeping_dirs_are_under_metadata() {
    let repo = test_repo();
    assert_eq!(
        repo.bookkeeping_dirs(),
        strings(&[
            "/repo/.git/worktrees",
            "/repo/.git/refs/worktree",
            "/repo/.git/logs/refs/worktree"
        ])
    );
}

#[test]
fn listing_is_sorted() {
    assert_eq!(sorted_names(strings(&["b", "a"])), strings(&["a", "b"]));
    assert_eq!(sorted_names(strings(&[])), strings(&[]));
    assert_eq!(
        sorted_names(strings(&["2-wt", "10-wt", "1-wt"])),
        strings(&["1-wt", "10-wt", "2-wt"])
    );
}

#[test]
fn listing_sorting_is_idempotent() {
    let once = sorted_names(strings(&["c", "a", "b", "a"]));
    let twice = sorted_names(once.clone());
    assert_eq!(once, twice);
    assert_eq!(once, strings(&["a", "a", "b", "c"]));
}

#[test]
fn command_spec_from_tail() {
    assert!(CommandSpec::from_tail(strings(&[])).is_none());
    let spec = CommandSpec::from_tail(strings(&["echo", "hi", "there"])).unwrap();
    assert_eq!(spec.program, "echo");
    assert_eq!(spec.args, strings(&["hi", "there"]));
}

#[test]
fn child_exit_codes_are_propagated() {
    assert_eq!(propagated_exit_code(false, Some(42)), Some(42));
    assert_eq!(propagated_exit_code(false, None), Some(1));
    assert_eq!(propagated_exit_code(true, Some(0)), None);
    assert_eq!(propagated_exit_code(true, None), None);
}

#[test]
fn backend_failure_message_is_verbatim() {
    let err = WtError::BackendFailure(String::from("fatal: bad object"));
    assert_eq!(err.message(), "fatal: bad object");
}

#[test]
fn builtin_defaults_per_tool() {
    assert_eq!(
        builtin_command_args("codex"),
        strings(&["--dangerously-bypass-approvals-and-sandbox"])
    );
    assert_eq!(builtin_command_args("assistant"), strings(&["--dangerously-skip-permissions"]));
    assert_eq!(builtin_command_args("other"), strings(&[]));
}

#[test]
fn command_args_appends_by_default() {
    let config = Config {
        commands: vec![ToolConfig {
            name: String::from("codex"),
            args: strings(&["--model", "fast"]),
            replace_defaults: false,
        }],
    };
    assert_eq!(
        config.command_args("codex", strings(&["extra"])),
        strings(&["--dangerously-bypass-approvals-and-sandbox", "--model", "fast", "extra"])
    );
}

#[test]
fn command_args_can_replace_defaults() {
    let config = Config {
        commands: vec![ToolConfig {
            name: String::from("codex"),
            args: strings(&["--plain"]),
            replace_defaults: true,
        }],
    };
    assert_eq!(config.command_args("codex", strings(&[])), strings(&["--plain"]));
}

#[test]
fn command_args_without_configuration() {
    let config = Config::new();
    assert_eq!(
        config.command_args("assistant", strings(&["-p", "hi"])),
        strings(&["--dangerously-skip-permissions", "-p", "hi"])
    );
    assert_eq!(config.command_args("other", strings(&["x"])), strings(&["x"]));
}

#[test]
fn default_config_mentions_both_tools() {
    let text = default_config_contents();
    assert!(text.starts_with("# ~/.worktree/config.toml"));
    assert!(text.contains("[commands.codex]"));
    assert!(text.contains("[commands.assistant]"));
    assert!(text.contains("--dangerously-bypass-approvals-and-sandbox"));
    assert!(text.contains("--dangerously-skip-permissions"));
    assert!(text.contains("replace_defaults = true"));
}

#[test]
fn run_create_takes_trailing_command() {
    let config = Config::new();
    let cli = Commands::Create(CreateArgs {
        name: Some(String::from("feature")),
        tail: strings(&["make", "check"]),
    });
    match run(cli, &config) {
        Action::Create { name, command } => {
            assert_eq!(name.as_deref(), Some("feature"));
            let command = command.unwrap();
            assert_eq!(command.program, "make");
            assert_eq!(command.args, strings(&["check"]));
        },
        _ => panic!("wrong action"),
    }
}

#[test]
fn run_switch_has_no_command() {
    let config = Config::new();
    let cli = Commands::Switch(SwitchArgs { name: String::from("feature") });
    match run(cli, &config) {
        Action::Switch { name, command } => {
            assert_eq!(name, "feature");
            assert!(command.is_none());
        },
        _ => panic!("wrong action"),
    }
}

#[test]
fn run_codex_create_uses_defaults() {
    let config = Config::new();
    let cli = Commands::Codex(ToolCommand::Create(ToolCreateArgs {
        name: None,
        extra: strings(&["--task", "demo"]),
    }));
    match run(cli, &config) {
        Action::Create { name, command } => {
            assert!(name.is_none());
            let command = command.unwrap();
            assert_eq!(command.program, "codex");
            assert_eq!(
                command.args,
                strings(&["--dangerously-bypass-approvals-and-sandbox", "--task", "demo"])
            );
        },
        _ => panic!("wrong action"),
    }
}

#[test]
fn run_assistant_switch_uses_defaults() {
    let config = Config::new();
    let cli = Commands::Assistant(ToolCommand::Switch(ToolSwitchArgs {
        name: String::from("feature"),
        extra: strings(&[]),
    }));
    match run(cli, &config) {
        Action::Switch { name, command } => {
            assert_eq!(name, "feature");
            let command = command.unwrap();
            assert_eq!(command.program, "assistant");
            assert_eq!(command.args, strings(&["--dangerously-skip-permissions"]));
        },
        _ => panic!("wrong action"),
    }
}

#[test]
fn run_plain_subcommands() {
    let config = Config::new();
    assert!(matches!(run(Commands::List, &config), Action::List));
    assert!(matches!(run(Commands::Clear, &config), Action::Clear));
    assert!(matches!(run(Commands::Init, &config), Action::Init));
}
