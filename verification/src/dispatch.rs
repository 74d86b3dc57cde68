//! Mapping a parsed command line to the one operation to perform.
//!
//! The surrounding program parses arguments and loads configuration;
//! these functions decide which operation runs and which external
//! command, if any, runs inside the worktree.

use vstd::prelude::*;

use crate::config::Config;
use crate::config::ToolConfig;
use crate::config::spec_command_args;
use crate::repo::CommandSpec;
use crate::repo::command_from_tail;

verus! {

/// `create`'s arguments: an optional name, and trailing words naming a
/// command to run instead of a shell.
pub struct CreateArgs {
    pub name: Option<String>,
    pub tail: Vec<String>,
}

/// `switch`'s argument: the worktree name.
pub struct SwitchArgs {
    pub name: String,
}

/// A tool subcommand's `create` arguments: an optional name and extra
/// arguments for the tool.
pub struct ToolCreateArgs {
    pub name: Option<String>,
    pub extra: Vec<String>,
}

/// A tool subcommand's `switch` arguments.
pub struct ToolSwitchArgs {
    pub name: String,
    pub extra: Vec<String>,
}

/// What a tool subcommand does: create a worktree or enter an existing
/// one, running the tool inside it.
pub enum ToolCommand {
    Create(ToolCreateArgs),
    Switch(ToolSwitchArgs),
}

/// The tool's subcommands.
pub enum Commands {
    Create(CreateArgs),
    Switch(SwitchArgs),
    Codex(ToolCommand),
    Assistant(ToolCommand),
    List,
    Clear,
    Init,
}

/// The operation one invocation performs.
#[allow(inconsistent_fields)]
pub enum Action {
    Create { name: Option<String>, command: Option<CommandSpec> },
    Switch { name: String, command: Option<CommandSpec> },
    List,
    Clear,
    Init,
}

/// How a tool subcommand maps to an action: the same create or switch,
/// with the tool as the command and its arguments resolved from the
/// configuration.
pub open spec fn tool_action(
    r: Action,
    tool: Seq<char>,
    cmd: ToolCommand,
    cfg: Seq<ToolConfig>,
) -> bool {
    match cmd {
        ToolCommand::Create(a) => r matches Action::Create { name, command } && name == a.name && (
        command matches Some(cs) && cs.program@ == tool && cs.args.deep_view()
            == spec_command_args(cfg, tool, a.extra.deep_view())),
        ToolCommand::Switch(a) => r matches Action::Switch { name, command } && name == a.name && (
        command matches Some(cs) && cs.program@ == tool && cs.args.deep_view()
            == spec_command_args(cfg, tool, a.extra.deep_view())),
    }
}

/// Builds the action for a tool subcommand.
pub fn run_tool(name: &str, command: ToolCommand, config: &Config) -> (r: Action)
    ensures
        tool_action(r, name@, command, config.commands@),
{
    match command {
        ToolCommand::Create(args) => {
            let spec = CommandSpec {
                program: String::from_str(name),
                args: config.command_args(name, args.extra),
            };
            Action::Create { name: args.name, command: Some(spec) }
        },
        ToolCommand::Switch(args) => {
            let spec = CommandSpec {
                program: String::from_str(name),
                args: config.command_args(name, args.extra),
            };
            Action::Switch { name: args.name, command: Some(spec) }
        },
    }
}

/// Decides what one invocation does: each subcommand maps to its
/// operation, `create`'s trailing words become its command, and the tool
/// subcommands run their tool with configured arguments.
pub fn run(cli: Commands, config: &Config) -> (r: Action)
    ensures
        match cli {
            Commands::Create(a) => r matches Action::Create { name, command } && name == a.name
                && command_from_tail(command, a.tail@),
            Commands::Switch(a) => r matches Action::Switch { name, command } && name == a.name
                && command is None,
            Commands::Codex(cmd) => tool_action(r, "codex"@, cmd, config.commands@),
            Commands::Assistant(cmd) => tool_action(r, "assistant"@, cmd, config.commands@),
            Commands::List => r is List,
            Commands::Clear => r is Clear,
            Commands::Init => r is Init,
        },
{
    match cli {
        Commands::Create(args) => {
            let command = CommandSpec::from_tail(args.tail);
            Action::Create { name: args.name, command }
        },
        Commands::Switch(args) => Action::Switch { name: args.name, command: None },
        Commands::Codex(cmd) => run_tool("codex", cmd, config),
        Commands::Assistant(cmd) => run_tool("assistant", cmd, config),
        Commands::List => Action::List,
        Commands::Clear => Action::Clear,
        Commands::Init => Action::Init,
    }
}

} // verus!
