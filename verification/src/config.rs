//! Resolving the argument list for a configured external tool.
//!
//! The configuration maps a tool name to extra arguments and a flag that
//! replaces the tool's built-in defaults instead of appending to them.

use vstd::prelude::*;

use crate::strutil::str_eq;

verus! {

/// The configuration one tool name carries.
pub struct ToolConfig {
    /// The tool name this entry configures.
    pub name: String,
    /// Arguments the configuration adds.
    pub args: Vec<String>,
    /// When set, the built-in default arguments are dropped.
    pub replace_defaults: bool,
}

/// The loaded configuration: one entry per tool name.
pub struct Config {
    pub commands: Vec<ToolConfig>,
}

/// The first entry for a tool name, if there is one.
pub open spec fn lookup(cmds: Seq<ToolConfig>, name: Seq<char>) -> Option<ToolConfig>
    decreases cmds.len(),
{
    if cmds.len() == 0 {
        None
    } else if cmds.first().name@ == name {
        Some(cmds.first())
    } else {
        lookup(cmds.drop_first(), name)
    }
}

/// The built-in default arguments of the known tools.
pub open spec fn builtin_args(name: Seq<char>) -> Seq<Seq<char>> {
    if name == "codex"@ {
        seq!["--dangerously-bypass-approvals-and-sandbox"@]
    } else if name == "assistant"@ {
        seq!["--dangerously-skip-permissions"@]
    } else {
        Seq::empty()
    }
}

/// The argument list a tool invocation gets: built-in defaults (unless
/// the configuration replaces them), then configured arguments, then the
/// arguments given on the command line.
pub open spec fn spec_command_args(
    cmds: Seq<ToolConfig>,
    name: Seq<char>,
    extra: Seq<Seq<char>>,
) -> Seq<Seq<char>> {
    let found = lookup(cmds, name);
    let defaults = match found {
        Some(c) => if c.replace_defaults {
            Seq::<Seq<char>>::empty()
        } else {
            builtin_args(name)
        },
        None => builtin_args(name),
    };
    let configured = match found {
        Some(c) => c.args.deep_view(),
        None => Seq::<Seq<char>>::empty(),
    };
    defaults + configured + extra
}

/// The built-in default arguments of the known tools.
pub fn builtin_command_args(name: &str) -> (r: Vec<String>)
    ensures
        r.deep_view() == builtin_args(name@),
{
    if str_eq(name, "codex") {
        let r = vec![String::from_str("--dangerously-bypass-approvals-and-sandbox")];
        proof {
            assert(r.deep_view() =~= builtin_args(name@));
        }
        r
    } else if str_eq(name, "assistant") {
        let r = vec![String::from_str("--dangerously-skip-permissions")];
        proof {
            assert(r.deep_view() =~= builtin_args(name@));
        }
        r
    } else {
        let r: Vec<String> = Vec::new();
        proof {
            assert(r.deep_view() =~= builtin_args(name@));
        }
        r
    }
}

/// Appends clones of all of `src` to `dst`.
fn append_cloned(dst: &mut Vec<String>, src: &Vec<String>)
    ensures
        final(dst).deep_view() == old(dst).deep_view() + src.deep_view(),
{
    let mut i: usize = 0;
    proof {
        assert(dst.deep_view() =~= old(dst).deep_view() + src.deep_view().take(0));
    }
    while i < src.len()
        invariant
            i <= src@.len(),
            src.deep_view().len() == src@.len(),
            dst.deep_view() == old(dst).deep_view() + src.deep_view().take(i as int),
        decreases src@.len() - i,
    {
        let ghost pre = dst.deep_view();
        let s = src[i].clone();
        dst.push(s);
        proof {
            assert(dst.deep_view() =~= pre.push(src.deep_view()[i as int]));
            assert(pre.push(src.deep_view()[i as int]) =~= old(dst).deep_view()
                + src.deep_view().take(i + 1));
        }
        i += 1;
    }
    proof {
        assert(src.deep_view().take(src@.len() as int) =~= src.deep_view());
    }
}

impl Config {
    /// A configuration with no entries.
    pub fn new() -> (r: Config)
        ensures
            r.commands@ =~= Seq::<ToolConfig>::empty(),
    {
        Config { commands: Vec::new() }
    }

    fn find(&self, name: &str) -> (r: Option<&ToolConfig>)
        ensures
            match r {
                Some(c) => lookup(self.commands@, name@) == Some(*c),
                None => lookup(self.commands@, name@) is None,
            },
    {
        let mut i: usize = 0;
        proof {
            assert(self.commands@.skip(0) =~= self.commands@);
        }
        while i < self.commands.len()
            invariant
                i <= self.commands@.len(),
                lookup(self.commands@, name@) == lookup(
                    self.commands@.skip(i as int),
                    name@,
                ),
        decreases self.commands@.len() - i,
        {
            proof {
                let t = self.commands@.skip(i as int);
                assert(t.first() == self.commands@[i as int]);
                assert(t.drop_first() =~= self.commands@.skip(i + 1));
            }
            if str_eq(self.commands[i].name.as_str(), name) {
                return Some(&self.commands[i]);
            }
            i += 1;
        }
        proof {
            assert(self.commands@.skip(self.commands@.len() as int).len() == 0);
        }
        None
    }

    /// Resolves the argument list for a tool invocation.
    pub fn command_args(&self, name: &str, extra: Vec<String>) -> (r: Vec<String>)
        ensures
            r.deep_view() == spec_command_args(self.commands@, name@, extra.deep_view()),
    {
        let mut args: Vec<String> = Vec::new();
        let found = self.find(name);
        let replace_defaults = match found {
            Some(c) => c.replace_defaults,
            None => false,
        };
        proof {
            assert(args.deep_view() =~= Seq::<Seq<char>>::empty());
        }
        if !replace_defaults {
            let builtin = builtin_command_args(name);
            append_cloned(&mut args, &builtin);
            proof {
                assert(args.deep_view() =~= builtin_args(name@));
            }
        }
        match found {
            Some(c) => {
                append_cloned(&mut args, &c.args);
            },
            None => {},
        }
        let ghost before_extra = args.deep_view();
        let mut extra = extra;
        let ghost extra_view = extra.deep_view();
        args.append(&mut extra);
        proof {
            assert(args.deep_view() =~= before_extra + extra_view);
            assert(args.deep_view() =~= spec_command_args(
                self.commands@,
                name@,
                extra_view,
            ));
        }
        args
    }
}

/// The text `init` writes when no configuration file exists yet.
pub open spec fn default_config_text() -> Seq<char> {
    "# ~/.worktree/config.toml\n#\n# If a tool has baked-in defaults, your args are appended by default. To replace\n# the baked-in defaults entirely, set `replace_defaults = true`.\n\n[commands.codex]\n# Built-in defaults:\n#   [\"--dangerously-bypass-approvals-and-sandbox\"]\nargs = []\n\n[commands.assistant]\n# Built-in defaults:\n#   [\"--dangerously-skip-permissions\"]\nargs = []\n"@
}

/// The default configuration file contents.
pub fn default_config_contents() -> (r: &'static str)
    ensures
        r@ == default_config_text(),
{
    "# ~/.worktree/config.toml\n#\n# If a tool has baked-in defaults, your args are appended by default. To replace\n# the baked-in defaults entirely, set `replace_defaults = true`.\n\n[commands.codex]\n# Built-in defaults:\n#   [\"--dangerously-bypass-approvals-and-sandbox\"]\nargs = []\n\n[commands.assistant]\n# Built-in defaults:\n#   [\"--dangerously-skip-permissions\"]\nargs = []\n"
}

} // verus!
