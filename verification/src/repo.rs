//! The worktree lifecycle manager's decisions: where the managed
//! directory lies, which path a name resolves to, when create and switch
//! are allowed, and which registered worktrees `clear` may touch.
//!
//! Everything here is pure planning over plain values; running the
//! backend, the file lock and the filesystem happens outside and feeds
//! the results back in.

use vstd::prelude::*;

use crate::errors::WtError;
use crate::names::max_wt_index;
use crate::names::next_name;
use crate::names::next_worktree_name;
use crate::names::valid_name;
use crate::names::validate_worktree_name;
use crate::paths::join_path;
use crate::paths::joined;
use crate::paths::parent_dir;
use crate::paths::parent_of;
use crate::paths::path_under;

verus! {

/// One repository: its primary working directory, its shared metadata
/// directory, and the directory the managed worktrees live in.
pub struct Repo {
    pub root: String,
    pub git_common_dir: String,
    pub worktrees_dir: String,
}

/// An external command to run inside a worktree in place of a shell.
pub struct CommandSpec {
    pub program: String,
    pub args: Vec<String>,
}

/// How an `Option<CommandSpec>` relates to the trailing words it was
/// built from: the first word names the program, the rest are arguments,
/// and no words mean no command.
pub open spec fn command_from_tail(c: Option<CommandSpec>, tail: Seq<String>) -> bool {
    match c {
        Some(cs) => tail.len() > 0 && cs.program == tail[0] && cs.args@ == tail.skip(1),
        None => tail.len() == 0,
    }
}

impl CommandSpec {
    /// Splits the trailing words of the command line into a command.
    pub fn from_tail(tail: Vec<String>) -> (r: Option<CommandSpec>)
        ensures
            command_from_tail(r, tail@),
    {
        if tail.is_empty() {
            return None;
        }
        let mut tail = tail;
        let program = tail.remove(0);
        Some(CommandSpec { program, args: tail })
    }
}

/// The filter `clear` applies: lying under the managed directory.
pub open spec fn managed_pred(dir: Seq<char>) -> spec_fn(Seq<char>) -> bool {
    |p: Seq<char>| path_under(p, dir)
}

impl Repo {
    /// The three paths agree: the root is the metadata directory's
    /// parent, and the managed directory is `.worktrees` under the root.
    pub open spec fn wf(&self) -> bool {
        &&& parent_of(self.git_common_dir@) == Some(self.root@)
        &&& self.worktrees_dir@ == joined(self.root@, ".worktrees"@)
    }

    /// Forms the repository from the shared metadata directory the
    /// backend reported; fails only when that path has no parent.
    pub fn from_git_common_dir(git_common_dir: String) -> (r: Option<Repo>)
        ensures
            match r {
                Some(repo) => {
                    &&& repo.wf()
                    &&& repo.git_common_dir@ == git_common_dir@
                    &&& parent_of(git_common_dir@) == Some(repo.root@)
                },
                None => parent_of(git_common_dir@) is None,
            },
    {
        match parent_dir(git_common_dir.as_str()) {
            Some(root) => {
                let worktrees_dir = join_path(root.as_str(), ".worktrees");
                Some(Repo { root, git_common_dir, worktrees_dir })
            },
            None => None,
        }
    }

    /// The path a worktree name resolves to.
    pub open spec fn spec_worktree_path(&self, name: Seq<char>) -> Seq<char> {
        joined(self.worktrees_dir@, name)
    }

    /// Resolves a worktree name to its path under the managed directory.
    pub fn worktree_path(&self, name: &str) -> (r: String)
        ensures
            r@ == self.spec_worktree_path(name@),
    {
        join_path(self.worktrees_dir.as_str(), name)
    }

    /// The path of the lock file that serializes create and clear.
    pub fn lock_path(&self) -> (r: String)
        ensures
            r@ == joined(self.git_common_dir@, "worktree-tool.lock"@),
    {
        join_path(self.git_common_dir.as_str(), "worktree-tool.lock")
    }

    /// Resolves the name a new worktree gets: a given name must be
    /// valid, no name means the next default name generated from the
    /// names already present in the managed directory.
    pub fn resolve_create_name(&self, name: Option<String>, existing: &Vec<String>) -> (r: Result<
        String,
        WtError,
    >)
        requires
            match max_wt_index(existing.deep_view()) {
                Some(m) => m < usize::MAX as int,
                None => true,
            },
        ensures
            match r {
                Ok(n) => match name {
                    Some(given) => n@ == given@ && valid_name(given@),
                    None => n@ == next_name(existing.deep_view()),
                },
                Err(e) => match name {
                    Some(given) => !valid_name(given@) && (e matches WtError::InvalidName(m) && m@
                        == given@),
                    None => false,
                },
            },
    {
        match name {
            Some(given) => match validate_worktree_name(given.as_str()) {
                Ok(()) => Ok(given),
                Err(e) => Err(e),
            },
            None => Ok(next_worktree_name(existing)),
        }
    }

    /// The existence check before creation: a target that already exists
    /// refuses the create, as a directory with "already exists", as
    /// anything else with "not a directory". Only a free target yields
    /// the path to hand to the backend.
    pub fn check_create_target(&self, name: &str, dest_exists: bool, dest_is_dir: bool) -> (r:
        Result<String, WtError>)
        ensures
            r is Ok <==> !dest_exists,
            r matches Ok(p) ==> p@ == self.spec_worktree_path(name@),
            dest_exists && dest_is_dir ==> (r matches Err(WtError::AlreadyExists(n)) && n@
                == name@),
            dest_exists && !dest_is_dir ==> (r matches Err(WtError::NotADirectory(p)) && p@
                == self.spec_worktree_path(name@)),
    {
        let dest = self.worktree_path(name);
        if dest_exists {
            if dest_is_dir {
                Err(WtError::AlreadyExists(String::from_str(name)))
            } else {
                Err(WtError::NotADirectory(dest))
            }
        } else {
            Ok(dest)
        }
    }

    /// Where `switch` goes: a valid name whose directory exists resolves
    /// to its path; an invalid name is refused, a missing directory does
    /// not exist. `dest_is_dir` reports whether the resolved path is an
    /// existing directory.
    pub fn switch_worktree(&self, name: &str, dest_is_dir: bool) -> (r: Result<String, WtError>)
        ensures
            r is Ok <==> valid_name(name@) && dest_is_dir,
            r matches Ok(p) ==> p@ == self.spec_worktree_path(name@),
            !valid_name(name@) ==> (r matches Err(WtError::InvalidName(n)) && n@ == name@),
            valid_name(name@) && !dest_is_dir ==> (r matches Err(WtError::DoesNotExist(n)) && n@
                == name@),
    {
        match validate_worktree_name(name) {
            Ok(()) => {
                if dest_is_dir {
                    Ok(self.worktree_path(name))
                } else {
                    Err(WtError::DoesNotExist(String::from_str(name)))
                }
            },
            Err(e) => Err(e),
        }
    }

    /// The worktrees `clear` removes: exactly the backend-registered
    /// paths that lie under the managed directory, in the order the
    /// backend listed them. Worktrees registered elsewhere are left
    /// untouched.
    pub fn managed_worktrees(&self, paths: &Vec<String>) -> (r: Vec<String>)
        ensures
            r.deep_view() == paths.deep_view().filter(managed_pred(self.worktrees_dir@)),
    {
        let ghost pred = managed_pred(self.worktrees_dir@);
        let mut r: Vec<String> = Vec::new();
        let mut i: usize = 0;
        proof {
            reveal(Seq::filter);
            assert(paths.deep_view().take(0) =~= Seq::<Seq<char>>::empty());
            assert(r.deep_view() =~= paths.deep_view().take(0).filter(pred));
        }
        while i < paths.len()
            invariant
                i <= paths@.len(),
                paths.deep_view().len() == paths@.len(),
                r.deep_view() == paths.deep_view().take(i as int).filter(
                    managed_pred(self.worktrees_dir@),
                ),
            decreases paths@.len() - i,
        {
            let ghost pre = r.deep_view();
            let ghost dv = paths.deep_view();
            proof {
                reveal(Seq::filter);
                assert(dv.take(i + 1).drop_last() =~= dv.take(i as int));
                assert(dv.take(i + 1).last() == dv[i as int]);
            }
            if crate::paths::is_path_under(paths[i].as_str(), self.worktrees_dir.as_str()) {
                let p = paths[i].clone();
                r.push(p);
                proof {
                    assert(r.deep_view() =~= pre.push(dv[i as int]));
                }
            }
            i += 1;
        }
        proof {
            assert(paths.deep_view().take(paths@.len() as int) =~= paths.deep_view());
        }
        r
    }

    /// The backend bookkeeping directories `clear` removes when they are
    /// left empty, under the shared metadata directory.
    pub fn bookkeeping_dirs(&self) -> (r: Vec<String>)
        ensures
            r.deep_view() =~= seq![
                joined(self.git_common_dir@, "worktrees"@),
                joined(self.git_common_dir@, "refs/worktree"@),
                joined(self.git_common_dir@, "logs/refs/worktree"@),
            ],
    {
        let mut r: Vec<String> = Vec::new();
        r.push(join_path(self.git_common_dir.as_str(), "worktrees"));
        r.push(join_path(self.git_common_dir.as_str(), "refs/worktree"));
        r.push(join_path(self.git_common_dir.as_str(), "logs/refs/worktree"));
        proof {
            assert(r.deep_view() =~= seq![
                joined(self.git_common_dir@, "worktrees"@),
                joined(self.git_common_dir@, "refs/worktree"@),
                joined(self.git_common_dir@, "logs/refs/worktree"@),
            ]);
        }
        r
    }
}

/// Membership in a filtered sequence comes only from the sequence, and
/// only through elements the predicate holds of.
proof fn lemma_filter_member<A>(s: Seq<A>, pred: spec_fn(A) -> bool, x: A)
    requires
        s.filter(pred).contains(x),
    ensures
        pred(x),
        s.contains(x),
    decreases s.len(),
{
    reveal(Seq::filter);
    if s.len() > 0 {
        let f = s.filter(pred);
        let fd = s.drop_last().filter(pred);
        if pred(s.last()) && x == s.last() {
            assert(s[s.len() - 1] == x);
        } else {
            assert(fd.contains(x)) by {
                let i = choose|i: int| 0 <= i < f.len() && f[i] == x;
                if pred(s.last()) {
                    assert(f == fd.push(s.last()));
                    assert(i < fd.len());
                    assert(fd[i] == x);
                } else {
                    assert(f == fd);
                }
            }
            lemma_filter_member(s.drop_last(), pred, x);
            let j = choose|j: int| 0 <= j < s.drop_last().len() && s.drop_last()[j] == x;
            assert(s[j] == x);
        }
    }
}

/// Clear touches exactly the managed worktrees: every path it selects
/// lies under the managed directory, every listed path under that
/// directory is selected, and a foreign path is never selected.
pub proof fn lemma_clear_isolation(paths: Seq<Seq<char>>, dir: Seq<char>)
    ensures
        forall|i: int|
            0 <= i < paths.filter(managed_pred(dir)).len() ==> path_under(
                #[trigger] paths.filter(managed_pred(dir))[i],
                dir,
            ),
        forall|i: int|
            0 <= i < paths.len() && path_under(#[trigger] paths[i], dir) ==> paths.filter(
                managed_pred(dir),
            ).contains(paths[i]),
        forall|x: Seq<char>|
            #[trigger] paths.filter(managed_pred(dir)).contains(x) ==> path_under(x, dir)
                && paths.contains(x),
{
    let pred = managed_pred(dir);
    assert forall|i: int| 0 <= i < paths.filter(pred).len() implies path_under(
        #[trigger] paths.filter(pred)[i],
        dir,
    ) by {
        Seq::lemma_filter_pred(paths, pred, i);
    }
    assert forall|i: int|
        0 <= i < paths.len() && path_under(#[trigger] paths[i], dir) implies paths.filter(
        pred,
    ).contains(paths[i]) by {
        Seq::lemma_filter_contains(paths, pred, i);
    }
    assert forall|x: Seq<char>| #[trigger] paths.filter(pred).contains(x) implies path_under(
        x,
        dir,
    ) && paths.contains(x) by {
        lemma_filter_member(paths, pred, x);
    }
}

/// Round-trip path resolution: resolving a name is a function of the
/// name, so a `switch` right after a `create` of the same name reaches
/// the identical path, and distinct names never share a path.
pub proof fn lemma_round_trip_resolution(repo: Repo, name: Seq<char>, other: Seq<char>)
    requires
        valid_name(name),
        valid_name(other),
    ensures
        repo.spec_worktree_path(name) == repo.spec_worktree_path(other) <==> name == other,
{
    if repo.spec_worktree_path(name) == repo.spec_worktree_path(other) {
        let d = repo.worktrees_dir@;
        let a = joined(d, name);
        let b = joined(d, other);
        assert(a.len() == d.len() + 1 + name.len());
        assert(b.len() == d.len() + 1 + other.len());
        assert forall|i: int| 0 <= i < name.len() implies name[i] == other[i] by {
            assert(a[d.len() + 1 + i] == name[i]);
            assert(b[d.len() + 1 + i] == other[i]);
        }
        assert(name =~= other);
    }
}

/// The exit code the tool owes after a launched child finished: none
/// when the child succeeded (the tool goes on and exits normally), the
/// child's own code when it failed, `1` when the platform reports no
/// code. Exit-code propagation, not re-interpretation.
pub fn propagated_exit_code(success: bool, code: Option<i32>) -> (r: Option<i32>)
    ensures
        r is Some <==> !success,
        r matches Some(c) ==> c == (match code {
            Some(k) => k,
            None => 1,
        }),
{
    if success {
        None
    } else {
        match code {
            Some(k) => Some(k),
            None => Some(1),
        }
    }
}

} // verus!
