//! Path arithmetic over the canonical path strings the backend reports:
//! absolute, `/`-separated, no trailing separator.

use vstd::prelude::*;

verus! {

/// The path of an entry of a directory: the directory, a separator, the name.
pub open spec fn joined(dir: Seq<char>, name: Seq<char>) -> Seq<char> {
    dir + seq!['/'] + name
}

/// Appends one path component.
pub fn join_path(dir: &str, name: &str) -> (r: String)
    ensures
        r@ == joined(dir@, name@),
{
    proof {
        reveal_strlit("/");
        assert("/"@ =~= seq!['/']);
    }
    let r = String::from_str(dir).concat("/").concat(name);
    proof {
        assert(r@ =~= joined(dir@, name@));
    }
    r
}

/// The position of the last separator, if the path has one.
pub open spec fn last_slash(s: Seq<char>) -> Option<int>
    decreases s.len(),
{
    if s.len() == 0 {
        None
    } else if s.last() == '/' {
        Some(s.len() - 1)
    } else {
        last_slash(s.drop_last())
    }
}

/// The parent of a path as the backend spells paths: everything before
/// the last separator, `/` itself when that separator leads, and nothing
/// for `/` or a path without separators.
pub open spec fn parent_of(s: Seq<char>) -> Option<Seq<char>> {
    match last_slash(s) {
        None => None,
        Some(i) => if s.len() == 1 {
            None
        } else if i == 0 {
            Some(seq!['/'])
        } else {
            Some(s.take(i))
        },
    }
}

proof fn lemma_last_slash_at(s: Seq<char>, k: int)
    requires
        0 <= k < s.len(),
        s[k] == '/',
        forall|m: int| k < m < s.len() ==> s[m] != '/',
    ensures
        last_slash(s) == Some(k),
    decreases s.len(),
{
    if k == s.len() - 1 {
    } else {
        assert(s.last() != '/');
        assert(s.drop_last()[k] == s[k]);
        lemma_last_slash_at(s.drop_last(), k);
    }
}

proof fn lemma_last_slash_none(s: Seq<char>)
    requires
        forall|m: int| 0 <= m < s.len() ==> s[m] != '/',
    ensures
        last_slash(s) is None,
    decreases s.len(),
{
    if s.len() > 0 {
        lemma_last_slash_none(s.drop_last());
    }
}

/// The parent directory of a backend-reported path; how a repository's
/// root is found from its shared metadata directory.
pub fn parent_dir(s: &str) -> (r: Option<String>)
    ensures
        match r {
            Some(p) => parent_of(s@) == Some(p@),
            None => parent_of(s@) is None,
        },
{
    let len = s.unicode_len();
    let mut j: usize = len;
    while j > 0
        invariant
            len == s@.len(),
            j <= len,
            forall|m: int| j <= m < s@.len() ==> s@[m] != '/',
        decreases j,
    {
        if s.get_char(j - 1) == '/' {
            proof {
                lemma_last_slash_at(s@, j - 1);
            }
            if len == 1 {
                return None;
            }
            if j - 1 == 0 {
                let root = s.substring_char(0, 1);
                proof {
                    assert(root@ =~= seq!['/']);
                }
                return Some(String::from_str(root));
            }
            let p = s.substring_char(0, j - 1);
            proof {
                assert(p@ =~= s@.take(j - 1));
            }
            return Some(String::from_str(p));
        }
        j -= 1;
    }
    proof {
        lemma_last_slash_none(s@);
    }
    None
}

/// Whether `path` is `dir` itself or lies below it, component-wise.
pub open spec fn path_under(path: Seq<char>, dir: Seq<char>) -> bool {
    path == dir || (path.len() > dir.len() && path.take(dir.len() as int) == dir && path[dir.len() as int]
        == '/')
}

/// Decides `path_under`: the filter that keeps `clear` away from
/// worktrees registered outside the managed directory.
pub fn is_path_under(path: &str, dir: &str) -> (r: bool)
    ensures
        r == path_under(path@, dir@),
{
    if crate::strutil::str_eq(path, dir) {
        return true;
    }
    let plen = path.unicode_len();
    let dlen = dir.unicode_len();
    if plen > dlen && crate::strutil::starts_with(path, dir) {
        proof {
            assert(dir@.is_prefix_of(path@) ==> path@.take(dir@.len() as int) =~= dir@);
        }
        path.get_char(dlen) == '/'
    } else {
        proof {
            assert(path@.len() > dir@.len() ==> (path@.take(dir@.len() as int) == dir@
                ==> dir@.is_prefix_of(path@)));
        }
        false
    }
}

/// A path as shown to the user: below the home directory it is spelled
/// with a leading `~`, otherwise unchanged.
pub open spec fn display_spec(path: Seq<char>, home: Seq<char>) -> Seq<char> {
    if path == home {
        "~"@
    } else if path_under(path, home) {
        "~"@ + path.skip(home.len() as int)
    } else {
        path
    }
}

/// Spells a path with `~` for the home directory prefix.
pub fn display_path(path: &str, home: &str) -> (r: String)
    ensures
        r@ == display_spec(path@, home@),
{
    if crate::strutil::str_eq(path, home) {
        return String::from_str("~");
    }
    let plen = path.unicode_len();
    let hlen = home.unicode_len();
    if plen > hlen && crate::strutil::starts_with(path, home) && path.get_char(hlen) == '/' {
        proof {
            assert(path@.take(home@.len() as int) =~= home@);
        }
        let rest = path.substring_char(hlen, plen);
        proof {
            assert(rest@ =~= path@.skip(home@.len() as int));
        }
        String::from_str("~").concat(rest)
    } else {
        proof {
            assert(path@.len() > home@.len() ==> (path@.take(home@.len() as int) == home@
                ==> home@.is_prefix_of(path@)));
        }
        String::from_str(path)
    }
}

/// Where the configuration file lives below the home directory.
pub fn config_path(home: &str) -> (r: String)
    ensures
        r@ == home@ + "/.worktree/config.toml"@,
{
    String::from_str(home).concat("/.worktree/config.toml")
}

} // verus!
