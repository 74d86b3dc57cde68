//! Parsing the backend's machine-readable worktree listing.
//!
//! The listing names each worktree on a line `worktree <path>`; other
//! lines describe the entry and are skipped. Relative paths are taken
//! from the repository root.

use vstd::prelude::*;

use crate::paths::joined;
use crate::strutil::starts_with;
use crate::strutil::trim_str;
use crate::strutil::trimmed;

verus! {

/// A line as the line iterator yields it: a carriage return before the
/// line feed is dropped.
pub open spec fn strip_cr(l: Seq<char>) -> Seq<char> {
    if l.len() > 0 && l.last() == '\r' {
        l.drop_last()
    } else {
        l
    }
}

/// The lines of the text `cur + s`, where `cur` is the part of the
/// current line already read: split at line feeds, a final line without
/// one kept as it stands.
pub open spec fn split_lines_from(s: Seq<char>, cur: Seq<char>) -> Seq<Seq<char>>
    decreases s.len(),
{
    if s.len() == 0 {
        if cur.len() == 0 {
            Seq::empty()
        } else {
            seq![cur]
        }
    } else if s[0] == '\n' {
        seq![strip_cr(cur)] + split_lines_from(s.skip(1), Seq::empty())
    } else {
        split_lines_from(s.skip(1), cur.push(s[0]))
    }
}

/// The lines of a text.
pub open spec fn split_lines(s: Seq<char>) -> Seq<Seq<char>> {
    split_lines_from(s, Seq::empty())
}

/// The path a single listing line contributes, if it names a worktree.
pub open spec fn listed_path(line: Seq<char>, root: Seq<char>) -> Option<Seq<char>> {
    if "worktree "@.is_prefix_of(line) {
        let raw = trimmed(line.skip("worktree "@.len() as int));
        if raw.len() == 0 {
            None
        } else if raw[0] == '/' {
            Some(raw)
        } else {
            Some(joined(root, raw))
        }
    } else {
        None
    }
}

/// The paths the listing lines contribute, in order.
pub open spec fn collect_paths(lines: Seq<Seq<char>>, root: Seq<char>) -> Seq<Seq<char>>
    decreases lines.len(),
{
    if lines.len() == 0 {
        Seq::empty()
    } else {
        (match listed_path(lines.first(), root) {
            Some(p) => seq![p],
            None => Seq::empty(),
        }) + collect_paths(lines.drop_first(), root)
    }
}

/// The worktree paths of a whole listing.
pub open spec fn parsed_worktree_list(output: Seq<char>, root: Seq<char>) -> Seq<Seq<char>> {
    collect_paths(split_lines(output), root)
}

/// Reads one listing line.
fn line_path(line: &str, root: &str) -> (r: Option<String>)
    ensures
        match r {
            Some(p) => listed_path(line@, root@) == Some(p@),
            None => listed_path(line@, root@) is None,
        },
{
    proof {
        reveal_strlit("worktree ");
    }
    if !starts_with(line, "worktree ") {
        return None;
    }
    let len = line.unicode_len();
    let rest = line.substring_char(9, len);
    proof {
        assert(rest@ =~= line@.skip(9));
    }
    let raw = trim_str(rest);
    if raw.unicode_len() == 0 {
        return None;
    }
    if raw.get_char(0) == '/' {
        Some(String::from_str(raw))
    } else {
        Some(crate::paths::join_path(root, raw))
    }
}

/// Extracts the worktree paths from the backend's listing output.
pub fn parse_worktree_list(output: &str, root: &str) -> (r: Vec<String>)
    ensures
        r.deep_view() == parsed_worktree_list(output@, root@),
{
    let len = output.unicode_len();
    let mut res: Vec<String> = Vec::new();
    let mut cur = String::new();
    let mut i: usize = 0;
    proof {
        assert(output@.skip(0) =~= output@);
        assert(res.deep_view() =~= Seq::<Seq<char>>::empty());
        assert(res.deep_view() + collect_paths(split_lines(output@), root@) =~= collect_paths(
            split_lines(output@),
            root@,
        ));
    }
    while i < len
        invariant
            len == output@.len(),
            i <= len,
            parsed_worktree_list(output@, root@) == res.deep_view() + collect_paths(
                split_lines_from(output@.skip(i as int), cur@),
                root@,
            ),
        decreases len - i,
    {
        let ghost t = output@.skip(i as int);
        let ghost pre_cur = cur@;
        let ghost pre_res = res.deep_view();
        proof {
            assert(t[0] == output@[i as int]);
            assert(t.skip(1) =~= output@.skip(i + 1));
        }
        let c = output.get_char(i);
        if c == '\n' {
            let clen = cur.unicode_len();
            let line_end: usize = if clen > 0 && cur.as_str().get_char(clen - 1) == '\r' {
                clen - 1
            } else {
                clen
            };
            let line = cur.as_str().substring_char(0, line_end);
            proof {
                assert(line@ =~= strip_cr(pre_cur));
            }
            let ghost lines = split_lines_from(t, pre_cur);
            proof {
                assert(lines.first() == strip_cr(pre_cur));
                assert(lines.drop_first() =~= split_lines_from(t.skip(1), Seq::empty()));
            }
            match line_path(line, root) {
                Some(p) => {
                    proof {
                        assert(collect_paths(lines, root@) =~= seq![p@] + collect_paths(
                            lines.drop_first(),
                            root@,
                        ));
                    }
                    res.push(p);
                    proof {
                        assert(res.deep_view() =~= pre_res.push(p@));
                        assert(pre_res.push(p@) + collect_paths(
                            split_lines_from(output@.skip(i + 1), Seq::<char>::empty()),
                            root@,
                        ) =~= pre_res + collect_paths(lines, root@));
                    }
                },
                None => {
                    proof {
                        assert(collect_paths(lines, root@) =~= collect_paths(
                            lines.drop_first(),
                            root@,
                        ));
                    }
                },
            }
            cur = String::new();
        } else {
            crate::strutil::push_char(&mut cur, c);
            proof {
                assert(split_lines_from(t, pre_cur) == split_lines_from(
                    t.skip(1),
                    pre_cur.push(c),
                ));
            }
        }
        i += 1;
    }
    proof {
        assert(output@.skip(len as int).len() == 0);
    }
    let clen = cur.unicode_len();
    if clen > 0 {
        let ghost lines = split_lines_from(output@.skip(len as int), cur@);
        proof {
            assert(lines =~= seq![cur@]);
            assert(lines.first() == cur@);
            assert(lines.drop_first() =~= Seq::<Seq<char>>::empty());
            assert(collect_paths(Seq::<Seq<char>>::empty(), root@) =~= Seq::<Seq<char>>::empty());
        }
        let ghost pre_res = res.deep_view();
        match line_path(cur.as_str(), root) {
            Some(p) => {
                proof {
                    assert(collect_paths(lines, root@) =~= seq![p@]);
                }
                res.push(p);
                proof {
                    assert(res.deep_view() =~= pre_res.push(p@));
                    assert(pre_res.push(p@) =~= pre_res + seq![p@]);
                }
            },
            None => {
                proof {
                    assert(collect_paths(lines, root@) =~= Seq::<Seq<char>>::empty());
                    assert(pre_res + Seq::<Seq<char>>::empty() =~= pre_res);
                }
            },
        }
    } else {
        proof {
            assert(split_lines_from(output@.skip(len as int), cur@) =~= Seq::<Seq<char>>::empty());
            assert(collect_paths(Seq::<Seq<char>>::empty(), root@) =~= Seq::<Seq<char>>::empty());
            assert(res.deep_view() + Seq::<Seq<char>>::empty() =~= res.deep_view());
        }
    }
    res
}

} // verus!
