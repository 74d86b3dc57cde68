//! Worktree names: validation, the index a name contributes, and
//! generation of the next default name.

use vstd::prelude::*;

use crate::errors::WtError;

verus! {

/// A name is valid when it is a single ordinary path segment: non-empty,
/// not `.` or `..`, and free of path separators.
pub open spec fn valid_name(s: Seq<char>) -> bool {
    &&& s.len() > 0
    &&& s != seq!['.']
    &&& s != seq!['.', '.']
    &&& !s.contains('/')
}

/// Accepts exactly the valid worktree names; rejects traversal, separators
/// and empty input before any filesystem or backend interaction.
pub fn validate_worktree_name(name: &str) -> (r: Result<(), WtError>)
    ensures
        r is Ok <==> valid_name(name@),
        r matches Err(e) ==> e matches WtError::InvalidName(n) && n@ == name@,
{
    let len = name.unicode_len();
    if len == 0 {
        return Err(WtError::InvalidName(String::from_str(name)));
    }
    if len == 1 && name.get_char(0) == '.' {
        proof {
            assert(name@ =~= seq!['.']);
        }
        return Err(WtError::InvalidName(String::from_str(name)));
    }
    if len == 2 && name.get_char(0) == '.' && name.get_char(1) == '.' {
        proof {
            assert(name@ =~= seq!['.', '.']);
        }
        return Err(WtError::InvalidName(String::from_str(name)));
    }
    let mut i: usize = 0;
    while i < len
        invariant
            len == name@.len(),
            i <= len,
            forall|j: int| 0 <= j < i ==> name@[j] != '/',
        decreases len - i,
    {
        if name.get_char(i) == '/' {
            return Err(WtError::InvalidName(String::from_str(name)));
        }
        i += 1;
    }
    proof {
        assert(name@ != seq!['.']);
        assert(name@ != seq!['.', '.']);
        assert(!name@.contains('/'));
    }
    Ok(())
}

/// A character of a plain worktree name: alphanumeric or a hyphen.
pub open spec fn is_name_char(c: char) -> bool {
    ('a' <= c && c <= 'z') || ('A' <= c && c <= 'Z') || ('0' <= c && c <= '9') || c == '-'
}

/// What validation accepts and rejects, by shape: any string with a
/// separator, and the empty, `.` and `..` names, are invalid; any
/// non-empty string of alphanumerics and hyphens is valid.
pub proof fn lemma_validate_characterization(s: Seq<char>)
    ensures
        s.contains('/') || s.len() == 0 || s == seq!['.'] || s == seq!['.', '.'] ==> !valid_name(
            s,
        ),
        (s.len() > 0 && forall|i: int| 0 <= i < s.len() ==> is_name_char(#[trigger] s[i]))
            ==> valid_name(s),
{
    if s.len() > 0 && (forall|i: int| 0 <= i < s.len() ==> is_name_char(#[trigger] s[i])) {
        assert(!is_name_char('.'));
        assert(!is_name_char('/'));
        assert(s != seq!['.']) by {
            if s == seq!['.'] {
                assert(s[0] == '.');
            }
        }
        assert(s != seq!['.', '.']) by {
            if s == seq!['.', '.'] {
                assert(s[0] == '.');
            }
        }
        assert(!s.contains('/')) by {
            if s.contains('/') {
                let i = choose|i: int| 0 <= i < s.len() && s[i] == '/';
                assert(is_name_char(s[i]));
            }
        }
    }
}

/// A decimal digit.
pub open spec fn is_digit(c: char) -> bool {
    '0' <= c && c <= '9'
}

/// The character for a digit value below ten.
pub open spec fn digit_char(d: int) -> char {
    (d + 48) as char
}

/// The canonical decimal spelling of a non-negative integer, most
/// significant digit first, without leading zeros (`0` is spelled `0`).
pub open spec fn decimal_digits(n: int) -> Seq<char>
    decreases n,
{
    if n < 10 {
        seq![digit_char(n)]
    } else {
        decimal_digits(n / 10).push(digit_char(n % 10))
    }
}

/// The numeric value of a digit string, read most significant first.
pub open spec fn digits_val(s: Seq<char>) -> int
    decreases s.len(),
{
    if s.len() == 0 {
        0
    } else {
        digits_val(s.drop_last()) * 10 + (s.last() as int - 48)
    }
}

pub open spec fn all_digits(s: Seq<char>) -> bool {
    forall|i: int| 0 <= i < s.len() ==> is_digit(#[trigger] s[i])
}

/// Writing a number and reading it back yields the number.
pub proof fn lemma_decimal_roundtrip(n: int)
    requires
        0 <= n,
    ensures
        all_digits(decimal_digits(n)),
        digits_val(decimal_digits(n)) == n,
        decimal_digits(n).len() > 0,
        decimal_digits(n)[0] != '0' || n < 10,
    decreases n,
{
    if n < 10 {
        assert(decimal_digits(n) =~= seq![digit_char(n)]);
        assert(decimal_digits(n).drop_last() =~= Seq::<char>::empty());
        assert(digits_val(Seq::<char>::empty()) == 0);
        assert(digit_char(n) as int == n + 48);
        assert('0' <= digit_char(n) && digit_char(n) <= '9');
    } else {
        lemma_decimal_roundtrip(n / 10);
        let s = decimal_digits(n);
        assert(s.drop_last() =~= decimal_digits(n / 10));
        assert(s.last() == digit_char(n % 10));
    }
}

/// A longer digit prefix never has a smaller value.
pub proof fn lemma_digits_val_monotone(s: Seq<char>, i: int)
    requires
        0 <= i <= s.len(),
        all_digits(s),
    ensures
        digits_val(s.take(i)) <= digits_val(s),
    decreases s.len() - i,
{
    if i < s.len() {
        lemma_digits_val_monotone(s, i + 1);
        assert(s.take(i + 1).drop_last() =~= s.take(i));
        assert(s.take(i + 1).last() == s[i]);
        assert(digits_val(s.take(i)) * 10 + (s[i] as int - 48) == digits_val(s.take(i + 1)));
        lemma_digits_val_nonneg(s.take(i));
    } else {
        assert(s.take(i) =~= s);
    }
}

pub proof fn lemma_digits_val_nonneg(s: Seq<char>)
    requires
        all_digits(s),
    ensures
        digits_val(s) >= 0,
    decreases s.len(),
{
    if s.len() > 0 {
        assert(all_digits(s.drop_last()));
        lemma_digits_val_nonneg(s.drop_last());
    }
}

/// Formats a number in decimal.
pub fn usize_to_string(n: usize) -> (r: String)
    ensures
        r@ == decimal_digits(n as int),
{
    let mut rev: Vec<char> = Vec::new();
    let mut m: usize = n;
    loop
        invariant_except_break
            decimal_digits(n as int) =~= decimal_digits(m as int) + rev@.reverse(),
        ensures
            decimal_digits(n as int) =~= rev@.reverse(),
        decreases m,
    {
        let d: usize = m % 10;
        let c: char = ((d + 48) as u8) as char;
        proof {
            assert(c == digit_char(m as int % 10));
            assert((rev@.push(c)).reverse() =~= seq![c] + rev@.reverse());
            if m >= 10 {
                assert(decimal_digits(m as int) == decimal_digits(m as int / 10).push(
                    digit_char(m as int % 10),
                ));
                assert(decimal_digits(m as int / 10) + (rev@.push(c)).reverse()
                    =~= decimal_digits(m as int) + rev@.reverse());
            } else {
                assert(decimal_digits(m as int) =~= seq![c]);
                assert((rev@.push(c)).reverse() =~= decimal_digits(m as int) + rev@.reverse());
            }
        }
        rev.push(c);
        m = m / 10;
        if m == 0 {
            break;
        }
    }
    let mut out = String::new();
    let total = rev.len();
    let mut i: usize = 0;
    while i < total
        invariant
            total == rev@.len(),
            i <= total,
            out@ =~= rev@.reverse().take(i as int),
        decreases total - i,
    {
        let c = rev[total - 1 - i];
        proof {
            assert(rev@.reverse()[i as int] == rev@[total - 1 - i]);
            assert(out@.push(c) =~= rev@.reverse().take(i + 1));
        }
        crate::strutil::push_char(&mut out, c);
        i += 1;
    }
    proof {
        assert(rev@.reverse().take(total as int) =~= rev@.reverse());
    }
    out
}

/// Parses a non-empty all-digit string; `None` on any other input or when
/// the value does not fit in `usize`.
pub fn parse_digits(s: &str) -> (r: Option<usize>)
    ensures
        match r {
            Some(v) => s@.len() > 0 && all_digits(s@) && v as int == digits_val(s@),
            None => s@.len() == 0 || !all_digits(s@) || digits_val(s@) > usize::MAX as int,
        },
{
    let len = s.unicode_len();
    if len == 0 {
        return None;
    }
    let mut acc: usize = 0;
    let mut i: usize = 0;
    proof {
        assert(s@.take(0) =~= Seq::<char>::empty());
    }
    while i < len
        invariant
            len == s@.len(),
            i <= len,
            acc as int == digits_val(s@.take(i as int)),
            all_digits(s@.take(i as int)),
        decreases len - i,
    {
        let c = s.get_char(i);
        let cu = c as u32;
        if cu < 48 || cu > 57 {
            proof {
                assert(!is_digit(s@[i as int]));
            }
            return None;
        }
        let d: usize = (cu - 48) as usize;
        proof {
            assert(s@.take(i + 1).drop_last() =~= s@.take(i as int));
            assert(s@.take(i + 1).last() == s@[i as int]);
        }
        if acc > (usize::MAX - d) / 10 {
            proof {
                assert(digits_val(s@.take(i + 1)) == acc as int * 10 + d);
                assert(acc as int * 10 + d > usize::MAX as int) by (nonlinear_arith)
                    requires
                        acc as int > (usize::MAX as int - d) / 10,
                        0 <= d <= 9,
                ;
                if all_digits(s@) {
                    lemma_digits_val_monotone(s@, i + 1);
                }
            }
            return None;
        }
        proof {
            assert(acc as int * 10 + d <= usize::MAX as int) by (nonlinear_arith)
                requires
                    acc as int <= (usize::MAX as int - d) / 10,
                    0 <= d <= 9,
            ;
        }
        acc = acc * 10 + d;
        i += 1;
        proof {
            assert(all_digits(s@.take(i as int)));
        }
    }
    proof {
        assert(s@.take(len as int) =~= s@);
    }
    Some(acc)
}

/// `s` without the suffix `suf`, when `suf` ends it.
pub open spec fn strip_suffix_spec(s: Seq<char>, suf: Seq<char>) -> Option<Seq<char>> {
    if suf.is_suffix_of(s) {
        Some(s.take(s.len() - suf.len()))
    } else {
        None
    }
}

/// The index a digit prefix contributes: its value, if it is a non-empty
/// digit string whose value fits the machine.
pub open spec fn index_of_prefix(p: Seq<char>) -> Option<int> {
    if p.len() > 0 && all_digits(p) && digits_val(p) <= usize::MAX as int {
        Some(digits_val(p))
    } else {
        None
    }
}

/// The index a directory name contributes to default naming: the value of
/// `<integer>` for names of the shape `<integer>-wt` or `<integer>-worktree`.
pub open spec fn wt_index_of(s: Seq<char>) -> Option<int> {
    match strip_suffix_spec(s, "-wt"@) {
        Some(p) => index_of_prefix(p),
        None => match strip_suffix_spec(s, "-worktree"@) {
            Some(p) => index_of_prefix(p),
            None => None,
        },
    }
}

/// Reads the index a directory name contributes to default naming.
pub fn worktree_index(name: &str) -> (r: Option<usize>)
    ensures
        match r {
            Some(v) => wt_index_of(name@) == Some(v as int),
            None => wt_index_of(name@) is None,
        },
{
    proof {
        reveal_strlit("-wt");
        reveal_strlit("-worktree");
    }
    let len = name.unicode_len();
    if crate::strutil::ends_with(name, "-wt") {
        let p = name.substring_char(0, len - 3);
        proof {
            assert(p@ =~= name@.take(name@.len() - 3));
        }
        parse_digits(p)
    } else if crate::strutil::ends_with(name, "-worktree") {
        let p = name.substring_char(0, len - 9);
        proof {
            assert(p@ =~= name@.take(name@.len() - 9));
        }
        parse_digits(p)
    } else {
        None
    }
}

/// The largest index any of the names contributes, if one does.
pub open spec fn max_wt_index(names: Seq<Seq<char>>) -> Option<int>
    decreases names.len(),
{
    if names.len() == 0 {
        None
    } else {
        let rest = max_wt_index(names.drop_last());
        match wt_index_of(names.last()) {
            Some(v) => match rest {
                Some(m) => if v > m {
                    Some(v)
                } else {
                    Some(m)
                },
                None => Some(v),
            },
            None => rest,
        }
    }
}

/// The index of the next default name: one past the maximum in use, or
/// zero when no name contributes one.
pub open spec fn next_wt_index(names: Seq<Seq<char>>) -> int {
    match max_wt_index(names) {
        Some(m) => m + 1,
        None => 0,
    }
}

/// The next default name: `<next index>-wt`.
pub open spec fn next_name(names: Seq<Seq<char>>) -> Seq<char> {
    decimal_digits(next_wt_index(names)) + "-wt"@
}

/// Generates the next default worktree name from the names of the
/// directories already present. Max-based, not count-based, so deleted
/// worktrees leave gaps that are never reused.
pub fn next_worktree_name(names: &Vec<String>) -> (r: String)
    requires
        match max_wt_index(names.deep_view()) {
            Some(m) => m < usize::MAX as int,
            None => true,
        },
    ensures
        r@ == next_name(names.deep_view()),
{
    let mut highest: Option<usize> = None;
    let mut i: usize = 0;
    proof {
        assert(names.deep_view().take(0) =~= Seq::<Seq<char>>::empty());
    }
    while i < names.len()
        invariant
            i <= names@.len(),
            names.deep_view().len() == names@.len(),
            forall|j: int|
                0 <= j < names@.len() ==> names.deep_view()[j] == #[trigger] names@[j]@,
            match highest {
                Some(h) => max_wt_index(names.deep_view().take(i as int)) == Some(h as int),
                None => max_wt_index(names.deep_view().take(i as int)) is None,
            },
        decreases names@.len() - i,
    {
        let idx = worktree_index(names[i].as_str());
        proof {
            let d = names.deep_view();
            assert(d.take(i + 1).drop_last() =~= d.take(i as int));
            assert(d.take(i + 1).last() == d[i as int]);
        }
        match idx {
            Some(v) => {
                highest = match highest {
                    Some(h) => if h > v {
                        Some(h)
                    } else {
                        Some(v)
                    },
                    None => Some(v),
                };
            },
            None => {},
        }
        i += 1;
    }
    proof {
        assert(names.deep_view().take(names@.len() as int) =~= names.deep_view());
    }
    let next: usize = match highest {
        Some(h) => h + 1,
        None => 0,
    };
    let digits = usize_to_string(next);
    digits.concat("-wt")
}

/// Every index in use is at most the maximum.
pub proof fn lemma_max_wt_bound(names: Seq<Seq<char>>, i: int, v: int)
    requires
        0 <= i < names.len(),
        wt_index_of(names[i]) == Some(v),
    ensures
        max_wt_index(names) matches Some(m) && v <= m,
    decreases names.len(),
{
    if i == names.len() - 1 {
        assert(names.last() == names[i]);
    } else {
        assert(names.drop_last()[i] == names[i]);
        lemma_max_wt_bound(names.drop_last(), i, v);
    }
}

/// The generated default name reads back as the next index.
pub proof fn lemma_next_name_index(names: Seq<Seq<char>>)
    requires
        0 <= next_wt_index(names) <= usize::MAX as int,
    ensures
        wt_index_of(next_name(names)) == Some(next_wt_index(names)),
{
    reveal_strlit("-wt");
    let v = next_wt_index(names);
    let n = next_name(names);
    lemma_decimal_roundtrip(v);
    assert("-wt"@.is_suffix_of(n)) by {
        assert(n.subrange(n.len() - 3, n.len() as int) =~= "-wt"@);
    }
    assert(n.take(n.len() - 3) =~= decimal_digits(v));
}

/// Default naming is monotonic: the next index strictly exceeds every
/// index in use, so deletions leave gaps that are never reused.
pub proof fn lemma_next_index_exceeds_all(names: Seq<Seq<char>>)
    ensures
        forall|i: int|
            0 <= i < names.len() && (#[trigger] wt_index_of(names[i])) is Some ==> wt_index_of(
                names[i],
            ).unwrap() < next_wt_index(names),
{
    assert forall|i: int|
        0 <= i < names.len() && (#[trigger] wt_index_of(names[i])) is Some implies wt_index_of(
        names[i],
    ).unwrap() < next_wt_index(names) by {
        lemma_max_wt_bound(names, i, wt_index_of(names[i]).unwrap());
    }
}

/// The generated default name collides with none of the names it was
/// generated from: default naming is fresh, monotonic and gap-aware, and
/// two creations that each see the other's directory pick distinct names.
pub proof fn lemma_next_name_not_taken(names: Seq<Seq<char>>)
    requires
        match max_wt_index(names) {
            Some(m) => 0 <= m < usize::MAX as int,
            None => true,
        },
    ensures
        forall|i: int| 0 <= i < names.len() ==> names[i] != next_name(names),
{
    let v = next_wt_index(names);
    lemma_next_name_index(names);
    assert forall|i: int| 0 <= i < names.len() implies names[i] != next_name(names) by {
        if names[i] == next_name(names) {
            lemma_max_wt_bound(names, i, v);
        }
    }
}

/// Two creations in turn pick distinct default names: once the first
/// generated name stands in the directory, the next generated name
/// differs from it.
pub proof fn lemma_sequential_defaults_distinct(names: Seq<Seq<char>>)
    requires
        match max_wt_index(names) {
            Some(m) => 0 <= m && m + 1 < usize::MAX as int,
            None => true,
        },
    ensures
        next_name(names.push(next_name(names))) != next_name(names),
{
    let v = next_wt_index(names);
    let first = next_name(names);
    let grown = names.push(first);
    lemma_next_name_index(names);
    assert(grown.last() == first);
    assert(grown.drop_last() =~= names);
    assert(max_wt_index(grown) == Some(v));
    assert(next_wt_index(grown) == v + 1);
    lemma_next_name_index(grown);
    assert(wt_index_of(next_name(grown)) == Some(v + 1));
    assert(wt_index_of(first) == Some(v));
}

} // verus!
