//! Listing managed worktrees: lexicographically sorted names.

use vstd::prelude::*;
use vstd::relations::sorted_by;
use vstd::seq_lib::lemma_sorted_unique;

use crate::strutil::lex_le;
use crate::strutil::lex_leq;
use crate::strutil::lemma_lex_le_connected;
use crate::strutil::lemma_lex_le_transitive;
use crate::strutil::lemma_lex_total_ordering;
use crate::strutil::str_le;

verus! {

/// Sorts worktree names lexicographically, as the listing prints them.
/// The result is the unique sorted arrangement of the given names.
pub fn sorted_names(names: Vec<String>) -> (r: Vec<String>)
    ensures
        sorted_by(r.deep_view(), lex_leq()),
        r.deep_view().to_multiset() == names.deep_view().to_multiset(),
{
    broadcast use vstd::seq_lib::group_to_multiset_ensures;

    let ghost orig = names.deep_view();
    let mut input = names;
    let mut out: Vec<String> = Vec::new();
    proof {
        assert(out.deep_view() =~= Seq::<Seq<char>>::empty());
        assert(out.deep_view().to_multiset().add(input.deep_view().to_multiset()) =~= orig
            .to_multiset());
    }
    while input.len() > 0
        invariant
            sorted_by(out.deep_view(), lex_leq()),
            out.deep_view().to_multiset().add(input.deep_view().to_multiset()) == orig
                .to_multiset(),
            forall|a: int, b: int|
                0 <= a < out.deep_view().len() && 0 <= b < input.deep_view().len() ==> lex_le(
                    #[trigger] out.deep_view()[a],
                    #[trigger] input.deep_view()[b],
                ),
        decreases input.len(),
    {
        proof {
            crate::strutil::lemma_lex_le_refl(input.deep_view()[0]);
        }
        let mut mi: usize = 0;
        let mut k: usize = 1;
        while k < input.len()
            invariant
                input.deep_view().len() == input@.len(),
                mi < k <= input@.len(),
                forall|j: int|
                    0 <= j < k ==> lex_le(
                        input.deep_view()[mi as int],
                        #[trigger] input.deep_view()[j],
                    ),
            decreases input@.len() - k,
        {
            if str_le(input[k].as_str(), input[mi].as_str()) {
                proof {
                    assert forall|j: int| 0 <= j < k + 1 implies lex_le(
                        input.deep_view()[k as int],
                        #[trigger] input.deep_view()[j],
                    ) by {
                        if j < k {
                            lemma_lex_le_transitive(
                                input.deep_view()[k as int],
                                input.deep_view()[mi as int],
                                input.deep_view()[j],
                            );
                        } else {
                            lemma_lex_le_connected(
                                input.deep_view()[k as int],
                                input.deep_view()[k as int],
                            );
                        }
                    }
                }
                mi = k;
            } else {
                proof {
                    lemma_lex_le_connected(
                        input.deep_view()[k as int],
                        input.deep_view()[mi as int],
                    );
                }
            }
            k += 1;
        }
        let ghost pre = input.deep_view();
        let ghost pre_out = out.deep_view();
        let x = input.remove(mi);
        proof {
            assert(input.deep_view() =~= pre.remove(mi as int));
            assert(x@ == pre[mi as int]);
        }
        out.push(x);
        proof {
            assert(out.deep_view() =~= pre_out.push(x@));
            vstd::seq_lib::to_multiset_build(pre_out, x@);
            vstd::seq_lib::to_multiset_remove(pre, mi as int);
            assert(out.deep_view().to_multiset() =~= pre_out.to_multiset().insert(x@));
            assert(input.deep_view().to_multiset() =~= pre.to_multiset().remove(x@));
            pre.to_multiset_ensures();
            assert(pre.contains(x@));
            assert(pre.to_multiset().count(x@) > 0);
            assert(out.deep_view().to_multiset().add(input.deep_view().to_multiset()) =~= pre_out
                .to_multiset().add(pre.to_multiset()));
            assert forall|a: int, b: int|
                0 <= a < out.deep_view().len() && 0 <= b
                    < input.deep_view().len() implies lex_le(
                #[trigger] out.deep_view()[a],
                #[trigger] input.deep_view()[b],
            ) by {
                let old_b = if b < mi as int {
                    b
                } else {
                    b + 1
                };
                assert(input.deep_view()[b] == pre[old_b]);
                if a < pre_out.len() {
                    assert(out.deep_view()[a] == pre_out[a]);
                } else {
                    assert(out.deep_view()[a] == x@);
                }
            }
            assert(sorted_by(out.deep_view(), lex_leq())) by {
                assert forall|a: int, b: int|
                    0 <= a < b < out.deep_view().len() implies lex_leq()(
                    out.deep_view()[a],
                    out.deep_view()[b],
                ) by {
                    if b < pre_out.len() {
                        assert(lex_leq()(pre_out[a], pre_out[b]));
                    } else {
                        assert(out.deep_view()[b] == x@);
                        assert(lex_le(pre_out[a], pre[mi as int]));
                    }
                }
            }
        }
    }
    proof {
        assert(input.deep_view() =~= Seq::<Seq<char>>::empty());
        assert(out.deep_view().to_multiset().add(input.deep_view().to_multiset()) =~= out
            .deep_view().to_multiset());
    }
    out
}

/// Sorted listings are canonical: two sorted arrangements of the same
/// names are the same listing, so listing is deterministic and sorting a
/// listing again cannot change it.
pub proof fn lemma_sorted_listing_unique(a: Seq<Seq<char>>, b: Seq<Seq<char>>)
    requires
        sorted_by(a, lex_leq()),
        sorted_by(b, lex_leq()),
        a.to_multiset() == b.to_multiset(),
    ensures
        a == b,
{
    lemma_lex_total_ordering();
    lemma_sorted_unique(a, b, lex_leq());
    assert(a =~= b);
}

} // verus!
