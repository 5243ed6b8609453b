use vstd::prelude::*;

use crate::ballot::{first_named, promoted, vote_step, VotingContract};

verus! {

/// A first vote from `caller` for a name that some proposal has gives the
/// first proposal of that name exactly one more vote; every other proposal
/// keeps its count and its order relative to the rest.
pub proof fn lemma_first_vote_adds_one(
    pre: VotingContract,
    post: VotingContract,
    caller: Seq<char>,
    name: Seq<char>,
)
    requires
        vote_step(pre, post, caller, name),
        !pre.has_voted(caller),
        first_named(pre.proposals_view(), name) is Some,
    ensures
        post.proposals_view().len() == pre.proposals_view().len(),
        exists|j: int|
            0 <= j < post.proposals_view().len() && #[trigger] post.proposals_view()[j].name == name
                && post.proposals_view()[j].vote_count == pre.proposals_view()[first_named(
                pre.proposals_view(),
                name,
            )->Some_0].vote_count + 1 && post.proposals_view().remove(j) == pre.proposals_view().remove(
                first_named(pre.proposals_view(), name)->Some_0,
            ),
{
    let s = pre.proposals_view();
    let i = first_named(s, name)->Some_0;
    assert(0 <= i < s.len() && s[i].name == name);
    let j = choose|j: int|
        0 <= j <= i && post.proposals_view() == promoted(s, i, j);
    let t = post.proposals_view();
    assert(t.remove(j) =~= s.remove(i));
    assert(0 <= j < t.len() && t[j].name == name && t[j].vote_count == s[i].vote_count + 1
        && t.remove(j) == s.remove(i));
}

/// Once `caller` has voted, its next vote, for any name, changes no
/// proposal's count or rank, and leaves its record as it was.
pub proof fn lemma_second_vote_keeps_counts(
    s0: VotingContract,
    s1: VotingContract,
    s2: VotingContract,
    caller: Seq<char>,
    first: Seq<char>,
    second: Seq<char>,
)
    requires
        vote_step(s0, s1, caller, first),
        vote_step(s1, s2, caller, second),
    ensures
        s2.proposals_view() == s1.proposals_view(),
        s2.voters_view() == s1.voters_view(),
{
    assert(s1.has_voted(caller));
    assert(s2.voters_view() =~= s1.voters_view());
}

/// A vote for a name that no proposal has changes no proposal.
pub proof fn lemma_unknown_name_keeps_counts(
    pre: VotingContract,
    post: VotingContract,
    caller: Seq<char>,
    name: Seq<char>,
)
    requires
        vote_step(pre, post, caller, name),
        forall|k: int|
            0 <= k < pre.proposals_view().len() ==> #[trigger] pre.proposals_view()[k].name != name,
    ensures
        post.proposals_view() == pre.proposals_view(),
{
}

} // verus!
