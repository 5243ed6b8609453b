use vstd::prelude::*;

verus! {

/// The mathematical value of a [`Proposal`].
pub ghost struct ProposalView {
    pub name: Seq<char>,
    pub vote_count: nat,
}

/// The mathematical value of a [`Voter`].
pub ghost struct VoterView {
    pub weight: u128,
    pub is_voted: bool,
    pub delegated_to: Seq<char>,
    pub vote: u128,
}

/// One registry entry: an identity's voting power and whether it has voted.
pub struct Voter {
    pub weight: u128,
    pub is_voted: bool,
    pub delegated_to: String,
    pub vote: u128,
}

/// A named option and the votes it has gathered.
pub struct Proposal {
    pub name: String,
    pub vote_count: u128,
}

impl View for Voter {
    type V = VoterView;

    open spec fn view(&self) -> VoterView {
        VoterView {
            weight: self.weight,
            is_voted: self.is_voted,
            delegated_to: self.delegated_to@,
            vote: self.vote,
        }
    }
}

impl View for Proposal {
    type V = ProposalView;

    open spec fn view(&self) -> ProposalView {
        ProposalView { name: self.name@, vote_count: self.vote_count as nat }
    }
}

/// The record written for `id` when it is authorised by `authority` or casts
/// a vote: weight one, one vote, delegated to `authority`.
pub open spec fn voter_record(is_voted: bool, authority: Seq<char>) -> VoterView {
    VoterView { weight: 1, is_voted, delegated_to: authority, vote: 1 }
}

impl Voter {
    /// A fresh record with weight one and one vote, delegated to `authority`.
    pub fn fresh(is_voted: bool, authority: String) -> (r: Voter)
        ensures
            r@ == voter_record(is_voted, authority@),
    {
        Voter { weight: 1, is_voted, delegated_to: authority, vote: 1 }
    }
}

impl Voter {
    /// A copy of this record.
    pub fn duplicate(&self) -> (r: Voter)
        ensures
            r@ == self@,
    {
        Voter {
            weight: self.weight,
            is_voted: self.is_voted,
            delegated_to: self.delegated_to.clone(),
            vote: self.vote,
        }
    }
}

impl Proposal {
    /// A copy of this proposal, name and count.
    pub fn duplicate(&self) -> (r: Proposal)
        ensures
            r@ == self@,
    {
        Proposal { name: self.name.clone(), vote_count: self.vote_count }
    }
}

} // verus!
