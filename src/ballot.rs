use vstd::prelude::*;

use crate::records::{voter_record, Proposal, ProposalView, Voter, VoterView};

verus! {

/// Why a ballot could not be created.
pub enum InitError {
    /// A ballot already exists in this instance's storage.
    AlreadyInitialized,
}

/// Every proposal ranks at least as high as the ones after it.
pub open spec fn ranked(s: Seq<ProposalView>) -> bool {
    forall|a: int, b: int| 0 <= a < b < s.len() ==> s[a].vote_count >= s[b].vote_count
}

/// The index of the first proposal called `name`, if there is one.
pub open spec fn first_named(s: Seq<ProposalView>, name: Seq<char>) -> Option<int> {
    if exists|i: int|
        0 <= i < s.len() && s[i].name == name && forall|k: int| 0 <= k < i ==> s[k].name != name {
        Some(choose|i: int|
            0 <= i < s.len() && s[i].name == name && forall|k: int| 0 <= k < i ==> s[k].name != name)
    } else {
        None
    }
}

/// A fresh proposal for each name, in order, with no votes.
pub open spec fn unvoted(names: Seq<String>) -> Seq<ProposalView> {
    names.map_values(|n: String| ProposalView { name: n@, vote_count: 0 })
}

/// The proposal at `i` with one more vote, moved to `j`; the others keep
/// their order.
pub open spec fn promoted(s: Seq<ProposalView>, i: int, j: int) -> Seq<ProposalView> {
    s.remove(i).insert(j, ProposalView { name: s[i].name, vote_count: s[i].vote_count + 1 })
}

/// No two registry entries name the same identity.
pub open spec fn distinct_ids(entries: Seq<(String, Voter)>) -> bool {
    forall|a: int, b: int| 0 <= a < b < entries.len() ==> entries[a].0@ != entries[b].0@
}

/// What one vote from `caller` for `name` does to the ballot: the caller's
/// record is rewritten as voted; a caller that had not voted gives the first
/// proposal called `name` one more vote and moves it up the ranking; the rest
/// stays as it was.
pub open spec fn vote_step(
    pre: VotingContract,
    post: VotingContract,
    caller: Seq<char>,
    name: Seq<char>,
) -> bool {
    &&& post.voters_view() == pre.voters_view().insert(caller, voter_record(true, caller))
    &&& post.chairperson_view() == pre.chairperson_view()
    &&& post.finished_view() == pre.finished_view()
    &&& match first_named(pre.proposals_view(), name) {
        Some(i) if !pre.has_voted(caller) => exists|j: int|
            0 <= j <= i && post.proposals_view() == promoted(pre.proposals_view(), i, j),
        _ => post.proposals_view() == pre.proposals_view(),
    }
}

/// The ballot: its proposals in ranked order, the voter registry, the
/// chairperson and whether voting was stopped.
pub struct VotingContract {
    proposals: Vec<Proposal>,
    voters: Vec<(String, Voter)>,
    registry: Ghost<Map<Seq<char>, VoterView>>,
    chairperson: String,
    is_finished: bool,
}

impl VotingContract {
    /// The proposals, in their current rank order.
    pub closed spec fn proposals_view(&self) -> Seq<ProposalView> {
        self.proposals@.map_values(|p: Proposal| p@)
    }

    /// The voter registry, by identity.
    pub closed spec fn voters_view(&self) -> Map<Seq<char>, VoterView> {
        self.registry@
    }

    /// The identity allowed to give the right to vote.
    pub closed spec fn chairperson_view(&self) -> Seq<char> {
        self.chairperson@
    }

    /// Whether voting was stopped.
    pub closed spec fn finished_view(&self) -> bool {
        self.is_finished
    }

    /// The registry entries have distinct identities and are exactly the
    /// registry's map; the proposals are ranked.
    pub closed spec fn wf(&self) -> bool {
        &&& forall|a: int, b: int|
            0 <= a < b < self.voters@.len() ==> self.voters@[a].0@ != self.voters@[b].0@
        &&& forall|k: Seq<char>|
            #[trigger] self.registry@.contains_key(k) <==> exists|i: int|
                0 <= i < self.voters@.len() && self.voters@[i].0@ == k
        &&& forall|i: int|
            0 <= i < self.voters@.len() ==> #[trigger] self.registry@[self.voters@[i].0@]
                == self.voters@[i].1@
        &&& ranked(self.proposals_view())
    }

    /// Whether the first proposal called `name`, if any, can take one more
    /// vote without overflow.
    pub open spec fn has_room_for(&self, name: Seq<char>) -> bool {
        match first_named(self.proposals_view(), name) {
            Some(i) => self.proposals_view()[i].vote_count < u128::MAX,
            None => true,
        }
    }

    /// Whether `id` is registered and has already voted.
    pub open spec fn has_voted(&self, id: Seq<char>) -> bool {
        self.voters_view().contains_key(id) && self.voters_view()[id].is_voted
    }

    /// Creates the ballot: one proposal per name, in order, with no votes;
    /// `chairperson` is the identity that creates it. Fails when a ballot
    /// already exists in this instance's storage (`state_exists`).
    pub fn new(proposal_names: Vec<String>, chairperson: String, state_exists: bool) -> (r: Result<
        VotingContract,
        InitError,
    >)
        ensures
            state_exists <==> r is Err,
            match r {
                Ok(c) => {
                    &&& c.wf()
                    &&& c.proposals_view() == unvoted(proposal_names@)
                    &&& ranked(c.proposals_view())
                    &&& c.voters_view() == Map::<Seq<char>, VoterView>::empty()
                    &&& c.chairperson_view() == chairperson@
                    &&& !c.finished_view()
                },
                Err(e) => e == InitError::AlreadyInitialized,
            },
    {
        if state_exists {
            return Err(InitError::AlreadyInitialized);
        }
        let mut proposals: Vec<Proposal> = Vec::new();
        let mut i: usize = 0;
        while i < proposal_names.len()
            invariant
                i <= proposal_names.len(),
                proposals@.len() == i,
                forall|k: int|
                    0 <= k < i ==> #[trigger] proposals@[k]@ == (ProposalView {
                        name: proposal_names@[k]@,
                        vote_count: 0,
                    }),
            decreases proposal_names.len() - i,
        {
            proposals.push(Proposal { name: proposal_names[i].clone(), vote_count: 0 });
            i = i + 1;
        }
        assert(proposals@.map_values(|p: Proposal| p@) =~= unvoted(proposal_names@));
        let c = VotingContract {
            proposals,
            voters: Vec::new(),
            registry: Ghost(Map::empty()),
            chairperson,
            is_finished: false,
        };
        Ok(c)
    }

    /// Where `id` stands in the registry, if it is registered.
    fn find_voter(&self, id: &String) -> (r: Option<usize>)
        requires
            self.wf(),
        ensures
            match r {
                Some(k) => k < self.voters@.len() && self.voters@[k as int].0@ == id@,
                None => !self.voters_view().contains_key(id@),
            },
    {
        let mut k: usize = 0;
        while k < self.voters.len()
            invariant
                k <= self.voters@.len(),
                forall|m: int| 0 <= m < k ==> self.voters@[m].0@ != id@,
            decreases self.voters@.len() - k,
        {
            if self.voters[k].0 == *id {
                return Some(k);
            }
            k = k + 1;
        }
        None
    }

    /// Writes `v` as the record of `id`, in place of any earlier one.
    fn put_voter(&mut self, id: String, v: Voter)
        requires
            old(self).wf(),
        ensures
            final(self).wf(),
            final(self).voters_view() == old(self).voters_view().insert(id@, v@),
            final(self).proposals == old(self).proposals,
            final(self).chairperson == old(self).chairperson,
            final(self).is_finished == old(self).is_finished,
    {
        let ghost key = id@;
        let ghost value = v@;
        let found = self.find_voter(&id);
        match found {
            Some(k) => {
                self.voters.set(k, (id, v));
            },
            None => {
                self.voters.push((id, v));
            },
        }
        self.registry = Ghost(self.registry@.insert(key, value));
        assert forall|k: Seq<char>| #[trigger] self.registry@.contains_key(k) implies exists|i: int|
            0 <= i < self.voters@.len() && self.voters@[i].0@ == k by {
            if k == key {
                match found {
                    Some(m) => assert(self.voters@[m as int].0@ == k),
                    None => assert(self.voters@[self.voters@.len() - 1].0@ == k),
                }
            } else {
                let i = choose|i: int| 0 <= i < old(self).voters@.len() && old(self).voters@[i].0@ == k;
                assert(self.voters@[i].0@ == k);
            }
        }
    }

    /// The index of the first proposal called `name`, if there is one.
    fn position_of(&self, name: &String) -> (r: Option<usize>)
        ensures
            match r {
                Some(i) => i < self.proposals@.len() && first_named(self.proposals_view(), name@)
                    == Some(i as int),
                None => first_named(self.proposals_view(), name@) is None,
            },
    {
        let ghost s = self.proposals_view();
        let mut i: usize = 0;
        while i < self.proposals.len()
            invariant
                i <= self.proposals@.len(),
                s == self.proposals_view(),
                forall|k: int| 0 <= k < i ==> s[k].name != name@,
            decreases self.proposals@.len() - i,
        {
            if self.proposals[i].name == *name {
                assert(s[i as int].name == name@);
                let ghost f = first_named(s, name@)->Some_0;
                assert(f == i as int) by {
                    assert(!(f < i as int));
                    assert(!(i < f));
                }
                return Some(i);
            }
            i = i + 1;
        }
        None
    }

    /// Gives the proposal at `i` one more vote and moves it ahead of every
    /// proposal that now has fewer votes.
    fn promote(&mut self, i: usize)
        requires
            old(self).wf(),
            i < old(self).proposals@.len(),
            old(self).proposals@[i as int].vote_count < u128::MAX,
        ensures
            final(self).wf(),
            exists|j: int|
                0 <= j <= i && final(self).proposals_view() == promoted(
                    old(self).proposals_view(),
                    i as int,
                    j,
                ),
            final(self).voters == old(self).voters,
            final(self).registry == old(self).registry,
            final(self).chairperson == old(self).chairperson,
            final(self).is_finished == old(self).is_finished,
    {
        let ghost s = self.proposals_view();
        let mut p = self.proposals.remove(i);
        assert(p@ == s[i as int]);
        p.vote_count = p.vote_count + 1;
        let ghost rest = self.proposals_view();
        assert(rest =~= s.remove(i as int));
        assert(ranked(rest)) by {
            assert forall|a: int, b: int| 0 <= a < b < rest.len() implies rest[a].vote_count
                >= rest[b].vote_count by {
                let a0 = if a < i { a } else { a + 1 };
                let b0 = if b < i { b } else { b + 1 };
                assert(s[a0].vote_count >= s[b0].vote_count);
            }
        }
        let mut j: usize = 0;
        while j < self.proposals.len() && self.proposals[j].vote_count >= p.vote_count
            invariant
                self.voters == old(self).voters,
                self.registry == old(self).registry,
                self.chairperson == old(self).chairperson,
                self.is_finished == old(self).is_finished,
                j <= self.proposals@.len(),
                rest == self.proposals_view(),
                forall|k: int| 0 <= k < j ==> #[trigger] rest[k].vote_count >= p.vote_count,
            decreases self.proposals@.len() - j,
        {
            j = j + 1;
        }
        assert(j <= i) by {
            if j > i {
                assert(rest[i as int].vote_count >= p.vote_count);
                assert(rest[i as int] == s[i + 1]);
                assert(s[i as int].vote_count >= s[i + 1].vote_count);
            }
        }
        let ghost moved = p@;
        self.proposals.insert(j, p);
        assert(self.proposals_view() =~= rest.insert(j as int, moved));
        assert(self.proposals_view() == promoted(s, i as int, j as int));
        let ghost r = self.proposals_view();
        assert forall|a: int, b: int| 0 <= a < b < r.len() implies r[a].vote_count >= r[b].vote_count by {
            if b < j {
            } else if b == j {
                assert(rest[a].vote_count >= moved.vote_count);
            } else if a < j {
                assert(rest[a].vote_count >= moved.vote_count);
                assert(rest[j as int].vote_count < moved.vote_count);
            } else if a == j {
                assert(rest[j as int].vote_count < moved.vote_count);
                assert(rest[j as int].vote_count >= rest[b - 1].vote_count);
            } else {
                assert(rest[a - 1].vote_count >= rest[b - 1].vote_count);
            }
        }
        assert(ranked(r));
        assert(self.voters == old(self).voters);
        assert(self.wf());
    }

    /// Records a vote from `caller` for the proposal called `proposal_id`.
    ///
    /// The caller's record is rewritten as voted, whether or not it existed.
    /// Only a caller that had not voted before moves the tally: the first
    /// proposal with that name gains one vote and the proposals are ranked
    /// again. A name that no proposal has changes no count.
    pub fn vote(&mut self, caller: String, proposal_id: String)
        requires
            old(self).wf(),
            old(self).has_room_for(proposal_id@),
        ensures
            final(self).wf(),
            ranked(final(self).proposals_view()),
            vote_step(*old(self), *final(self), caller@, proposal_id@),
    {
        let prior = self.find_voter(&caller);
        let already = match prior {
            Some(k) => self.voters[k].1.is_voted,
            None => false,
        };
        let record = Voter::fresh(true, caller.clone());
        self.put_voter(caller, record);
        if !already {
            let found = self.position_of(&proposal_id);
            match found {
                Some(i) => self.promote(i),
                None => {},
            }
        }
    }

    /// Gives `voter_id` the right to vote, when `caller` is the chairperson:
    /// its record becomes a fresh, unvoted one delegated to the caller,
    /// replacing any earlier record. From anyone else the call changes
    /// nothing.
    pub fn give_right_to_vote(&mut self, caller: String, voter_id: String)
        requires
            old(self).wf(),
        ensures
            final(self).wf(),
            final(self).voters_view() == if caller@ == old(self).chairperson_view() {
                old(self).voters_view().insert(voter_id@, voter_record(false, caller@))
            } else {
                old(self).voters_view()
            },
            final(self).proposals_view() == old(self).proposals_view(),
            final(self).chairperson_view() == old(self).chairperson_view(),
            final(self).finished_view() == old(self).finished_view(),
    {
        if caller == self.chairperson {
            let record = Voter::fresh(false, caller);
            self.put_voter(voter_id, record);
        }
    }

    /// Marks voting as finished, whoever asks; nothing else changes.
    pub fn stop_voting(&mut self)
        requires
            old(self).wf(),
        ensures
            final(self).wf(),
            final(self).finished_view(),
            final(self).proposals_view() == old(self).proposals_view(),
            final(self).voters_view() == old(self).voters_view(),
            final(self).chairperson_view() == old(self).chairperson_view(),
    {
        self.is_finished = true;
        assert(self.voters == old(self).voters);
        assert(self.registry == old(self).registry);
        assert(self.proposals == old(self).proposals);
        assert(ranked(self.proposals_view()));
    }

    /// A copy of every proposal, in rank order.
    pub fn winning_proposal(&self) -> (r: Vec<Proposal>)
        ensures
            r@.map_values(|p: Proposal| p@) == self.proposals_view(),
    {
        let mut winning: Vec<Proposal> = Vec::new();
        let mut i: usize = 0;
        while i < self.proposals.len()
            invariant
                i <= self.proposals@.len(),
                winning@.len() == i,
                forall|k: int| 0 <= k < i ==> #[trigger] winning@[k]@ == self.proposals@[k]@,
            decreases self.proposals@.len() - i,
        {
            winning.push(self.proposals[i].duplicate());
            i = i + 1;
        }
        assert(winning@.map_values(|p: Proposal| p@) =~= self.proposals_view());
        winning
    }

    /// A copy of the first proposal called `name`, or `None` when no
    /// proposal has that name.
    pub fn check_votes(&self, name: String) -> (r: Option<Proposal>)
        ensures
            match first_named(self.proposals_view(), name@) {
                Some(i) => r is Some && r->Some_0@ == self.proposals_view()[i],
                None => r is None,
            },
    {
        match self.position_of(&name) {
            Some(i) => Some(self.proposals[i].duplicate()),
            None => None,
        }
    }

    /// The record of `id`, if it has one.
    pub fn voter(&self, id: &String) -> (r: Option<&Voter>)
        requires
            self.wf(),
        ensures
            match r {
                Some(v) => self.voters_view().contains_key(id@) && v@ == self.voters_view()[id@],
                None => !self.voters_view().contains_key(id@),
            },
    {
        match self.find_voter(id) {
            Some(k) => Some(&self.voters[k].1),
            None => None,
        }
    }

    /// The identity that created the ballot.
    pub fn chairperson(&self) -> (r: &String)
        ensures
            r@ == self.chairperson_view(),
    {
        &self.chairperson
    }

    /// Whether voting was stopped.
    pub fn is_finished(&self) -> (r: bool)
        ensures
            r == self.finished_view(),
    {
        self.is_finished
    }

    /// Rebuilds a ballot from its parts, as they were stored: `None` when the
    /// proposals are not ranked or two registry entries share an identity.
    pub fn from_parts(
        proposals: Vec<Proposal>,
        voters: Vec<(String, Voter)>,
        chairperson: String,
        is_finished: bool,
    ) -> (r: Option<VotingContract>)
        ensures
            r is Some <==> ranked(proposals@.map_values(|p: Proposal| p@)) && distinct_ids(voters@),
            match r {
                Some(c) => {
                    &&& c.wf()
                    &&& c.proposals_view() == proposals@.map_values(|p: Proposal| p@)
                    &&& forall|i: int|
                        0 <= i < voters@.len() ==> c.voters_view().contains_key(#[trigger] voters@[i].0@)
                            && c.voters_view()[voters@[i].0@] == voters@[i].1@
                    &&& forall|k: Seq<char>|
                        #[trigger] c.voters_view().contains_key(k) ==> exists|i: int|
                            0 <= i < voters@.len() && voters@[i].0@ == k
                    &&& c.chairperson_view() == chairperson@
                    &&& c.finished_view() == is_finished
                },
                None => true,
            },
    {
        let ghost s = proposals@.map_values(|p: Proposal| p@);
        let mut i: usize = 1;
        while i < proposals.len()
            invariant
                1 <= i,
                s == proposals@.map_values(|p: Proposal| p@),
                forall|a: int, b: int| 0 <= a < b < i && b < s.len() ==> s[a].vote_count >= s[b].vote_count,
            decreases proposals@.len() - i,
        {
            if proposals[i - 1].vote_count < proposals[i].vote_count {
                assert(!ranked(s)) by {
                    assert(s[i - 1].vote_count < s[i as int].vote_count);
                }
                return None;
            }
            assert forall|a: int, b: int| 0 <= a < b < i + 1 && b < s.len() implies s[a].vote_count
                >= s[b].vote_count by {
                if b == i && a < i - 1 {
                    assert(s[a].vote_count >= s[i - 1].vote_count);
                }
            }
            i = i + 1;
        }
        let mut c = VotingContract {
            proposals,
            voters: Vec::new(),
            registry: Ghost(Map::empty()),
            chairperson,
            is_finished,
        };
        let mut n: usize = 0;
        while n < voters.len()
            invariant
                n <= voters@.len(),
                c.wf(),
                c.proposals_view() == s,
                ranked(s),
                c.chairperson_view() == chairperson@,
                c.finished_view() == is_finished,
                distinct_ids(voters@.take(n as int)),
                forall|m: int|
                    0 <= m < n ==> c.voters_view().contains_key(#[trigger] voters@[m].0@)
                        && c.voters_view()[voters@[m].0@] == voters@[m].1@,
                forall|k: Seq<char>|
                    #[trigger] c.voters_view().contains_key(k) ==> exists|m: int|
                        0 <= m < n && voters@[m].0@ == k,
            decreases voters@.len() - n,
        {
            let id = voters[n].0.clone();
            let seen = c.find_voter(&id);
            if let Some(k) = seen {
                assert(c.voters@[k as int].0@ == id@);
                assert(c.voters_view().contains_key(id@));
                assert(id@ == voters@[n as int].0@);
                assert(!distinct_ids(voters@)) by {
                    let m = choose|m: int| 0 <= m < n && voters@[m].0@ == id@;
                    assert(voters@[m].0@ == voters@[n as int].0@);
                }
                return None;
            }
            let record = voters[n].1.duplicate();
            c.put_voter(id, record);
            assert(voters@.take(n + 1) =~= voters@.take(n as int).push(voters@[n as int]));
            n = n + 1;
        }
        assert(voters@.take(n as int) =~= voters@);
        Some(c)
    }
}

} // verus!
