//! A ballot over a fixed set of named proposals: voters are authorised by a
//! chairperson, each voter's first vote counts once, and the proposals are
//! kept ranked by descending vote count.

mod ballot;
mod laws;
mod records;

pub use ballot::{distinct_ids, first_named, promoted, ranked, unvoted, vote_step, InitError, VotingContract};
pub use laws::{lemma_first_vote_adds_one, lemma_second_vote_keeps_counts, lemma_unknown_name_keeps_counts};
pub use records::voter_record;
pub use records::{Proposal, ProposalView, Voter, VoterView};
