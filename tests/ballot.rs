use voting_contract::{InitError, VotingContract};

const CHAIR: &str = "alice.testnet";

fn s(x: &str) -> String {
    x.to_string()
}

fn ballot(names: &[&str]) -> VotingContract {
    let names: Vec<String> = names.iter().map(|n| s(n)).collect();
    match VotingContract::new(names, s(CHAIR), false) {
        Ok(c) => c,
        Err(_) => panic!("a fresh ballot is created"),
    }
}

fn ranking(c: &VotingContract) -> Vec<(String, u128)> {
    c.winning_proposal().iter().map(|p| (p.name.clone(), p.vote_count)).collect()
}

#[test]
fn start_vote() {
    let contract = ballot(&["alice", "bob"]);
    let res = contract.check_votes(s("alice"));
    let p = res.expect("alice is a proposal");
    assert_eq!(p.name, "alice");
    assert_eq!(p.vote_count, 0);
}

#[test]
fn give_right_to_vote() {
    let mut contract = ballot(&["alice", "bob"]);
    // mike is not the chairperson: the authorisation is ignored, and his vote
    // still counts because a first vote registers the caller.
    contract.give_right_to_vote(s("mike.testnet"), s("mike.testnet"));
    assert!(contract.voter(&s("mike.testnet")).is_none());
    contract.vote(s("mike.testnet"), s("alice"));
    let res = contract.check_votes(s("alice"));
    assert_eq!(res.expect("alice is a proposal").vote_count, 1);
}

#[test]
fn fresh_ballot_lists_names_in_order_without_votes() {
    let c = ballot(&["alice", "bob"]);
    assert_eq!(ranking(&c), vec![(s("alice"), 0), (s("bob"), 0)]);
    assert_eq!(c.chairperson(), CHAIR);
    assert!(!c.is_finished());
}

#[test]
fn empty_ballot_has_no_proposals() {
    let c = ballot(&[]);
    assert!(c.winning_proposal().is_empty());
    assert!(c.check_votes(s("alice")).is_none());
}

#[test]
fn second_initialisation_fails() {
    let r = VotingContract::new(vec![s("alice"), s("bob")], s(CHAIR), true);
    assert!(matches!(r, Err(InitError::AlreadyInitialized)));
}

#[test]
fn unauthorised_grant_changes_nothing() {
    let mut c = ballot(&["alice", "bob"]);
    c.give_right_to_vote(s("robert.testnet"), s("mike.testnet"));
    assert!(c.voter(&s("mike.testnet")).is_none());
    assert!(c.voter(&s("robert.testnet")).is_none());
}

#[test]
fn chairperson_grant_registers_unvoted_voter() {
    let mut c = ballot(&["alice", "bob"]);
    c.give_right_to_vote(s(CHAIR), s("mike.testnet"));
    let v = c.voter(&s("mike.testnet")).expect("mike is registered");
    assert_eq!(v.weight, 1);
    assert!(!v.is_voted);
    assert_eq!(v.delegated_to, CHAIR);
    assert_eq!(v.vote, 1);
}

#[test]
fn first_vote_adds_one_and_reranks() {
    let mut c = ballot(&["alice", "bob"]);
    c.vote(s("mike.testnet"), s("bob"));
    assert_eq!(ranking(&c), vec![(s("bob"), 1), (s("alice"), 0)]);
    let v = c.voter(&s("mike.testnet")).expect("mike is registered");
    assert!(v.is_voted);
    assert_eq!(v.delegated_to, "mike.testnet");
}

#[test]
fn second_vote_changes_no_count() {
    let mut c = ballot(&["alice", "bob"]);
    c.vote(s("mike.testnet"), s("bob"));
    c.vote(s("mike.testnet"), s("alice"));
    c.vote(s("mike.testnet"), s("bob"));
    assert_eq!(ranking(&c), vec![(s("bob"), 1), (s("alice"), 0)]);
    assert!(c.voter(&s("mike.testnet")).expect("registered").is_voted);
}

#[test]
fn vote_for_unknown_name_changes_no_count() {
    let mut c = ballot(&["alice", "bob"]);
    c.vote(s("mike.testnet"), s("carol"));
    assert_eq!(ranking(&c), vec![(s("alice"), 0), (s("bob"), 0)]);
    assert!(c.voter(&s("mike.testnet")).expect("registered").is_voted);
}

#[test]
fn check_votes_reports_absence_and_live_count() {
    let mut c = ballot(&["alice", "bob"]);
    assert!(c.check_votes(s("carol")).is_none());
    c.vote(s("mike.testnet"), s("bob"));
    c.vote(s("robert.testnet"), s("bob"));
    let p = c.check_votes(s("bob")).expect("bob is a proposal");
    assert_eq!((p.name, p.vote_count), (s("bob"), 2));
}

#[test]
fn end_to_end_mike_votes_alice() {
    let mut c = ballot(&["alice", "bob"]);
    c.give_right_to_vote(s(CHAIR), s("mike"));
    c.vote(s("mike"), s("alice"));
    assert_eq!(c.check_votes(s("alice")).expect("alice").vote_count, 1);
    let r = ranking(&c);
    assert_eq!(r[0].0, "alice");
    assert_eq!(r[1].0, "bob");
}

#[test]
fn promoted_proposal_passes_those_with_fewer_votes_only() {
    let mut c = ballot(&["a", "b", "c"]);
    c.vote(s("v1"), s("a"));
    c.vote(s("v2"), s("a"));
    c.vote(s("v3"), s("b"));
    assert_eq!(ranking(&c), vec![(s("a"), 2), (s("b"), 1), (s("c"), 0)]);
    c.vote(s("v4"), s("c"));
    assert_eq!(ranking(&c), vec![(s("a"), 2), (s("b"), 1), (s("c"), 1)]);
    c.vote(s("v5"), s("c"));
    assert_eq!(ranking(&c), vec![(s("a"), 2), (s("c"), 2), (s("b"), 1)]);
    c.vote(s("v6"), s("c"));
    assert_eq!(ranking(&c), vec![(s("c"), 3), (s("a"), 2), (s("b"), 1)]);
}

#[test]
fn duplicate_names_first_match_wins() {
    let mut c = ballot(&["x", "y", "x"]);
    c.vote(s("v1"), s("x"));
    assert_eq!(ranking(&c), vec![(s("x"), 1), (s("y"), 0), (s("x"), 0)]);
    c.vote(s("v2"), s("y"));
    assert_eq!(ranking(&c), vec![(s("x"), 1), (s("y"), 1), (s("x"), 0)]);
    assert_eq!(c.check_votes(s("x")).expect("x").vote_count, 1);
}

#[test]
fn reauthorisation_resets_voted_flag() {
    let mut c = ballot(&["alice", "bob"]);
    c.give_right_to_vote(s(CHAIR), s("mike"));
    c.vote(s("mike"), s("alice"));
    c.give_right_to_vote(s(CHAIR), s("mike"));
    assert!(!c.voter(&s("mike")).expect("registered").is_voted);
    c.vote(s("mike"), s("alice"));
    assert_eq!(c.check_votes(s("alice")).expect("alice").vote_count, 2);
}

#[test]
fn stop_voting_sets_flag_for_any_caller_and_keeps_tally() {
    let mut c = ballot(&["alice", "bob"]);
    c.vote(s("mike"), s("bob"));
    c.stop_voting();
    assert!(c.is_finished());
    assert_eq!(ranking(&c), vec![(s("bob"), 1), (s("alice"), 0)]);
}

fn proposal(name: &str, vote_count: u128) -> voting_contract::Proposal {
    voting_contract::Proposal { name: s(name), vote_count }
}

fn record(is_voted: bool, authority: &str) -> voting_contract::Voter {
    voting_contract::Voter { weight: 1, is_voted, delegated_to: s(authority), vote: 1 }
}

#[test]
fn rebuilt_ballot_keeps_its_parts() {
    let c = VotingContract::from_parts(
        vec![proposal("bob", 2), proposal("alice", 1)],
        vec![(s("mike"), record(true, "mike")), (s("jane"), record(false, CHAIR))],
        s(CHAIR),
        true,
    )
    .expect("consistent parts");
    assert_eq!(ranking(&c), vec![(s("bob"), 2), (s("alice"), 1)]);
    assert!(c.voter(&s("mike")).expect("mike").is_voted);
    assert_eq!(c.voter(&s("jane")).expect("jane").delegated_to, CHAIR);
    assert!(c.voter(&s("robert")).is_none());
    assert_eq!(c.chairperson(), CHAIR);
    assert!(c.is_finished());
}

#[test]
fn rebuilt_ballot_needs_ranked_proposals() {
    let r = VotingContract::from_parts(vec![proposal("alice", 0), proposal("bob", 1)], vec![], s(CHAIR), false);
    assert!(r.is_none());
}

#[test]
fn rebuilt_ballot_needs_distinct_voters() {
    let r = VotingContract::from_parts(
        vec![proposal("alice", 0)],
        vec![(s("mike"), record(true, "mike")), (s("mike"), record(false, CHAIR))],
        s(CHAIR),
        false,
    );
    assert!(r.is_none());
}

#[test]
fn rebuilt_ballot_votes_like_the_original() {
    let mut c = VotingContract::from_parts(
        vec![proposal("alice", 1), proposal("bob", 1)],
        vec![(s("mike"), record(true, "mike"))],
        s(CHAIR),
        false,
    )
    .expect("consistent parts");
    c.vote(s("mike"), s("bob"));
    assert_eq!(ranking(&c), vec![(s("alice"), 1), (s("bob"), 1)]);
    c.vote(s("jane"), s("bob"));
    assert_eq!(ranking(&c), vec![(s("bob"), 2), (s("alice"), 1)]);
}
