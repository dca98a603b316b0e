use sorosim::address::Addr;
use sorosim::voting::{Proposal, ProposalStatus, VotingContract, VotingError};

fn addr(s: &str) -> Addr {
    Addr::new(s.to_string())
}

fn or_panic<T>(r: Result<T, VotingError>) -> T {
    match r {
        Ok(v) => v,
        Err(e) => panic!("{}", e.message()),
    }
}

#[test]
fn test_create_proposal() {
    let mut client = VotingContract::new();
    let creator = addr("creator");
    let now = 0;
    let deadline = now + 1000;
    let proposal_id = client.create_proposal(creator, "Test".to_string(), deadline);

    assert_eq!(proposal_id, 0);
    assert_eq!(client.total_proposals(), 1);

    let proposal = or_panic(client.get_proposal(proposal_id));
    assert_eq!(proposal.id, 0);
    assert_eq!(proposal.yes_votes, 0);
    assert_eq!(proposal.no_votes, 0);
    assert_eq!(proposal.finalized, false);
}

#[test]
fn test_vote_yes() {
    let mut client = VotingContract::new();
    let now = 0;
    let deadline = now + 1000;
    let proposal_id = client.create_proposal(addr("creator"), "Test".to_string(), deadline);

    or_panic(client.vote(proposal_id, &addr("voter"), true, now));

    let (yes, no) = or_panic(client.get_tally(proposal_id));
    assert_eq!(yes, 1);
    assert_eq!(no, 0);
}

#[test]
fn test_vote_no() {
    let mut client = VotingContract::new();
    let now = 0;
    let deadline = now + 1000;
    let proposal_id = client.create_proposal(addr("creator"), "Test".to_string(), deadline);

    or_panic(client.vote(proposal_id, &addr("voter"), false, now));

    let (yes, no) = or_panic(client.get_tally(proposal_id));
    assert_eq!(yes, 0);
    assert_eq!(no, 1);
}

#[test]
fn test_multiple_votes() {
    let mut client = VotingContract::new();
    let now = 0;
    let deadline = now + 1000;
    let proposal_id = client.create_proposal(addr("creator"), "Test".to_string(), deadline);

    for i in 0..3 {
        let voter = addr(&format!("yes-voter-{}", i));
        or_panic(client.vote(proposal_id, &voter, true, now));
    }
    for i in 0..2 {
        let voter = addr(&format!("no-voter-{}", i));
        or_panic(client.vote(proposal_id, &voter, false, now));
    }

    let (yes, no) = or_panic(client.get_tally(proposal_id));
    assert_eq!(yes, 3);
    assert_eq!(no, 2);
}

#[test]
#[should_panic(expected = "already voted")]
fn test_double_vote() {
    let mut client = VotingContract::new();
    let now = 0;
    let deadline = now + 1000;
    let proposal_id = client.create_proposal(addr("creator"), "Test".to_string(), deadline);
    let voter = addr("voter");

    or_panic(client.vote(proposal_id, &voter, true, now));
    or_panic(client.vote(proposal_id, &voter, false, now));
}

#[test]
fn test_has_voted() {
    let mut client = VotingContract::new();
    let now = 0;
    let deadline = now + 1000;
    let proposal_id = client.create_proposal(addr("creator"), "Test".to_string(), deadline);
    let voter = addr("voter");
    let non_voter = addr("non-voter");

    assert_eq!(client.has_voted(proposal_id, &voter), false);
    or_panic(client.vote(proposal_id, &voter, true, now));
    assert_eq!(client.has_voted(proposal_id, &voter), true);
    assert_eq!(client.has_voted(proposal_id, &non_voter), false);
}

fn proposal_with_votes(yes: u32, no: u32) -> (VotingContract, u64) {
    let mut client = VotingContract::new();
    let deadline = 200;
    let proposal_id = client.create_proposal(addr("creator"), "Test".to_string(), deadline);
    for i in 0..yes {
        or_panic(client.vote(proposal_id, &addr(&format!("y{}", i)), true, 100));
    }
    for i in 0..no {
        or_panic(client.vote(proposal_id, &addr(&format!("n{}", i)), false, 100));
    }
    (client, proposal_id)
}

#[test]
fn test_finalize_passed() {
    let (mut client, proposal_id) = proposal_with_votes(3, 1);
    or_panic(client.finalize(proposal_id, 201));
    assert_eq!(or_panic(client.is_finalized(proposal_id)), true);
    assert_eq!(or_panic(client.get_status(proposal_id)), ProposalStatus::Passed);
}

#[test]
fn test_finalize_rejected() {
    let (mut client, proposal_id) = proposal_with_votes(1, 3);
    or_panic(client.finalize(proposal_id, 201));
    assert_eq!(or_panic(client.get_status(proposal_id)), ProposalStatus::Rejected);
}

#[test]
fn test_finalize_tied() {
    let (mut client, proposal_id) = proposal_with_votes(2, 2);
    or_panic(client.finalize(proposal_id, 201));
    assert_eq!(or_panic(client.get_status(proposal_id)), ProposalStatus::Tied);
}

#[test]
#[should_panic(expected = "voting period not ended")]
fn test_finalize_before_deadline() {
    let mut client = VotingContract::new();
    let deadline = 200;
    let proposal_id = client.create_proposal(addr("creator"), "Test".to_string(), deadline);
    or_panic(client.finalize(proposal_id, 100));
}

#[test]
#[should_panic(expected = "proposal already finalized")]
fn test_vote_after_finalize() {
    let mut client = VotingContract::new();
    let deadline = 200;
    let proposal_id = client.create_proposal(addr("creator"), "Test".to_string(), deadline);
    or_panic(client.finalize(proposal_id, 201));
    or_panic(client.vote(proposal_id, &addr("voter"), true, 201));
}

#[test]
fn voting_late_vote_refused() {
    let mut client = VotingContract::new();
    let proposal_id = client.create_proposal(addr("creator"), "Test".to_string(), 200);
    assert_eq!(client.vote(proposal_id, &addr("v"), true, 201), Err(VotingError::VotingEnded));
    assert_eq!(client.vote(7, &addr("v"), true, 0), Err(VotingError::ProposalNotFound));
    assert!(matches!(client.get_proposal(7), Err(VotingError::ProposalNotFound)));
}

#[test]
fn voting_double_finalize_refused() {
    let (mut client, proposal_id) = proposal_with_votes(1, 0);
    assert_eq!(client.finalize(proposal_id, 300), Ok(()));
    assert_eq!(client.finalize(proposal_id, 301), Err(VotingError::AlreadyFinalized));
    assert_eq!(client.finalize(9, 301), Err(VotingError::ProposalNotFound));
}

#[test]
fn voting_ballots_are_per_proposal() {
    let mut client = VotingContract::new();
    let p0 = client.create_proposal(addr("c"), "A".to_string(), 50);
    let p1 = client.create_proposal(addr("c"), "B".to_string(), 50);
    let voter = addr("voter");
    assert_eq!(client.vote(p0, &voter, true, 10), Ok(()));
    assert_eq!(client.vote(p1, &voter, false, 10), Ok(()));
    assert_eq!(client.get_tally(p0), Ok((1, 0)));
    assert_eq!(client.get_tally(p1), Ok((0, 1)));
    assert_eq!(client.get_proposal(p1).unwrap().description, "B");
}

fn stored(id: u64, yes_votes: u64, no_votes: u64) -> Proposal {
    Proposal {
        id,
        description: "budget".to_string(),
        creator: addr("creator"),
        yes_votes,
        no_votes,
        deadline: 100,
        status: ProposalStatus::Active,
        finalized: false,
    }
}

#[test]
fn voting_restore_rebuilds_tallies_from_ballots() {
    let ballots = vec![(0, addr("a"), true), (0, addr("b"), false), (1, addr("a"), true)];
    let mut v = VotingContract::restore(vec![stored(0, 1, 1), stored(1, 1, 0)], ballots).unwrap();
    assert_eq!(v.total_proposals(), 2);
    assert!(v.has_voted(0, &addr("a")));
    assert!(!v.has_voted(1, &addr("b")));
    assert_eq!(v.vote(0, &addr("a"), false, 10), Err(VotingError::AlreadyVoted));
    assert_eq!(v.vote(0, &addr("c"), true, 10), Ok(()));
    assert_eq!(v.get_tally(0), Ok((2, 1)));
}

#[test]
fn voting_restore_refuses_inconsistent_records() {
    assert!(VotingContract::restore(vec![stored(0, 2, 0)], vec![(0, addr("a"), true)]).is_none());
    assert!(VotingContract::restore(
        vec![stored(0, 2, 0)],
        vec![(0, addr("a"), true), (0, addr("a"), true)]
    )
    .is_none());
    assert!(VotingContract::restore(vec![stored(0, 0, 0)], vec![(1, addr("a"), true)]).is_none());
    assert!(VotingContract::restore(vec![stored(1, 0, 0)], vec![]).is_none());
    assert!(VotingContract::restore(vec![], vec![]).is_some());
}
