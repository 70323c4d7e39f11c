use dao_2::addr::Addr;
use dao_2::dao::Dao;
use dao_2::errors::DaoError;
use dao_2::proposal::{ProposalStatus, ProposalType};

fn vt_addr(tag: u8) -> Addr {
    Addr([tag; 32])
}

fn vt_dao() -> Dao {
    Dao::initialize(
        vt_addr(9),
        7,
        vec![vt_addr(1)],
        1,
        1000,
        5,
        1_000_000,
        0,
        0,
        1_000_000,
        0,
        3,
        0,
        10,
        10,
        10,
    )
    .unwrap()
}

fn vt_setup() -> (Dao, Addr) {
    let mut d = vt_dao();
    let alice = vt_addr(11);
    d.init_stake(&alice).unwrap();
    d.stake_tokens(&alice, 1000).unwrap();
    d.create_proposal(
        &alice,
        1,
        b"n".to_vec(),
        b"g".to_vec(),
        ProposalType::Vote,
        50,
        10_000,
        1000,
        3,
        &b"treasury".to_vec(),
        0,
    )
    .unwrap();
    (d, alice)
}

#[test]
fn zero_amount_vote_is_rejected_without_mutation() {
    let (mut d, alice) = vt_setup();
    let votes_before = d.proposals[0].votes;
    let records_before = d.votes.len();
    assert_eq!(d.vote(&alice, 1, 0, 0, 1), Err(DaoError::InvalidVoteAmount));
    assert_eq!(d.proposals[0].votes, votes_before);
    assert_eq!(d.votes.len(), records_before);
    assert_eq!(d.stakes[0].state.committed, 0);
}

#[test]
fn second_vote_on_same_pair_is_a_double_vote() {
    let (mut d, alice) = vt_setup();
    d.vote(&alice, 1, 10, 0, 1).unwrap();
    assert_eq!(d.vote(&alice, 1, 5, 1, 2), Err(DaoError::DoubleVote));
    // exactly one record exists for the pair, and the tally kept the first amount
    assert_eq!(d.votes.len(), 1);
    assert_eq!(d.proposals[0].votes, 10);
}

#[test]
fn tally_equals_sum_of_choices() {
    let (mut d, alice) = vt_setup();
    let bob = vt_addr(12);
    let carol = vt_addr(13);
    d.init_stake(&bob).unwrap();
    d.stake_tokens(&bob, 500).unwrap();
    d.init_stake(&carol).unwrap();
    d.stake_tokens(&carol, 500).unwrap();
    d.vote(&alice, 1, 60, 0, 1).unwrap();
    d.vote(&bob, 1, 10, 1, 1).unwrap();
    d.vote(&carol, 1, 5, 2, 1).unwrap();
    let p = &d.proposals[0];
    assert_eq!(p.votes, 75);
    assert_eq!(p.vote_counts[0] + p.vote_counts[1] + p.vote_counts[2], 75);
}

#[test]
fn invalid_choice_is_rejected() {
    let (mut d, alice) = vt_setup();
    assert_eq!(d.vote(&alice, 1, 10, 3, 1), Err(DaoError::InvalidChoice));
}

#[test]
fn expired_proposal_rejects_votes() {
    let (mut d, alice) = vt_setup();
    assert_eq!(d.vote(&alice, 1, 10, 0, 5000), Err(DaoError::Expired));
}

#[test]
fn vote_beyond_free_stake_is_rejected() {
    let (mut d, alice) = vt_setup();
    assert_eq!(
        d.vote(&alice, 1, 1001, 0, 1),
        Err(DaoError::InsufficientStake)
    );
    d.vote(&alice, 1, 900, 0, 1).unwrap();
    // the committed amount is held, so a second proposal sees only 100 free
    d.create_proposal(
        &alice,
        2,
        b"n".to_vec(),
        b"g".to_vec(),
        ProposalType::Vote,
        50,
        10_000,
        1000,
        3,
        &b"treasury".to_vec(),
        1,
    )
    .unwrap();
    assert_eq!(
        d.vote(&alice, 2, 101, 0, 2),
        Err(DaoError::InsufficientStake)
    );
    d.vote(&alice, 2, 100, 0, 2).unwrap();
}

#[test]
fn vote_on_missing_proposal() {
    let (mut d, alice) = vt_setup();
    assert_eq!(d.vote(&alice, 99, 10, 0, 1), Err(DaoError::ProposalNotFound));
}

#[test]
fn removing_a_vote_restores_tally_and_hold() {
    let (mut d, alice) = vt_setup();
    d.vote(&alice, 1, 60, 0, 1).unwrap();
    assert_eq!(d.stakes[0].state.committed, 60);
    assert_eq!(d.stakes[0].state.accounts, 1);
    d.remove_vote(&alice, 1, 2).unwrap();
    assert_eq!(d.proposals[0].votes, 0);
    assert_eq!(d.proposals[0].vote_counts[0], 0);
    assert_eq!(d.stakes[0].state.committed, 0);
    assert_eq!(d.stakes[0].state.accounts, 0);
    assert!(d.votes.is_empty());
    // the pair is free again
    d.vote(&alice, 1, 30, 1, 3).unwrap();
}

#[test]
fn removing_a_vote_after_settlement_is_rejected() {
    let mut d = vt_dao();
    let alice = vt_addr(11);
    d.init_stake(&alice).unwrap();
    d.stake_tokens(&alice, 1000).unwrap();
    d.create_proposal(
        &alice,
        1,
        b"n".to_vec(),
        b"g".to_vec(),
        ProposalType::Vote,
        50,
        100,
        1000,
        3,
        &b"treasury".to_vec(),
        0,
    )
    .unwrap();
    d.vote(&alice, 1, 120, 0, 1).unwrap();
    assert_eq!(d.proposals[0].result, ProposalStatus::Succeeded);
    assert_eq!(
        d.remove_vote(&alice, 1, 2),
        Err(DaoError::InvalidProposalStatus)
    );
}

#[test]
fn against_meeting_quorum_fails_the_proposal() {
    let (mut d, alice) = vt_setup();
    let bob = vt_addr(12);
    d.init_stake(&bob).unwrap();
    d.stake_tokens(&bob, 1000).unwrap();
    d.vote(&alice, 1, 100, 0, 1).unwrap();
    assert_eq!(d.proposals[0].result, ProposalStatus::Open);
    // against = 300 >= 50% of the basis (400), well before expiry
    d.vote(&bob, 1, 300, 1, 2).unwrap();
    assert_eq!(d.proposals[0].result, ProposalStatus::Failed);
}

#[test]
fn zero_quorum_requirement_cannot_fail_by_against() {
    // the against arm fires only on a positive requirement: with quorum 0%
    // the proposal can fail by expiry alone
    let mut d = vt_dao();
    let alice = vt_addr(11);
    d.init_stake(&alice).unwrap();
    d.stake_tokens(&alice, 1000).unwrap();
    d.create_proposal(
        &alice,
        1,
        b"n".to_vec(),
        b"g".to_vec(),
        ProposalType::Vote,
        0, // quorum 0%
        10_000,
        1000,
        3,
        &b"treasury".to_vec(),
        0,
    )
    .unwrap();
    d.vote(&alice, 1, 5, 1, 1).unwrap();
    assert_eq!(d.proposals[0].result, ProposalStatus::Open);
}

#[test]
fn quorum_requirement_is_truncated() {
    // threshold 3, quorum 51%: basis = 3 - 1 = 2, and 51% of 2 truncates
    // to 1, so a for-tally of 2 meets it; no remainder is credited
    let mut d = vt_dao();
    let alice = vt_addr(11);
    let bob = vt_addr(12);
    d.init_stake(&alice).unwrap();
    d.stake_tokens(&alice, 10).unwrap();
    d.init_stake(&bob).unwrap();
    d.stake_tokens(&bob, 10).unwrap();
    d.create_proposal(
        &alice,
        1,
        b"n".to_vec(),
        b"g".to_vec(),
        ProposalType::Vote,
        51,
        3,
        1000,
        3,
        &b"treasury".to_vec(),
        0,
    )
    .unwrap();
    d.vote(&alice, 1, 1, 2, 1).unwrap(); // abstain
    assert_eq!(d.proposals[0].result, ProposalStatus::Open);
    d.vote(&bob, 1, 2, 0, 1).unwrap(); // for
    assert_eq!(d.proposals[0].result, ProposalStatus::Succeeded);
}

#[test]
fn cleanup_vote_waits_for_terminal_state() {
    let (mut d, alice) = vt_setup();
    d.vote(&alice, 1, 60, 0, 1).unwrap();
    assert_eq!(
        d.cleanup_vote(&alice, 1, 2),
        Err(DaoError::InvalidProposalStatus)
    );
    // after expiry the proposal settles to Failed on this touch
    d.cleanup_vote(&alice, 1, 5000).unwrap();
    assert_eq!(d.proposals[0].result, ProposalStatus::Failed);
    assert_eq!(d.stakes[0].state.committed, 0);
    assert_eq!(d.stakes[0].state.accounts, 0);
    assert!(d.votes.is_empty());
    // the tallies survive the record cleanup
    assert_eq!(d.proposals[0].votes, 60);
}

#[test]
fn cleanup_vote_after_proposal_cleanup() {
    let (mut d, alice) = vt_setup();
    d.vote(&alice, 1, 60, 0, 1).unwrap();
    d.cleanup_proposal(1, &b"treasury".to_vec(), 5000).unwrap();
    assert!(d.proposals.is_empty());
    d.cleanup_vote(&alice, 1, 5001).unwrap();
    assert_eq!(d.stakes[0].state.committed, 0);
    assert!(d.votes.is_empty());
}
