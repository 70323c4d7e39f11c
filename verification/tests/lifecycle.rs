use dao_2::addr::Addr;
use dao_2::dao::{Dao, ExecutionAction};
use dao_2::errors::DaoError;
use dao_2::proposal::{ProposalStatus, ProposalType};

fn lc_addr(tag: u8) -> Addr {
    Addr([tag; 32])
}

fn lc_dao(prevoting_period: u64) -> Dao {
    Dao::initialize(
        lc_addr(9),
        7,
        vec![lc_addr(1), lc_addr(2)],
        1,
        1000, // issue price
        5,    // proposal fee
        1_000_000,
        0, // min quorum
        0, // min threshold
        1_000_000,
        0, // min stake
        3, // min choices
        prevoting_period,
        10,
        10,
        10,
    )
    .unwrap()
}

fn lc_staked_voter(d: &mut Dao, tag: u8, amount: u64) -> Addr {
    let who = lc_addr(tag);
    d.init_stake(&who).unwrap();
    d.stake_tokens(&who, amount).unwrap();
    who
}

fn lc_new_proposal(d: &mut Dao, proposer: &Addr, id: u64, threshold: u64, quorum: u64) {
    d.create_proposal(
        proposer,
        id,
        b"test-proposal".to_vec(),
        b"gist".to_vec(),
        ProposalType::Vote,
        quorum,
        threshold,
        1000, // expiry duration
        3,    // choices: for / against / abstain
        &b"treasury".to_vec(),
        0, // created now
    )
    .unwrap();
}

#[test]
fn below_threshold_and_expired_fails() {
    // threshold=100, quorum=50%, for=60, against=10, abstain=5: total 75 < 100,
    // and the clock shows expired, so the proposal settles to Failed.
    let mut d = lc_dao(0);
    let alice = lc_staked_voter(&mut d, 11, 1000);
    let bob = lc_staked_voter(&mut d, 12, 1000);
    let carol = lc_staked_voter(&mut d, 13, 1000);
    lc_new_proposal(&mut d, &alice, 1, 100, 50);
    d.vote(&alice, 1, 60, 0, 1).unwrap();
    d.vote(&bob, 1, 10, 1, 1).unwrap();
    d.vote(&carol, 1, 5, 2, 1).unwrap();
    assert_eq!(d.proposals[0].result, ProposalStatus::Open);
    // executing once expired is illegal: the proposal settles to Failed
    let e = d.execute_proposal(
        1,
        &b"treasury".to_vec(),
        &lc_addr(0),
        &Vec::new(),
        &Vec::new(),
        2000,
    );
    assert_eq!(e.unwrap_err(), DaoError::InvalidProposalStatus);
    // the first touch past expiry commits the transition to Failed
    d.cleanup_vote(&alice, 1, 2000).unwrap();
    assert_eq!(d.proposals[0].result, ProposalStatus::Failed);
    // cleanup is what a failed proposal allows
    d.cleanup_proposal(1, &b"treasury".to_vec(), 2000).unwrap();
    assert!(d.proposals.is_empty());
}

#[test]
fn threshold_and_quorum_met_succeeds() {
    // for=120, against=0, abstain=0: total 120 >= threshold 100; quorum basis
    // 120; 50% of 120 = 60 <= 120, and not expired: Succeeded in one step.
    let mut d = lc_dao(0);
    let alice = lc_staked_voter(&mut d, 11, 1000);
    lc_new_proposal(&mut d, &alice, 1, 100, 50);
    d.vote(&alice, 1, 120, 0, 1).unwrap();
    assert_eq!(d.proposals[0].result, ProposalStatus::Succeeded);
    // an advisory proposal reports its tally on execution
    let a = d
        .execute_proposal(
            1,
            &b"treasury".to_vec(),
            &lc_addr(0),
            &Vec::new(),
            &Vec::new(),
            2,
        )
        .unwrap();
    match a {
        ExecutionAction::Report {
            votes,
            quorum,
            threshold,
            result,
        } => {
            assert_eq!(votes, 120);
            assert_eq!(quorum, 50);
            assert_eq!(threshold, 100);
            assert_eq!(result, ProposalStatus::Succeeded);
        }
        _ => panic!("expected an advisory report"),
    }
    assert!(d.proposals.is_empty());
}

#[test]
fn cleanup_before_terminal_is_rejected() {
    let mut d = lc_dao(0);
    let alice = lc_staked_voter(&mut d, 11, 1000);
    lc_new_proposal(&mut d, &alice, 1, 100, 50);
    // still pre-voting / open and not expired: no premature fee recovery
    assert_eq!(
        d.cleanup_proposal(1, &b"treasury".to_vec(), 1),
        Err(DaoError::InvalidProposalStatus)
    );
    d.vote(&alice, 1, 10, 0, 1).unwrap();
    assert_eq!(
        d.cleanup_proposal(1, &b"treasury".to_vec(), 2),
        Err(DaoError::InvalidProposalStatus)
    );
}

#[test]
fn succeeded_proposal_cannot_be_cleaned_up() {
    let mut d = lc_dao(0);
    let alice = lc_staked_voter(&mut d, 11, 1000);
    lc_new_proposal(&mut d, &alice, 1, 10, 50);
    d.vote(&alice, 1, 120, 0, 1).unwrap();
    assert_eq!(d.proposals[0].result, ProposalStatus::Succeeded);
    assert_eq!(
        d.cleanup_proposal(1, &b"treasury".to_vec(), 2),
        Err(DaoError::InvalidProposalStatus)
    );
}

#[test]
fn prevoting_gate_blocks_early_votes() {
    let mut d = lc_dao(100);
    let alice = lc_staked_voter(&mut d, 11, 1000);
    lc_new_proposal(&mut d, &alice, 1, 100, 50);
    assert_eq!(d.proposals[0].result, ProposalStatus::PreVoting);
    assert_eq!(
        d.vote(&alice, 1, 10, 0, 5),
        Err(DaoError::InvalidRequiredTime)
    );
    assert_eq!(d.proposals[0].result, ProposalStatus::PreVoting);
    // once the pre-voting period has elapsed, the same vote opens the proposal
    d.vote(&alice, 1, 10, 0, 100).unwrap();
    assert_eq!(d.proposals[0].result, ProposalStatus::Open);
}

#[test]
fn proposal_ids_are_sequential() {
    let mut d = lc_dao(0);
    let alice = lc_staked_voter(&mut d, 11, 1000);
    // id must equal the next counter value (1), with no gaps and no reuse
    let e = d.create_proposal(
        &alice,
        2,
        b"n".to_vec(),
        b"g".to_vec(),
        ProposalType::Vote,
        50,
        100,
        1000,
        3,
        &b"treasury".to_vec(),
        0,
    );
    assert_eq!(e.unwrap_err(), DaoError::InvalidProposalSeed);
    lc_new_proposal(&mut d, &alice, 1, 100, 50);
    lc_new_proposal(&mut d, &alice, 2, 100, 50);
    assert_eq!(d.config.proposal_count, 2);
}

#[test]
fn proposal_validation_errors() {
    let mut d = lc_dao(0);
    let alice = lc_staked_voter(&mut d, 11, 1000);
    let long_name = vec![b'x'; 33];
    let r = d.create_proposal(
        &alice,
        1,
        long_name,
        b"g".to_vec(),
        ProposalType::Vote,
        50,
        100,
        1000,
        3,
        &b"treasury".to_vec(),
        0,
    );
    assert_eq!(r.unwrap_err(), DaoError::InvalidName);
    let long_gist = vec![b'x'; 73];
    let r = d.create_proposal(
        &alice,
        1,
        b"n".to_vec(),
        long_gist,
        ProposalType::Vote,
        50,
        100,
        1000,
        3,
        &b"treasury".to_vec(),
        0,
    );
    assert_eq!(r.unwrap_err(), DaoError::InvalidGist);
    let r = d.create_proposal(
        &alice,
        1,
        b"n".to_vec(),
        b"g".to_vec(),
        ProposalType::Vote,
        50,
        100,
        1000,
        3,
        &b"vault".to_vec(),
        0,
    );
    assert_eq!(r.unwrap_err(), DaoError::InvalidTreasury);
    let r = d.create_proposal(
        &alice,
        1,
        b"n".to_vec(),
        b"g".to_vec(),
        ProposalType::Vote,
        50,
        100,
        2_000_000, // above max_expiry
        3,
        &b"treasury".to_vec(),
        0,
    );
    assert_eq!(r.unwrap_err(), DaoError::InvalidExpiry);
}

#[test]
fn registry_minimums_gate_proposals() {
    let mut d = Dao::initialize(
        lc_addr(9),
        7,
        vec![lc_addr(1)],
        1,
        1000,
        5,
        1_000_000,
        25, // min quorum
        40, // min threshold
        1_000_000,
        0,
        4, // min choices
        0,
        10,
        10,
        10,
    )
    .unwrap();
    let alice = lc_staked_voter(&mut d, 11, 1000);
    let mk = |d: &mut Dao, quorum: u64, threshold: u64, choices: u8| {
        d.create_proposal(
            &alice,
            1,
            b"n".to_vec(),
            b"g".to_vec(),
            ProposalType::Vote,
            quorum,
            threshold,
            1000,
            choices,
            &b"treasury".to_vec(),
            0,
        )
    };
    assert_eq!(mk(&mut d, 24, 40, 4).unwrap_err(), DaoError::InvalidQuorum);
    assert_eq!(
        mk(&mut d, 25, 39, 4).unwrap_err(),
        DaoError::InvalidThreshold
    );
    assert_eq!(
        mk(&mut d, 25, 40, 3).unwrap_err(),
        DaoError::InvalidChoicesAmount
    );
    mk(&mut d, 25, 40, 4).unwrap();
}

#[test]
fn removing_an_absent_vote_is_rejected() {
    let mut d = lc_dao(0);
    let alice = lc_staked_voter(&mut d, 11, 1000);
    lc_new_proposal(&mut d, &alice, 1, 100, 50);
    assert_eq!(d.remove_vote(&alice, 1, 1), Err(DaoError::VoteNotFound));
    assert_eq!(d.cleanup_vote(&alice, 1, 1), Err(DaoError::VoteNotFound));
}

#[test]
fn unstaked_proposer_is_rejected() {
    let mut d = lc_dao(0);
    let nobody = lc_addr(42);
    let r = d.create_proposal(
        &nobody,
        1,
        b"n".to_vec(),
        b"g".to_vec(),
        ProposalType::Vote,
        50,
        100,
        1000,
        3,
        &b"treasury".to_vec(),
        0,
    );
    assert_eq!(r.unwrap_err(), DaoError::StakeNotFound);
}
