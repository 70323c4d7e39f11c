use dao_2::addr::Addr;
use dao_2::dao::Dao;
use dao_2::errors::DaoError;
use dao_2::proposal::ProposalType;
use dao_2::stake::StakeState;

fn st_addr(tag: u8) -> Addr {
    Addr([tag; 32])
}

fn st_dao() -> Dao {
    Dao::initialize(
        st_addr(9),
        7,
        vec![st_addr(1)],
        1,
        1000,
        5,
        1_000_000,
        0,
        0,
        1_000_000,
        100, // min stake for proposers
        3,
        0,
        10,
        10,
        10,
    )
    .unwrap()
}

#[test]
fn stake_and_unstake_round_trip() {
    let mut d = st_dao();
    let alice = st_addr(11);
    d.init_stake(&alice).unwrap();
    d.stake_tokens(&alice, 500).unwrap();
    d.stake_tokens(&alice, 250).unwrap();
    assert_eq!(d.stakes[0].state.amount, 750);
    d.unstake_tokens(&alice, 750).unwrap();
    assert_eq!(d.stakes[0].state.amount, 0);
    d.close_stake(&alice).unwrap();
    assert!(d.stakes.is_empty());
}

#[test]
fn double_init_is_rejected() {
    let mut d = st_dao();
    let alice = st_addr(11);
    d.init_stake(&alice).unwrap();
    assert_eq!(d.init_stake(&alice), Err(DaoError::AlreadyStaked));
}

#[test]
fn unstake_beyond_balance_underflows() {
    let mut d = st_dao();
    let alice = st_addr(11);
    d.init_stake(&alice).unwrap();
    d.stake_tokens(&alice, 100).unwrap();
    assert_eq!(d.unstake_tokens(&alice, 101), Err(DaoError::Underflow));
}

#[test]
fn stake_overflow_is_an_error() {
    let mut d = st_dao();
    let alice = st_addr(11);
    d.init_stake(&alice).unwrap();
    d.stake_tokens(&alice, u64::MAX).unwrap();
    assert_eq!(d.stake_tokens(&alice, 1), Err(DaoError::Overflow));
    assert_eq!(d.stakes[0].state.amount, u64::MAX);
}

#[test]
fn open_commitments_hold_the_balance() {
    // unstake never lets the free balance go negative against open votes
    let mut d = st_dao();
    let alice = st_addr(11);
    d.init_stake(&alice).unwrap();
    d.stake_tokens(&alice, 1000).unwrap();
    d.create_proposal(
        &alice,
        1,
        b"n".to_vec(),
        b"g".to_vec(),
        ProposalType::Vote,
        50,
        10_000,
        1000,
        3,
        &b"treasury".to_vec(),
        0,
    )
    .unwrap();
    d.vote(&alice, 1, 600, 0, 1).unwrap();
    // 600 of the 1000 are held: only 400 may leave
    assert_eq!(
        d.unstake_tokens(&alice, 401),
        Err(DaoError::InsufficientStake)
    );
    d.unstake_tokens(&alice, 400).unwrap();
    let st: StakeState = d.stakes[0].state;
    assert_eq!(st.amount, 600);
    assert_eq!(st.committed, 600);
    // releasing the vote releases the hold
    d.remove_vote(&alice, 1, 2).unwrap();
    d.unstake_tokens(&alice, 600).unwrap();
    assert_eq!(d.stakes[0].state.amount, 0);
}

#[test]
fn close_stake_in_use_is_rejected() {
    let mut d = st_dao();
    let alice = st_addr(11);
    d.init_stake(&alice).unwrap();
    d.stake_tokens(&alice, 10).unwrap();
    assert_eq!(d.close_stake(&alice), Err(DaoError::StakeInUse));
    d.unstake_tokens(&alice, 10).unwrap();
    d.close_stake(&alice).unwrap();
    assert_eq!(d.close_stake(&alice), Err(DaoError::StakeNotFound));
}

#[test]
fn proposer_below_minimum_stake_is_rejected() {
    let mut d = st_dao();
    let alice = st_addr(11);
    d.init_stake(&alice).unwrap();
    d.stake_tokens(&alice, 99).unwrap();
    let r = d.create_proposal(
        &alice,
        1,
        b"n".to_vec(),
        b"g".to_vec(),
        ProposalType::Vote,
        50,
        0,
        1000,
        3,
        &b"treasury".to_vec(),
        0,
    );
    assert_eq!(r.unwrap_err(), DaoError::InvalidStakeAmount);
}
