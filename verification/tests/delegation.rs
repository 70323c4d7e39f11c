use dao_2::addr::Addr;
use dao_2::authority::{InstructionAccount, InstructionData};
use dao_2::dao::{Dao, ExecutionAction};
use dao_2::errors::DaoError;
use dao_2::proposal::{ProposalType, TreasuryType};
use solana_program::pubkey::Pubkey;

fn dg_addr(tag: u8) -> Addr {
    Addr([tag; 32])
}

fn dg_dao() -> Dao {
    Dao::initialize(
        dg_addr(9),
        7,
        vec![dg_addr(1)],
        1,
        1000,
        5,
        1_000_000,
        0,
        0,
        1_000_000,
        0,
        3,
        0,
        10,
        10,
        10,
    )
    .unwrap()
}

fn dg_succeeded_proposal(d: &mut Dao, payload: ProposalType) -> Addr {
    let alice = dg_addr(11);
    d.init_stake(&alice).unwrap();
    d.stake_tokens(&alice, 1000).unwrap();
    d.create_proposal(
        &alice,
        1,
        b"n".to_vec(),
        b"g".to_vec(),
        payload,
        50,
        100,
        1000,
        3,
        &b"treasury".to_vec(),
        0,
    )
    .unwrap();
    d.vote(&alice, 1, 500, 0, 1).unwrap();
    alice
}

#[test]
fn derived_addresses_match_the_ledger_derivation() {
    // the registry address and bump must be exactly what the ledger's own
    // derivation function produces for the same domain, seed and program id
    let d = dg_dao();
    let program = Pubkey::new_from_array([9u8; 32]);
    let (expected, bump) =
        Pubkey::find_program_address(&[b"config", &7u64.to_le_bytes()], &program);
    assert_eq!(d.config_addr.0, expected.to_bytes());
    assert_eq!(d.config.config_bump, bump);
    let (_, auth_bump) =
        Pubkey::find_program_address(&[b"auth", expected.as_ref()], &program);
    assert_eq!(d.config.auth_bump, auth_bump);
    let (msig, msig_bump) =
        Pubkey::find_program_address(&[b"multisig", expected.as_ref()], &program);
    assert_eq!(d.multisig_addr.0, msig.to_bytes());
    assert_eq!(d.multisig.multisig_bump, msig_bump);
}

#[test]
fn bounty_payout_requires_matching_payee() {
    let payee = dg_addr(33);
    let mut d = dg_dao();
    dg_succeeded_proposal(&mut d, ProposalType::Bounty(payee, 250));
    let wrong = dg_addr(34);
    assert_eq!(
        d.execute_proposal(1, &b"treasury".to_vec(), &wrong, &Vec::new(), &Vec::new(), 2),
        Err(DaoError::InvalidInstructionData)
    );
    let a = d
        .execute_proposal(1, &b"treasury".to_vec(), &payee, &Vec::new(), &Vec::new(), 2)
        .unwrap();
    match a {
        ExecutionAction::PayBounty {
            treasury,
            payee: to,
            amount,
            auth_bump,
        } => {
            assert_eq!(treasury, TreasuryType::Main);
            assert_eq!(to, payee);
            assert_eq!(amount, 250);
            assert_eq!(auth_bump, d.config.auth_bump);
        }
        _ => panic!("expected a bounty payout"),
    }
}

#[test]
fn executable_proposal_validates_references() {
    let target = dg_addr(40);
    let k1 = dg_addr(41);
    let k2 = dg_addr(42);
    let ix = InstructionData {
        program_id: target,
        data: vec![1, 2, 3],
        keys: vec![
            InstructionAccount {
                pubkey: k1,
                is_signer: false,
                is_writable: true,
            },
            InstructionAccount {
                pubkey: k2,
                is_signer: true,
                is_writable: false,
            },
        ],
    };
    let mut d = dg_dao();
    dg_succeeded_proposal(&mut d, ProposalType::Executable);
    // a reference that does not match the declared account is rejected
    let bad = vec![target, k1, dg_addr(43)];
    assert_eq!(
        d.execute_proposal(1, &b"treasury".to_vec(), &dg_addr(0), &vec![ix.clone()], &bad, 2),
        Err(DaoError::InvalidInstructionData)
    );
    // too few supplied references are rejected
    let short = vec![target, k1];
    assert_eq!(
        d.execute_proposal(
            1,
            &b"treasury".to_vec(),
            &dg_addr(0),
            &vec![ix.clone()],
            &short,
            2
        ),
        Err(DaoError::InvalidInstructionData)
    );
    let good = vec![target, k1, k2];
    let a = d
        .execute_proposal(1, &b"treasury".to_vec(), &dg_addr(0), &vec![ix], &good, 2)
        .unwrap();
    match a {
        ExecutionAction::Invoke { authority, bump } => {
            // the signing capability is derived from the treasury name and
            // the registry identity, under the program id
            let program = Pubkey::new_from_array([9u8; 32]);
            let (expected, expected_bump) = Pubkey::find_program_address(
                &[b"treasury", d.config_addr.0.as_ref()],
                &program,
            );
            assert_eq!(authority.0, expected.to_bytes());
            assert_eq!(bump, expected_bump);
        }
        _ => panic!("expected a sub-action invocation"),
    }
}

#[test]
fn execution_requires_the_proposals_own_treasury() {
    let mut d = dg_dao();
    dg_succeeded_proposal(&mut d, ProposalType::Vote);
    assert_eq!(
        d.execute_proposal(
            1,
            &b"dev-treasury".to_vec(),
            &dg_addr(0),
            &Vec::new(),
            &Vec::new(),
            2
        ),
        Err(DaoError::InvalidTreasury)
    );
}

#[test]
fn issuance_deposit_splits_the_issue_price() {
    let d = dg_dao();
    // issue price 1000 with shares main 70 / dev 10 / ops 10 / multisig 10
    let s = d.deposit_sol().unwrap();
    assert_eq!(s.dev, 100);
    assert_eq!(s.ops, 100);
    assert_eq!(s.multisig, 100);
    assert_eq!(s.main, 700);
}
