use dao_2::addr::Addr;
use dao_2::errors::DaoError;
use dao_2::multisig::MultiSig;

fn ms_addr(tag: u8) -> Addr {
    Addr([tag; 32])
}

#[test]
fn keys_are_sorted_and_deduplicated() {
    let keys = vec![ms_addr(3), ms_addr(1), ms_addr(3), ms_addr(2), ms_addr(1)];
    let m = MultiSig::init(2, keys, 0, 0).unwrap();
    assert_eq!(m.keys.len(), 3);
    assert_eq!(m.keys[0], ms_addr(1));
    assert_eq!(m.keys[1], ms_addr(2));
    assert_eq!(m.keys[2], ms_addr(3));
    assert_eq!(m.min_signers, 2);
}

#[test]
fn empty_roster_is_rejected() {
    assert!(matches!(
        MultiSig::init(1, Vec::new(), 0, 0),
        Err(DaoError::InvalidKeysLen)
    ));
}

#[test]
fn zero_min_signers_is_rejected() {
    assert!(matches!(
        MultiSig::init(0, vec![ms_addr(1)], 0, 0),
        Err(DaoError::InvalidSigners)
    ));
}

#[test]
fn min_signers_above_distinct_count_is_rejected() {
    // three keys handed in, but only two distinct ones
    assert!(matches!(
        MultiSig::init(3, vec![ms_addr(1), ms_addr(2), ms_addr(1)], 0, 0),
        Err(DaoError::InvalidSigners)
    ));
}

#[test]
fn lex_order_is_bytewise() {
    let mut lo = [0u8; 32];
    lo[31] = 1;
    let mut hi = [0u8; 32];
    hi[0] = 1;
    let m = MultiSig::init(1, vec![Addr(hi), Addr(lo)], 0, 0).unwrap();
    assert_eq!(m.keys[0], Addr(lo));
    assert_eq!(m.keys[1], Addr(hi));
}
