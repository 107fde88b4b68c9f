use plim_chain::common::Origin;
use plim_chain::mandates::{seal_id, Mandates, MandatesConfig, MandatesError, SealConstraints, SealStatus};

fn expected_id(owner: u64, nonce: u64) -> [u8; 32] {
    let mut enc = owner.to_le_bytes().to_vec();
    enc.extend_from_slice(&nonce.to_le_bytes());
    sp_io::hashing::blake2_256(&enc)
}

fn constraints(expires_at: Option<u64>) -> SealConstraints {
    SealConstraints { max_amount: 100, expires_at }
}

#[test]
fn seals_close_once_and_link_to_open_seals() {
    let mut m = Mandates::new(MandatesConfig { max_chain_length: 3 });
    assert_eq!(m.create_seal(Origin::Signed(1), 1, constraints(Some(10))), Ok(()));
    assert_eq!(m.create_seal(Origin::Signed(1), 1, constraints(None)), Ok(()));
    let s0 = expected_id(1, 0);
    let s1 = expected_id(1, 1);
    assert_eq!(seal_id(1, 0), s0);
    assert_eq!(m.seal_nonce, 2);
    assert_eq!(m.close_seal(Origin::Signed(2), 5, s0, [7; 32], None), Err(MandatesError::NotSealOwner));
    assert_eq!(m.close_seal(Origin::Signed(1), 11, s0, [7; 32], None), Err(MandatesError::SealExpired));
    assert_eq!(m.close_seal(Origin::Signed(1), 5, s0, [7; 32], Some([3; 32])), Err(MandatesError::InvalidSealChain));
    assert_eq!(m.close_seal(Origin::Signed(1), 5, s0, [7; 32], Some(s1)), Ok(()));
    let st = *m.seals.get(&s0).unwrap();
    assert_eq!(st.status, SealStatus::Closed);
    assert_eq!(st.commitment, Some([7; 32]));
    assert_eq!(st.closed_at, Some(5));
    assert_eq!(m.seal_chains.get(&s0).copied(), Some(Some(s1)));
    assert_eq!(m.close_seal(Origin::Signed(1), 5, s0, [7; 32], None), Err(MandatesError::SealAlreadyClosed));
    assert_eq!(m.close_seal(Origin::Signed(1), 5, s1, [8; 32], Some(s0)), Err(MandatesError::InvalidSealChain));
}

#[test]
fn recurring_chain_links_consecutive_seals() {
    let mut m = Mandates::new(MandatesConfig { max_chain_length: 3 });
    assert_eq!(m.create_recurring_chain(Origin::Signed(4), 2, 0, constraints(None)), Err(MandatesError::InvalidSealChain));
    assert_eq!(m.create_recurring_chain(Origin::Signed(4), 2, 4, constraints(None)), Err(MandatesError::ChainTooLong));
    assert_eq!(m.create_recurring_chain(Origin::Signed(4), 2, 3, constraints(None)), Ok(()));
    let ids: Vec<[u8; 32]> = (0..3).map(|n| expected_id(4, n)).collect();
    assert_eq!(m.seal_nonce, 3);
    assert_eq!(m.seals.get(&ids[0]).unwrap().next_seal, Some(ids[1]));
    assert_eq!(m.seals.get(&ids[1]).unwrap().next_seal, Some(ids[2]));
    assert_eq!(m.seals.get(&ids[2]).unwrap().next_seal, None);
    assert_eq!(m.seal_chains.get(&ids[2]).copied(), Some(None));
    assert_eq!(m.seals.get(&ids[1]).unwrap().status, SealStatus::Open);
}

#[test]
fn closed_seal_stays_closed_while_new_seals_are_made() {
    let mut m = Mandates::new(MandatesConfig { max_chain_length: 3 });
    assert_eq!(m.create_seal(Origin::Signed(1), 1, constraints(None)), Ok(()));
    let s0 = expected_id(1, 0);
    assert_eq!(m.close_seal(Origin::Signed(1), 2, s0, [9; 32], None), Ok(()));
    let closed = *m.seals.get(&s0).unwrap();
    assert_eq!(m.create_seal(Origin::Signed(1), 3, constraints(None)), Ok(()));
    assert_eq!(m.create_recurring_chain(Origin::Signed(2), 4, 3, constraints(None)), Ok(()));
    let now = *m.seals.get(&s0).unwrap();
    assert_eq!((now.status, now.commitment, now.closed_at, now.created_at, now.next_seal),
        (closed.status, closed.commitment, closed.closed_at, closed.created_at, closed.next_seal));
    assert_eq!(now.status, SealStatus::Closed);
    assert_eq!(m.seals.len(), 5);
}
