use plim_chain::common::Origin;
use plim_chain::delegation::{delegation_id, Delegation, DelegationConfig, DelegationError, DelegationStatus};

fn expected_id(p: u64, a: u64, now: u64) -> [u8; 32] {
    let mut enc = p.to_le_bytes().to_vec();
    enc.extend_from_slice(&a.to_le_bytes());
    enc.extend_from_slice(&now.to_le_bytes());
    sp_io::hashing::blake2_256(&enc)
}

#[test]
fn delegation_lifecycle() {
    let mut d = Delegation::new(DelegationConfig { max_delegations_per_agent: 1 });
    assert_eq!(d.create_delegation(Origin::Signed(1), 5, 9, 10, 20, 30, 40, 8, 8), Err(DelegationError::InvalidValidityRange));
    assert_eq!(d.create_delegation(Origin::Signed(1), 5, 9, 10, 20, 30, 40, 8, 9), Ok(()));
    let id = expected_id(1, 9, 5);
    assert_eq!(delegation_id(1, 9, 5), id);
    assert_eq!(d.agent_delegations.get(&9).unwrap(), &vec![id]);
    assert_eq!(d.create_delegation(Origin::Signed(2), 6, 9, 1, 1, 1, 1, 0, 1), Err(DelegationError::TooManyDelegations));
    assert_eq!(d.update_policy(Origin::Signed(2), id, 1, 2, 3, 4), Err(DelegationError::NotPrincipal));
    assert_eq!(d.update_policy(Origin::Signed(1), id, 1, 2, 3, 4), Ok(()));
    assert_eq!(d.delegations.get(&id).unwrap().max_monthly, 3);
    assert_eq!(d.resume_agent(Origin::Signed(1), id), Err(DelegationError::AgentNotPaused));
    assert_eq!(d.pause_agent(Origin::Signed(1), id), Ok(()));
    assert_eq!(d.pause_agent(Origin::Signed(1), id), Err(DelegationError::AgentAlreadyPaused));
    assert_eq!(d.update_policy(Origin::Signed(1), id, 1, 2, 3, 4), Err(DelegationError::DelegationInactive));
    assert_eq!(d.resume_agent(Origin::Signed(1), id), Ok(()));
    assert_eq!(d.delegations.get(&id).unwrap().status, DelegationStatus::Active);
    assert_eq!(d.revoke_delegation(Origin::Signed(1), id), Ok(()));
    assert_eq!(d.revoke_delegation(Origin::Signed(1), id), Err(DelegationError::DelegationInactive));
    assert_eq!(d.delegations.get(&id).unwrap().status, DelegationStatus::Expired);
    assert_eq!(d.pause_agent(Origin::Signed(1), [0; 32]), Err(DelegationError::DelegationNotFound));
}
