use plim_chain::common::Origin;
use plim_chain::identity::{
    capability_commitment, did_for, nibble_to_hex, AgentStatus, Identity, IdentityConfig, IdentityError, IdentityEvent,
};

fn identity() -> Identity {
    Identity::new(IdentityConfig {
        max_did_length: 64,
        max_name_length: 64,
        max_model_type_length: 64,
        max_credentials: 2,
        max_proof_size: 256,
    })
}

fn expected_did(who: u64) -> Vec<u8> {
    let h = sp_io::hashing::blake2_256(&who.to_le_bytes());
    let mut did = b"did:plim:".to_vec();
    for b in &h[..16] {
        did.extend_from_slice(format!("{:02x}", b).as_bytes());
    }
    did
}

#[test]
fn nibbles_become_lowercase_hex() {
    assert_eq!(nibble_to_hex(0), b'0');
    assert_eq!(nibble_to_hex(9), b'9');
    assert_eq!(nibble_to_hex(10), b'a');
    assert_eq!(nibble_to_hex(15), b'f');
}

#[test]
fn did_is_prefix_and_hex_of_account_digest() {
    assert_eq!(did_for(7).to_vec(), expected_did(7));
    assert_eq!(did_for(7).len(), 41);
}

#[test]
fn register_agent_stores_profile_and_document() {
    let mut id = identity();
    assert_eq!(id.register_agent(Origin::Signed(7), 3, b"agent".to_vec(), b"gpt".to_vec(), b"caps".to_vec()), Ok(()));
    let p = id.agent_registry.get(&7).unwrap();
    assert_eq!(p.owner, 7);
    assert_eq!(p.did.to_vec(), expected_did(7));
    assert_eq!(p.name, b"agent".to_vec());
    assert_eq!(p.capability_commitment, sp_io::hashing::blake2_256(b"caps"));
    assert_eq!(capability_commitment(b"caps"), sp_io::hashing::blake2_256(b"caps"));
    assert_eq!(p.status, AgentStatus::Active);
    assert_eq!(p.reputation_score, 0);
    let doc = id.did_documents.get(&p.did).unwrap();
    assert_eq!(doc.controller, 7);
    assert_eq!(doc.created_at, 3);
    assert!(matches!(id.events.last(), Some(IdentityEvent::AgentRegistered { who: 7, .. })));
}

#[test]
fn register_agent_once_per_account() {
    let mut id = identity();
    assert_eq!(id.register_agent(Origin::Signed(7), 3, vec![], vec![], vec![]), Ok(()));
    assert_eq!(
        id.register_agent(Origin::Signed(7), 4, vec![], vec![], vec![]),
        Err(IdentityError::AgentAlreadyRegistered)
    );
    assert_eq!(id.register_agent(Origin::Unsigned, 4, vec![], vec![], vec![]), Err(IdentityError::BadOrigin));
}

#[test]
fn short_did_bound_refuses_registration() {
    let mut id = Identity::new(IdentityConfig {
        max_did_length: 40,
        max_name_length: 64,
        max_model_type_length: 64,
        max_credentials: 2,
        max_proof_size: 256,
    });
    assert_eq!(id.register_agent(Origin::Signed(7), 3, vec![], vec![], vec![]), Err(IdentityError::InvalidCredential));
}

#[test]
fn credentials_are_bounded_and_revoked_by_swap_remove() {
    let mut id = identity();
    assert_eq!(id.issue_credential(Origin::Signed(9), 7, vec![], [1; 32]), Err(IdentityError::AgentNotFound));
    assert_eq!(id.register_agent(Origin::Signed(7), 3, vec![], vec![], vec![]), Ok(()));
    assert_eq!(id.issue_credential(Origin::Signed(9), 7, vec![], [1; 32]), Ok(()));
    assert_eq!(id.issue_credential(Origin::Signed(9), 7, vec![], [2; 32]), Ok(()));
    assert_eq!(id.issue_credential(Origin::Signed(9), 7, vec![], [3; 32]), Err(IdentityError::InvalidCredential));
    assert_eq!(id.revoke_credential(Origin::Signed(9), 7, 0), Err(IdentityError::NotAgentOwner));
    assert_eq!(id.revoke_credential(Origin::Signed(7), 7, 2), Err(IdentityError::InvalidCredential));
    assert_eq!(id.revoke_credential(Origin::Signed(7), 7, 0), Ok(()));
    assert_eq!(id.credential_commitments.get(&7).unwrap(), &vec![[2u8; 32]]);
}

#[test]
fn revoked_agent_refuses_credentials_and_proofs() {
    let mut id = identity();
    assert_eq!(id.register_agent(Origin::Signed(7), 3, vec![], vec![], vec![]), Ok(()));
    assert_eq!(id.update_agent_status(Origin::Signed(8), 7, AgentStatus::Revoked), Err(IdentityError::NotAgentOwner));
    assert_eq!(id.update_agent_status(Origin::Signed(7), 7, AgentStatus::Revoked), Ok(()));
    assert_eq!(id.agent_registry.get(&7).unwrap().status, AgentStatus::Revoked);
    assert_eq!(id.issue_credential(Origin::Signed(9), 7, vec![], [1; 32]), Err(IdentityError::AgentRevoked));
    assert_eq!(id.verify_zk_proof(Origin::Signed(9), 7, vec![1, 2]), Err(IdentityError::AgentRevoked));
    assert_eq!(id.update_agent_status(Origin::Signed(7), 7, AgentStatus::Paused), Ok(()));
    assert_eq!(id.verify_zk_proof(Origin::Signed(9), 7, vec![1, 2]), Ok(()));
    assert!(matches!(id.events.last(), Some(IdentityEvent::ZKProofVerified { verifier: 9, agent_id: 7 })));
}
