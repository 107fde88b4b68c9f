use plim_chain::common::Origin;
use plim_chain::mesh_relay::{content_hash, MeshRelay, MeshRelayConfig, MeshRelayError, MeshRelayEvent};
use sp_core::{ed25519, Pair};

const CHAIN_ID: [u8; 32] = [69u8; 32];

fn relay() -> MeshRelay {
    MeshRelay::new(MeshRelayConfig {
        max_relayed_queue: 10_000,
        max_payload_len: 1024,
        default_offline_tx_value_cap: 10_000_000_000_000,
    })
}

fn payload_with_trailing_value(prefix: &[u8], value_le: u64) -> Vec<u8> {
    let mut v = prefix.to_vec();
    v.extend_from_slice(&value_le.to_le_bytes());
    v
}

fn compute_content_hash(mandate_ref: &[u8; 32], nonce: u64, payload: &[u8]) -> [u8; 32] {
    let mut input = Vec::with_capacity(32 + 8 + 32 + payload.len());
    input.extend_from_slice(mandate_ref);
    input.extend_from_slice(&nonce.to_le_bytes());
    input.extend_from_slice(&CHAIN_ID);
    input.extend_from_slice(payload);
    sp_io::hashing::blake2_256(&input)
}

fn signed_call(payload: Vec<u8>, mandate_ref: [u8; 32], nonce: u64) -> (Vec<u8>, [u8; 64], [u8; 32], [u8; 32], u64) {
    let pair = ed25519::Pair::from_seed(&[1u8; 32]);
    let pubkey = pair.public();
    let h = compute_content_hash(&mandate_ref, nonce, &payload);
    let sig = pair.sign(&h);
    (payload, sig.0, pubkey.0, mandate_ref, nonce)
}

#[test]
fn submit_relayed_transaction_accepts_first_call() {
    let mut r = relay();
    let payload = payload_with_trailing_value(b"pay-alice-", 5_000_000_000_000);
    let (payload, sig, pubkey, mref, nonce) = signed_call(payload, [0u8; 32], 1);
    assert_eq!(
        r.submit_relayed_transaction(Origin::Signed(1), 1, CHAIN_ID, payload.clone(), sig, pubkey, mref, nonce),
        Ok(())
    );
    assert_eq!(r.relayed_transactions.len(), 1);
    let row = &r.relayed_transactions[0];
    assert_eq!(row.offline_transaction_mandate_nonce_value, nonce);
    assert_eq!(row.offline_transaction_size_bytes_value, payload.len() as u32);
    let expected_hash = compute_content_hash(&mref, nonce, &payload);
    assert_eq!(content_hash(&mref, nonce, &CHAIN_ID, &payload), expected_hash);
    assert_eq!(r.relayed_hash_index.get(&expected_hash).copied(), Some(0));
    assert!(matches!(
        r.events.last(),
        Some(MeshRelayEvent::OfflineTxAccepted { content_hash, mandate_ref, mandate_nonce, accepted_at_block: 1 })
            if *content_hash == expected_hash && *mandate_ref == mref && *mandate_nonce == nonce
    ));
}

#[test]
fn submit_relayed_transaction_is_idempotent_by_content_hash() {
    let mut r = relay();
    let payload = payload_with_trailing_value(b"pay-bob-", 1_000_000_000_000);
    let (payload, sig, pubkey, mref, nonce) = signed_call(payload, [7u8; 32], 1);
    assert_eq!(
        r.submit_relayed_transaction(Origin::Signed(1), 1, CHAIN_ID, payload.clone(), sig, pubkey, mref, nonce),
        Ok(())
    );
    assert_eq!(
        r.submit_relayed_transaction(Origin::Signed(1), 1, CHAIN_ID, payload, sig, pubkey, mref, nonce),
        Err(MeshRelayError::AlreadyRelayed)
    );
    assert_eq!(r.relayed_transactions.len(), 1);
}

#[test]
fn submit_relayed_transaction_rejects_bad_signature() {
    let mut r = relay();
    let payload = payload_with_trailing_value(b"pay-eve-", 1_000_000_000_000);
    let pair = ed25519::Pair::from_seed(&[1u8; 32]);
    let pubkey = pair.public();
    let bad_sig = pair.sign(b"not-the-real-content-hash");
    assert_eq!(
        r.submit_relayed_transaction(Origin::Signed(1), 1, CHAIN_ID, payload, bad_sig.0, pubkey.0, [0u8; 32], 1),
        Err(MeshRelayError::InvalidSignature)
    );
    assert_eq!(r.relayed_transactions.len(), 0);
}

#[test]
fn submit_relayed_transaction_enforces_hard_cap() {
    let mut r = relay();
    let payload = payload_with_trailing_value(b"oversize-", 20_000_000_000_000);
    let (payload, sig, pubkey, mref, nonce) = signed_call(payload, [0u8; 32], 1);
    assert_eq!(
        r.submit_relayed_transaction(Origin::Signed(1), 1, CHAIN_ID, payload, sig, pubkey, mref, nonce),
        Err(MeshRelayError::ExceedsOfflineCap)
    );
    assert_eq!(r.relayed_transactions.len(), 0);
}

#[test]
fn submit_relayed_transaction_rejects_payload_too_large() {
    let mut r = relay();
    let payload: Vec<u8> = vec![0u8; 1025];
    let pair = ed25519::Pair::from_seed(&[1u8; 32]);
    let pubkey = pair.public();
    let h = compute_content_hash(&[0u8; 32], 1, &payload);
    let sig = pair.sign(&h);
    assert_eq!(
        r.submit_relayed_transaction(Origin::Signed(1), 1, CHAIN_ID, payload, sig.0, pubkey.0, [0u8; 32], 1),
        Err(MeshRelayError::PayloadTooLarge)
    );
}

#[test]
fn submit_relayed_transaction_caps_value_at_the_limit() {
    let mut r = relay();
    let payload = payload_with_trailing_value(b"exact-", 10_000_000_000_000);
    let (payload, sig, pubkey, mref, nonce) = signed_call(payload, [3u8; 32], 9);
    assert_eq!(
        r.submit_relayed_transaction(Origin::Signed(1), 1, CHAIN_ID, payload, sig, pubkey, mref, nonce),
        Ok(())
    );
    let short = vec![0xFFu8; 7];
    let (short, sig, pubkey, mref, nonce) = signed_call(short, [3u8; 32], 10);
    assert_eq!(
        r.submit_relayed_transaction(Origin::Signed(1), 1, CHAIN_ID, short, sig, pubkey, mref, nonce),
        Ok(())
    );
    assert_eq!(r.relayed_transactions.len(), 2);
    assert_eq!(
        r.submit_relayed_transaction(Origin::Unsigned, 1, CHAIN_ID, vec![], [0u8; 64], [0u8; 32], [0u8; 32], 0),
        Err(MeshRelayError::BadOrigin)
    );
}
