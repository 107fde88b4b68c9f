use plim_chain::common::Origin;
use plim_chain::timestamps::{compute_merkle_root, Timestamps, TimestampsConfig, TimestampsError, TimestampsEvent};

fn node(a: &[u8; 32], b: &[u8; 32]) -> [u8; 32] {
    let mut buf = a.to_vec();
    buf.extend_from_slice(b);
    sp_io::hashing::blake2_256(&buf)
}

fn ts() -> Timestamps {
    Timestamps::new(TimestampsConfig { aggregation_interval: 10, max_event_buffer: 3, max_proof_depth: 8 })
}

#[test]
fn merkle_root_pairs_and_duplicates_odd_leaves() {
    let a = [1u8; 32];
    let b = [2u8; 32];
    let c = [3u8; 32];
    assert_eq!(compute_merkle_root(&vec![]), sp_io::hashing::blake2_256(&[0u8]));
    assert_eq!(compute_merkle_root(&vec![a]), a);
    assert_eq!(compute_merkle_root(&vec![a, b]), node(&a, &b));
    assert_eq!(compute_merkle_root(&vec![a, b, c]), node(&node(&a, &b), &node(&c, &c)));
}

#[test]
fn commit_then_verify_inclusion() {
    let mut t = ts();
    let a = [1u8; 32];
    let b = [2u8; 32];
    let c = [3u8; 32];
    assert_eq!(t.commit_timestamp_root(Origin::Signed(1), 10), Err(TimestampsError::EmptyBuffer));
    for h in [a, b, c] {
        assert_eq!(t.buffer_event(Origin::Signed(1), h), Ok(()));
    }
    assert_eq!(t.buffer_event(Origin::Signed(1), [4u8; 32]), Err(TimestampsError::EventBufferFull));
    assert_eq!(t.commit_timestamp_root(Origin::Signed(1), 9), Err(TimestampsError::AggregationNotDue));
    assert_eq!(t.commit_timestamp_root(Origin::Signed(1), 10), Ok(()));
    assert_eq!(t.event_buffer.len(), 0);
    assert_eq!(t.last_aggregation, 10);
    let root = node(&node(&a, &b), &node(&c, &c));
    assert_eq!(t.merkle_roots.get(&10).copied(), Some(root));
    // proof of c: its duplicate on the right, then the left pair on the left
    let proof = vec![(c, false), (node(&a, &b), true)];
    assert_eq!(t.verify_timestamp(Origin::Signed(2), 10, c, proof), Ok(()));
    assert!(matches!(t.events.last(), Some(TimestampsEvent::TimestampVerified { valid: true, .. })));
    let bad = vec![(a, false)];
    assert_eq!(t.verify_timestamp(Origin::Signed(2), 10, c, bad), Ok(()));
    assert!(matches!(t.events.last(), Some(TimestampsEvent::TimestampVerified { valid: false, .. })));
    assert_eq!(t.verify_timestamp(Origin::Signed(2), 11, c, vec![]), Err(TimestampsError::MerkleRootNotFound));
}
