use plim_chain::common::Origin;
use plim_chain::kyc::{Kyc, KycConfig, KycError, KycEvent, KycLevel, KycRecord, SanctionReason};

const ATTESTOR1: u64 = 100;
const ATTESTOR2: u64 = 101;
const NON_ATTESTOR: u64 = 200;
const SUBJECT_A: u64 = 1;
const SUBJECT_B: u64 = 2;

fn new_kyc() -> Kyc {
    Kyc::genesis(KycConfig { max_attestors: 10 }, &vec![ATTESTOR1, ATTESTOR2])
}

fn record(level: KycLevel, expires_at: u64) -> KycRecord {
    KycRecord {
        level,
        attested_by: ATTESTOR1,
        attested_at: 1,
        expires_at,
        document_hash: [0xAB; 32],
        country_code: *b"CH",
    }
}

fn record_by(attestor: u64, level: KycLevel, expires_at: u64) -> KycRecord {
    KycRecord {
        level,
        attested_by: attestor,
        attested_at: 1,
        expires_at,
        document_hash: [0xCD; 32],
        country_code: *b"DE",
    }
}

#[test]
fn set_kyc_by_non_attestor_fails() {
    let mut k = new_kyc();
    let rec = KycRecord {
        level: KycLevel::Basic,
        attested_by: NON_ATTESTOR,
        attested_at: 1,
        expires_at: 1_000,
        document_hash: [0u8; 32],
        country_code: *b"CH",
    };
    assert_eq!(k.set_kyc(Origin::Signed(NON_ATTESTOR), 1, SUBJECT_A, rec), Err(KycError::NotAttestor));
    assert!(k.kyc_records.get(&SUBJECT_A).is_none());
}

#[test]
fn set_kyc_overwrites_existing_record() {
    let mut k = new_kyc();
    assert_eq!(k.set_kyc(Origin::Signed(ATTESTOR1), 1, SUBJECT_A, record(KycLevel::Basic, 1_000)), Ok(()));
    assert_eq!(k.kyc_records.get(&SUBJECT_A).unwrap().level, KycLevel::Basic);
    assert_eq!(k.set_kyc(Origin::Signed(ATTESTOR1), 1, SUBJECT_A, record(KycLevel::Enhanced, 2_000)), Ok(()));
    let stored = k.kyc_records.get(&SUBJECT_A).unwrap();
    assert_eq!(stored.level, KycLevel::Enhanced);
    assert_eq!(stored.expires_at, 2_000);
}

#[test]
fn sanction_auto_revokes_existing_kyc() {
    let mut k = new_kyc();
    assert_eq!(k.set_kyc(Origin::Signed(ATTESTOR1), 1, SUBJECT_A, record(KycLevel::Enhanced, 1_000)), Ok(()));
    assert!(k.kyc_records.contains_key(&SUBJECT_A));
    assert_eq!(k.add_to_sanction_list(Origin::Root, SUBJECT_A, SanctionReason::OfacSdn), Ok(()));
    assert!(!k.kyc_records.contains_key(&SUBJECT_A));
    assert_eq!(k.sanction_list.get(&SUBJECT_A).copied(), Some(SanctionReason::OfacSdn));
    let has_revoked = k.events.iter().any(|e| matches!(e, KycEvent::KycRevoked { account, .. } if *account == SUBJECT_A));
    let has_sanctioned =
        k.events.iter().any(|e| matches!(e, KycEvent::AccountSanctioned { account, .. } if *account == SUBJECT_A));
    assert!(has_revoked, "KycRevoked event should be emitted on auto-revoke");
    assert!(has_sanctioned, "AccountSanctioned event should be emitted");
    let expected = sp_io::hashing::blake2_256(b"sanctioned");
    assert!(k.events.iter().any(|e| matches!(e, KycEvent::KycRevoked { reason_hash, .. } if *reason_hash == expected)));
}

#[test]
fn read_after_expiry_returns_kyc_expired() {
    let mut k = new_kyc();
    assert_eq!(k.set_kyc(Origin::Signed(ATTESTOR1), 1, SUBJECT_A, record(KycLevel::Enhanced, 100)), Ok(()));
    assert!(k.is_expired(SUBJECT_A, 500));
    assert_eq!(k.require_at_least(SUBJECT_A, KycLevel::Basic, 500), Err(KycError::KycExpired));
}

#[test]
fn removed_attestor_cannot_submit() {
    let mut k = new_kyc();
    assert_eq!(k.set_kyc(Origin::Signed(ATTESTOR1), 1, SUBJECT_A, record(KycLevel::Basic, 1_000)), Ok(()));
    assert_eq!(k.remove_attestor(Origin::Root, ATTESTOR1), Ok(()));
    assert!(!k.attestors.contains_key(&ATTESTOR1));
    assert_eq!(
        k.set_kyc(Origin::Signed(ATTESTOR1), 1, SUBJECT_B, record(KycLevel::Basic, 1_000)),
        Err(KycError::NotAttestor)
    );
}

#[test]
fn sanctioned_account_blocks_set_kyc() {
    let mut k = new_kyc();
    assert_eq!(k.add_to_sanction_list(Origin::Root, SUBJECT_A, SanctionReason::EuSanctions), Ok(()));
    assert_eq!(
        k.set_kyc(Origin::Signed(ATTESTOR1), 1, SUBJECT_A, record(KycLevel::Basic, 1_000)),
        Err(KycError::AccountSanctioned)
    );
}

#[test]
fn kyc_level_ordering_holds() {
    assert!(KycLevel::Unverified < KycLevel::Basic);
    assert!(KycLevel::Basic < KycLevel::Enhanced);
    assert!(KycLevel::Enhanced < KycLevel::Institutional);
}

#[test]
fn require_at_least_below_required_level() {
    let mut k = new_kyc();
    assert_eq!(k.set_kyc(Origin::Signed(ATTESTOR1), 1, SUBJECT_A, record(KycLevel::Basic, 10_000)), Ok(()));
    assert_eq!(k.require_at_least(SUBJECT_A, KycLevel::Enhanced, 50), Err(KycError::KycBelowRequiredLevel));
    assert_eq!(k.require_at_least(SUBJECT_A, KycLevel::Basic, 50), Ok(()));
}

#[test]
fn revoke_kyc_emits_correct_reason_hash() {
    let mut k = new_kyc();
    assert_eq!(k.set_kyc(Origin::Signed(ATTESTOR1), 1, SUBJECT_A, record(KycLevel::Basic, 1_000)), Ok(()));
    let raw_reason = b"document_fraud_detected";
    let expected_hash = sp_io::hashing::blake2_256(raw_reason);
    assert_eq!(k.revoke_kyc(Origin::Signed(ATTESTOR1), SUBJECT_A, raw_reason.to_vec()), Ok(()));
    assert!(matches!(
        k.events.last(),
        Some(KycEvent::KycRevoked { account, reason_hash }) if *account == SUBJECT_A && *reason_hash == expected_hash
    ));
    assert!(!k.kyc_records.contains_key(&SUBJECT_A));
}

#[test]
fn any_attestor_can_revoke_any_record() {
    let mut k = new_kyc();
    assert_eq!(
        k.set_kyc(Origin::Signed(ATTESTOR2), 1, SUBJECT_A, record_by(ATTESTOR2, KycLevel::Enhanced, 1_000)),
        Ok(())
    );
    assert!(k.kyc_records.contains_key(&SUBJECT_A));
    assert_eq!(k.revoke_kyc(Origin::Signed(ATTESTOR1), SUBJECT_A, b"cross-attestor revocation".to_vec()), Ok(()));
    assert!(!k.kyc_records.contains_key(&SUBJECT_A));
}
