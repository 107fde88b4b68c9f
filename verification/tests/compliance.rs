use plim_chain::common::{Origin, OriginRule};
use plim_chain::compliance::{
    jurisdiction_hash, Compliance, ComplianceConfig, ComplianceError, ComplianceEvent, CompliancePolicy,
    ComplianceResult, KYCLevel,
};

fn compliance(max_audit: u32) -> Compliance {
    Compliance::new(ComplianceConfig {
        admin_origin: OriginRule::Root,
        max_jurisdiction_len: 8,
        max_event_type_len: 32,
        max_audit_entries: max_audit,
        max_policies: 4,
    })
}

fn policy() -> CompliancePolicy {
    CompliancePolicy {
        jurisdiction: b"CH".to_vec(),
        min_kyc_level: KYCLevel::Enhanced,
        max_single_tx: 1_000,
        max_daily: 0,
        aml_required: true,
        updated_by: 0,
        updated_at: 0,
    }
}

#[test]
fn kyc_levels_are_ordered() {
    assert!(KYCLevel::Unverified < KYCLevel::Basic);
    assert!(KYCLevel::BusinessVerified < KYCLevel::GovernmentVerified);
}

#[test]
fn set_kyc_status_is_admin_only_and_audited() {
    let mut c = compliance(10);
    assert_eq!(c.set_kyc_status(Origin::Signed(1), 1, 5, KYCLevel::Basic), Err(ComplianceError::BadOrigin));
    assert_eq!(c.set_kyc_status(Origin::Root, 1, 5, KYCLevel::Basic), Ok(()));
    assert_eq!(c.kyc_status_map.get(&5).copied(), Some(KYCLevel::Basic));
    assert_eq!(c.audit_trail.len(), 1);
    assert_eq!(c.audit_trail[0].event_type, b"kyc_update".to_vec());
    assert_eq!(c.audit_trail[0].result, None);
    assert_eq!(c.audit_count, 1);
}

#[test]
fn check_compliance_applies_the_policy() {
    let mut c = compliance(10);
    assert_eq!(
        c.check_compliance(Origin::Signed(1), 1, 5, b"CH".to_vec(), 10, true),
        Err(ComplianceError::JurisdictionNotFound)
    );
    let mut enc = vec![2u8 << 2];
    enc.extend_from_slice(b"CH");
    assert_eq!(jurisdiction_hash(b"CH"), sp_io::hashing::blake2_256(&enc));
    c.compliance_policies.insert(jurisdiction_hash(b"CH"), policy());
    assert_eq!(c.check_compliance(Origin::Signed(1), 1, 5, b"CH".to_vec(), 10, true), Ok(()));
    assert!(matches!(c.events.last(), Some(ComplianceEvent::ComplianceChecked { result: ComplianceResult::Rejected, .. })));
    assert_eq!(c.set_kyc_status(Origin::Root, 2, 5, KYCLevel::GovernmentVerified), Ok(()));
    assert_eq!(c.check_compliance(Origin::Signed(1), 3, 5, b"CH".to_vec(), 1_000, true), Ok(()));
    assert!(matches!(c.events.last(), Some(ComplianceEvent::ComplianceChecked { result: ComplianceResult::Approved, .. })));
    assert_eq!(c.check_compliance(Origin::Signed(1), 3, 5, b"CH".to_vec(), 1_001, true), Ok(()));
    assert!(matches!(c.events.last(), Some(ComplianceEvent::ComplianceChecked { result: ComplianceResult::Rejected, .. })));
    assert_eq!(c.check_compliance(Origin::Signed(1), 3, 5, b"CH".to_vec(), 10, false), Ok(()));
    assert!(matches!(c.events.last(), Some(ComplianceEvent::ComplianceChecked { result: ComplianceResult::Rejected, .. })));
    assert_eq!(c.audit_trail.last().unwrap().event_type, b"compliance_check".to_vec());
}

#[test]
fn audit_trail_drops_oldest_when_full() {
    let mut c = compliance(2);
    for (i, tag) in [b"a", b"b", b"c"].iter().enumerate() {
        assert_eq!(c.log_compliance_event(Origin::Signed(1), i as u64, 7, tag.to_vec()), Ok(()));
    }
    assert_eq!(c.audit_trail.len(), 2);
    assert_eq!(c.audit_trail[0].event_type, b"b".to_vec());
    assert_eq!(c.audit_trail[1].event_type, b"c".to_vec());
    assert_eq!(c.audit_count, 3);
    let mut none = compliance(0);
    assert_eq!(none.log_compliance_event(Origin::Signed(1), 0, 7, b"x".to_vec()), Ok(()));
    assert_eq!(none.audit_trail.len(), 0);
    assert_eq!(none.audit_count, 1);
}
