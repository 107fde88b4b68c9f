use plim_chain::common::Origin;
use plim_chain::ledger::{BalanceError, Ledger};
use plim_chain::payments::{
    generate_id, FlowType, Payments, PaymentsConfig, PaymentsError, PaymentsEvent, PaymentStatus,
};

fn setup() -> (Payments, Ledger) {
    let mut l = Ledger::new(1);
    l.endow(1, 1_000);
    l.endow(2, 1_000);
    (Payments::new(PaymentsConfig { max_service_id_length: 32 }), l)
}

fn expected_id(who: u64, nonce: u64) -> [u8; 32] {
    let mut enc = who.to_le_bytes().to_vec();
    enc.extend_from_slice(&nonce.to_le_bytes());
    sp_io::hashing::blake2_256(&enc)
}

#[test]
fn ids_hash_account_and_nonce() {
    assert_eq!(generate_id(1, 0), expected_id(1, 0));
    assert_ne!(generate_id(1, 0), generate_id(1, 1));
}

#[test]
fn intent_executes_once() {
    let (mut p, mut l) = setup();
    assert_eq!(p.create_intent(Origin::Signed(1), 5, 2, 0, b"svc".to_vec(), FlowType::P2AI, None), Err(PaymentsError::ZeroAmount));
    assert_eq!(p.create_intent(Origin::Signed(1), 5, 2, 100, vec![], FlowType::P2AI, None), Err(PaymentsError::EmptyServiceId));
    assert_eq!(p.create_intent(Origin::Signed(1), 5, 2, 100, b"svc".to_vec(), FlowType::P2AI, None), Ok(()));
    let id = expected_id(1, 0);
    assert_eq!(p.payment_nonce, 1);
    assert_eq!(p.payment_intents.get(&id).unwrap().status, PaymentStatus::Pending);
    assert_eq!(p.execute_payment(&mut l, Origin::Signed(2), id), Err(PaymentsError::NotAuthorized));
    assert_eq!(p.execute_payment(&mut l, Origin::Signed(1), id), Ok(()));
    assert_eq!(l.free_balance(1), 900);
    assert_eq!(l.free_balance(2), 1_100);
    assert_eq!(p.payment_intents.get(&id).unwrap().status, PaymentStatus::Settled);
    assert_eq!(p.payments.get(&id).unwrap().status, PaymentStatus::Settled);
    assert_eq!(p.payments.get(&id).unwrap().service_id, b"svc".to_vec());
    assert_eq!(p.execute_payment(&mut l, Origin::Signed(1), id), Err(PaymentsError::InvalidPaymentStatus));
    assert_eq!(p.refund_payment(Origin::Signed(2), id, vec![]), Err(PaymentsError::InvalidPaymentStatus));
}

#[test]
fn failed_transfer_marks_intent_failed() {
    let (mut p, mut l) = setup();
    assert_eq!(p.create_intent(Origin::Signed(1), 5, 2, 1_000, b"svc".to_vec(), FlowType::B2AI, None), Ok(()));
    let id = expected_id(1, 0);
    assert_eq!(p.execute_payment(&mut l, Origin::Signed(1), id), Ok(()));
    assert_eq!(l.free_balance(1), 1_000);
    assert_eq!(p.payment_intents.get(&id).unwrap().status, PaymentStatus::Failed);
    assert!(matches!(p.events.last(), Some(PaymentsEvent::PaymentFailed { reason, .. }) if reason == b"transfer_failed"));
    assert_eq!(p.refund_payment(Origin::Signed(3), id, vec![]), Err(PaymentsError::NotAuthorized));
    assert_eq!(p.refund_payment(Origin::Signed(2), id, vec![]), Ok(()));
    assert_eq!(p.payment_intents.get(&id).unwrap().status, PaymentStatus::Refunded);
}

#[test]
fn escrow_reserves_then_releases() {
    let (mut p, mut l) = setup();
    assert_eq!(p.create_escrow(&mut l, Origin::Signed(1), 10, 2, 300, [9; 32], 0), Err(PaymentsError::ZeroDuration));
    assert_eq!(p.create_escrow(&mut l, Origin::Signed(1), 10, 2, 2_000, [9; 32], 5), Err(PaymentsError::InsufficientBalance));
    assert_eq!(p.create_escrow(&mut l, Origin::Signed(1), 10, 2, 300, [9; 32], 5), Ok(()));
    let id = expected_id(1, 0);
    assert_eq!(l.free_balance(1), 700);
    assert_eq!(l.reserved_balance(1), 300);
    assert_eq!(p.escrow_accounts.get(&id).unwrap().expires_at, 15);
    assert_eq!(p.release_escrow(&mut l, Origin::Signed(2), 12, id), Err(PaymentsError::NotAuthorized));
    assert_eq!(p.release_escrow(&mut l, Origin::Signed(1), 16, id), Err(PaymentsError::EscrowExpired));
    assert_eq!(p.release_escrow(&mut l, Origin::Signed(1), 15, id), Ok(()));
    assert_eq!(l.reserved_balance(1), 0);
    assert_eq!(l.free_balance(1), 700);
    assert_eq!(l.free_balance(2), 1_300);
    assert_eq!(p.release_escrow(&mut l, Origin::Signed(1), 15, id), Err(PaymentsError::EscrowAlreadyReleased));
}

#[test]
fn release_to_dust_beneficiary_fails_whole() {
    let mut l = Ledger::new(10);
    l.endow(1, 1_000);
    let mut p = Payments::new(PaymentsConfig { max_service_id_length: 32 });
    assert_eq!(p.create_escrow(&mut l, Origin::Signed(1), 10, 5, 5, [9; 32], 5), Ok(()));
    let id = expected_id(1, 0);
    assert_eq!(
        p.release_escrow(&mut l, Origin::Signed(1), 12, id),
        Err(PaymentsError::Balance(BalanceError::BelowMinimum))
    );
    assert_eq!(l.reserved_balance(1), 5);
    assert!(!p.escrow_accounts.get(&id).unwrap().released);
}
