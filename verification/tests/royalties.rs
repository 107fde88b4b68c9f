use plim_chain::common::{Origin, OriginRule};
use plim_chain::ledger::Ledger;
use plim_chain::royalties::{
    royalty_payment_id, Royalties, RoyaltiesConfig, RoyaltiesError, RoyaltiesEvent, RoyaltyCurrency,
};

fn royalties() -> Royalties {
    Royalties::genesis(RoyaltiesConfig { admin_origin: OriginRule::Root }, None, 0)
}

fn ledger() -> Ledger {
    let mut l = Ledger::new(1);
    for (who, amount) in [(1u64, 1_000_000u128), (2, 1_000_000), (3, 1_000_000), (99, 10_000_000)] {
        l.endow(who, amount);
    }
    l
}

fn accumulated(r: &Royalties, creator: u64, currency: RoyaltyCurrency) -> u128 {
    r.accumulated_royalties.get(&(creator, currency)).copied().unwrap_or(0)
}

#[test]
fn on_royalty_paid_accumulates_correctly() {
    let mut r = royalties();
    r.on_royalty_paid(1, 42, 500, RoyaltyCurrency::PLIM, 1);
    r.on_royalty_paid(1, 43, 300, RoyaltyCurrency::PLIM, 1);
    assert_eq!(accumulated(&r, 1, RoyaltyCurrency::PLIM), 800);
    r.on_royalty_paid(1, 44, 100, RoyaltyCurrency::PEUR, 1);
    assert_eq!(accumulated(&r, 1, RoyaltyCurrency::PEUR), 100);
    assert_eq!(accumulated(&r, 1, RoyaltyCurrency::PLIM), 800);
}

#[test]
fn royalty_history_recorded() {
    let mut r = royalties();
    r.on_royalty_paid(2, 99, 1_000, RoyaltyCurrency::EURFiat, 10);
    assert_eq!(r.payment_count, 1);
    assert_eq!(r.total_royalties_paid, 1_000);
    assert_eq!(r.royalty_history.len(), 1);
    let payment = r.royalty_history.value_at(0);
    assert_eq!(payment.creator, 2);
    assert_eq!(payment.item_id, 99);
    assert_eq!(payment.amount, 1_000);
    assert_eq!(payment.currency, RoyaltyCurrency::EURFiat);
    assert_eq!(payment.block_number, 10);
    assert!(!payment.claimed);
    let mut encoded = Vec::new();
    encoded.extend_from_slice(&2u64.to_le_bytes());
    encoded.extend_from_slice(&99u32.to_le_bytes());
    encoded.extend_from_slice(&10u64.to_le_bytes());
    let expected_id = sp_io::hashing::blake2_256(&encoded);
    assert_eq!(*r.royalty_history.key_at(0), expected_id);
    assert_eq!(royalty_payment_id(2, 99, 10), expected_id);
}

#[test]
fn claim_royalties_resets_balance() {
    let mut r = royalties();
    r.on_royalty_paid(1, 10, 500, RoyaltyCurrency::PEUR, 1);
    assert_eq!(accumulated(&r, 1, RoyaltyCurrency::PEUR), 500);
    assert_eq!(r.claim_accumulated_royalties(Origin::Signed(1), RoyaltyCurrency::PEUR), Ok(()));
    assert_eq!(accumulated(&r, 1, RoyaltyCurrency::PEUR), 0);
    assert!(matches!(
        r.events.last(),
        Some(RoyaltiesEvent::RoyaltyClaimed { creator: 1, amount: 500, currency: RoyaltyCurrency::PEUR })
    ));
}

#[test]
fn claim_royalties_fails_if_zero() {
    let mut r = royalties();
    assert_eq!(
        r.claim_accumulated_royalties(Origin::Signed(1), RoyaltyCurrency::PLIM),
        Err(RoyaltiesError::NoAccumulatedRoyalties)
    );
}

#[test]
fn platform_fee_max_30_pct() {
    let mut r = royalties();
    assert_eq!(r.update_platform_fee(Origin::Root, 3000), Ok(()));
    assert_eq!(r.platform_fee_bp, 3000);
    assert_eq!(r.update_platform_fee(Origin::Root, 3001), Err(RoyaltiesError::InvalidFee));
    assert_eq!(r.platform_fee_bp, 3000);
}

#[test]
fn set_treasury_admin_only() {
    let mut r = royalties();
    assert_eq!(r.set_platform_treasury(Origin::Signed(1), 99), Err(RoyaltiesError::BadOrigin));
    assert_eq!(r.set_platform_treasury(Origin::Root, 99), Ok(()));
    assert_eq!(r.platform_treasury, Some(99));
}

#[test]
fn update_platform_fee_admin_only() {
    let mut r = royalties();
    assert_eq!(r.update_platform_fee(Origin::Signed(1), 100), Err(RoyaltiesError::BadOrigin));
}

#[test]
fn claim_plim_does_not_double_mint() {
    let mut r = royalties();
    let mut l = ledger();
    let buyer = 2u64;
    let creator = 1u64;
    let royalty_amount = 10_000u128;
    let creator_before = l.free_balance(creator);
    let buyer_before = l.free_balance(buyer);
    assert_eq!(l.transfer(buyer, creator, royalty_amount, true), Ok(()));
    let creator_after_sale = l.free_balance(creator);
    assert_eq!(creator_after_sale, creator_before + royalty_amount);
    assert_eq!(l.free_balance(buyer), buyer_before - royalty_amount);
    r.on_royalty_paid(creator, 77, royalty_amount, RoyaltyCurrency::PLIM, 1);
    assert_eq!(accumulated(&r, creator, RoyaltyCurrency::PLIM), royalty_amount);
    assert_eq!(r.claim_accumulated_royalties(Origin::Signed(creator), RoyaltyCurrency::PLIM), Ok(()));
    assert_eq!(l.free_balance(creator), creator_after_sale);
    assert_eq!(accumulated(&r, creator, RoyaltyCurrency::PLIM), 0);
}

#[test]
fn claim_non_plim_arm_does_not_touch_native_balance() {
    let mut r = royalties();
    let l = ledger();
    let creator = 1u64;
    let creator_before = l.free_balance(creator);
    r.on_royalty_paid(creator, 88, 5_000, RoyaltyCurrency::PEUR, 1);
    assert_eq!(r.claim_accumulated_royalties(Origin::Signed(creator), RoyaltyCurrency::PEUR), Ok(()));
    assert_eq!(l.free_balance(creator), creator_before);
    assert_eq!(accumulated(&r, creator, RoyaltyCurrency::PEUR), 0);
}

#[test]
fn genesis_caps_fee() {
    let r = Royalties::genesis(RoyaltiesConfig { admin_origin: OriginRule::Root }, Some(7), 5000);
    assert_eq!(r.platform_fee_bp, 3000);
    assert_eq!(r.platform_treasury, Some(7));
}
