use plim_chain::common::Origin;
use plim_chain::kyc::{Kyc, KycConfig, KycRecord};
use plim_chain::ledger::Ledger;
use plim_chain::rwa::{
    Currency, KycLevel, PaymentProof, Rwa, RwaAsset, RwaConfig, RwaError, RwaEvent, RwaStatus,
};

const ALICE: u64 = 1;
const BOB: u64 = 2;
const CHARLIE: u64 = 3;
const DAVE: u64 = 4;
const EVE: u64 = 5;
const ATTESTOR: u64 = 100;

struct World {
    rwa: Rwa,
    ledger: Ledger,
    kyc: Kyc,
}

fn set_level(kyc: &mut Kyc, who: u64, level: KycLevel) {
    if level == KycLevel::Unverified {
        assert_eq!(kyc.revoke_kyc(Origin::Root, who, vec![]), Ok(()));
    } else {
        let record = KycRecord {
            level,
            attested_by: ATTESTOR,
            attested_at: 1,
            expires_at: u64::MAX,
            document_hash: [0u8; 32],
            country_code: *b"CH",
        };
        assert_eq!(kyc.set_kyc(Origin::Signed(ATTESTOR), 1, who, record), Ok(()));
    }
}

fn world() -> World {
    let mut ledger = Ledger::new(1);
    ledger.endow(ALICE, 1_000_000_000);
    for who in [BOB, CHARLIE, DAVE, EVE] {
        ledger.endow(who, 1_000_000);
    }
    let mut kyc = Kyc::genesis(KycConfig { max_attestors: 10 }, &vec![ATTESTOR]);
    for who in [ALICE, BOB, CHARLIE, DAVE] {
        set_level(&mut kyc, who, KycLevel::Institutional);
    }
    let rwa = Rwa::new(RwaConfig { max_distributions_per_claim: 50, max_shareholders_per_distribution: 10_000 });
    World { rwa, ledger, kyc }
}

fn make_asset(total_supply: u128, kyc: KycLevel) -> RwaAsset {
    RwaAsset {
        symbol: b"PLIM-RE1".to_vec(),
        name: b"pLim Swiss RE Fund I".to_vec(),
        description_hash: [0xAB; 32],
        total_supply,
        kyc_required: kyc,
        yield_currency: Currency::PEur,
        nav_currency: Currency::PEur,
        jurisdiction: *b"CH",
        created_at_block: 1,
        manager: ALICE,
    }
}

fn install_asset(w: &mut World, id: u32, asset: RwaAsset) {
    w.rwa.assets.insert(id, asset);
    w.rwa.asset_status.insert(id, RwaStatus::Active);
}

fn payment_proof(payer: u64, amount: u128) -> PaymentProof {
    PaymentProof { payer, amount, proof_hash: [0x01; 32] }
}

fn mint(w: &mut World, to: u64, amount: u128) -> Result<(), RwaError> {
    w.rwa.mint_shares(Origin::Signed(ALICE), 1, &w.kyc, 1, to, amount, payment_proof(ALICE, amount))
}

fn transfer(w: &mut World, from: u64, to: u64, amount: u128) -> Result<(), RwaError> {
    w.rwa.transfer_shares(Origin::Signed(from), 1, &w.kyc, 1, to, amount)
}

fn distribute(w: &mut World, from: u64, amount: u128, currency: Currency) -> Result<(), RwaError> {
    w.rwa.distribute_yield(&mut w.ledger, Origin::Signed(from), 1, 1, amount, currency, [0u8; 32])
}

#[test]
fn register_asset_non_root_fails() {
    let mut w = world();
    let asset = make_asset(1_000, KycLevel::Basic);
    assert_eq!(w.rwa.register_asset(Origin::Signed(ALICE), asset), Err(RwaError::BadOrigin));
    assert_eq!(w.rwa.assets.len(), 0);
}

#[test]
fn mint_shares_over_supply_fails() {
    let mut w = world();
    install_asset(&mut w, 1, make_asset(100, KycLevel::Basic));
    set_level(&mut w.kyc, BOB, KycLevel::Basic);
    assert_eq!(mint(&mut w, BOB, 101), Err(RwaError::TotalSupplyExceeded));
    assert_eq!(w.rwa.shares(1, BOB), 0);
}

#[test]
fn mint_shares_unkyced_receiver_fails() {
    let mut w = world();
    install_asset(&mut w, 1, make_asset(1_000, KycLevel::Basic));
    assert_eq!(mint(&mut w, EVE, 10), Err(RwaError::ReceiverKycFailed));
}

#[test]
fn transfer_shares_sender_kyc_fails() {
    let mut w = world();
    install_asset(&mut w, 1, make_asset(1_000, KycLevel::Enhanced));
    assert_eq!(mint(&mut w, BOB, 100), Ok(()));
    set_level(&mut w.kyc, BOB, KycLevel::Unverified);
    set_level(&mut w.kyc, CHARLIE, KycLevel::Enhanced);
    assert_eq!(transfer(&mut w, BOB, CHARLIE, 10), Err(RwaError::SenderKycFailed));
    assert_eq!(w.rwa.shares(1, BOB), 100);
}

#[test]
fn transfer_shares_receiver_kyc_fails() {
    let mut w = world();
    install_asset(&mut w, 1, make_asset(1_000, KycLevel::Enhanced));
    assert_eq!(mint(&mut w, BOB, 100), Ok(()));
    assert_eq!(transfer(&mut w, BOB, EVE, 10), Err(RwaError::ReceiverKycFailed));
}

#[test]
fn transfer_shares_when_frozen_fails() {
    let mut w = world();
    install_asset(&mut w, 1, make_asset(1_000, KycLevel::Basic));
    set_level(&mut w.kyc, BOB, KycLevel::Basic);
    set_level(&mut w.kyc, CHARLIE, KycLevel::Basic);
    assert_eq!(mint(&mut w, BOB, 100), Ok(()));
    assert_eq!(w.rwa.freeze(Origin::Root, 1), Ok(()));
    assert_eq!(transfer(&mut w, BOB, CHARLIE, 10), Err(RwaError::AssetFrozen));
}

#[test]
fn distribute_yield_pro_rata() {
    let mut w = world();
    install_asset(&mut w, 1, make_asset(1_000, KycLevel::Basic));
    w.rwa.shareholders.insert((1, BOB), 50);
    w.rwa.shareholders.insert((1, CHARLIE), 30);
    w.rwa.shareholders.insert((1, DAVE), 20);
    w.rwa.total_issued.insert(1, 100);
    assert_eq!(w.rwa.distribute_yield(&mut w.ledger, Origin::Signed(ALICE), 1, 1, 1_000, Currency::PEur, [0xCD; 32]), Ok(()));
    let bob = w.rwa.unclaimed(1, 0, BOB);
    let charlie = w.rwa.unclaimed(1, 0, CHARLIE);
    let dave = w.rwa.unclaimed(1, 0, DAVE);
    assert_eq!(bob, 500);
    assert_eq!(charlie, 300);
    assert_eq!(dave, 200);
    assert_eq!(bob + charlie + dave, 1_000);
    assert_eq!(w.rwa.next_distribution(1), 1);
}

#[test]
fn claim_yield_double_claim_fails() {
    let mut w = world();
    install_asset(&mut w, 1, make_asset(1_000, KycLevel::Basic));
    w.rwa.shareholders.insert((1, BOB), 100);
    w.rwa.total_issued.insert(1, 100);
    assert_eq!(distribute(&mut w, ALICE, 500, Currency::PEur), Ok(()));
    let before = w.ledger.free_balance(BOB);
    assert_eq!(w.rwa.claim_yield(&mut w.ledger, Origin::Signed(BOB), 1, 0), Ok(()));
    assert_eq!(w.ledger.free_balance(BOB) - before, 500);
    assert_eq!(w.rwa.claim_yield(&mut w.ledger, Origin::Signed(BOB), 1, 0), Err(RwaError::NothingToClaim));
}

#[test]
fn claim_all_yield_bounded_to_max() {
    let mut w = world();
    install_asset(&mut w, 1, make_asset(1_000_000, KycLevel::Basic));
    w.rwa.shareholders.insert((1, BOB), 100);
    w.rwa.total_issued.insert(1, 100);
    for _ in 0..100u32 {
        assert_eq!(distribute(&mut w, ALICE, 100, Currency::Plim), Ok(()));
    }
    let count = |w: &World| (0u64..100).filter(|d| w.rwa.unclaimed(1, *d, BOB) != 0).count() as u32;
    let count_before = count(&w);
    assert_eq!(count_before, 100);
    let before = w.ledger.free_balance(BOB);
    assert_eq!(w.rwa.claim_all_yield(&mut w.ledger, Origin::Signed(BOB), 1), Ok(()));
    let count_after = count(&w);
    assert_eq!(count_before - count_after, 50);
    assert_eq!(w.ledger.free_balance(BOB) - before, 5_000);
}

#[test]
fn freeze_blocks_mint_and_transfer_allows_claim() {
    let mut w = world();
    install_asset(&mut w, 1, make_asset(1_000, KycLevel::Basic));
    set_level(&mut w.kyc, BOB, KycLevel::Basic);
    set_level(&mut w.kyc, CHARLIE, KycLevel::Basic);
    assert_eq!(mint(&mut w, BOB, 100), Ok(()));
    assert_eq!(distribute(&mut w, ALICE, 500, Currency::Plim), Ok(()));
    assert_eq!(w.rwa.freeze(Origin::Root, 1), Ok(()));
    assert_eq!(mint(&mut w, BOB, 1), Err(RwaError::AssetFrozen));
    assert_eq!(transfer(&mut w, BOB, CHARLIE, 1), Err(RwaError::AssetFrozen));
    assert_eq!(w.rwa.claim_yield(&mut w.ledger, Origin::Signed(BOB), 1, 0), Ok(()));
}

#[test]
fn unfreeze_restores_ops() {
    let mut w = world();
    install_asset(&mut w, 1, make_asset(1_000, KycLevel::Basic));
    set_level(&mut w.kyc, BOB, KycLevel::Basic);
    set_level(&mut w.kyc, CHARLIE, KycLevel::Basic);
    assert_eq!(mint(&mut w, BOB, 100), Ok(()));
    assert_eq!(w.rwa.freeze(Origin::Root, 1), Ok(()));
    assert_eq!(w.rwa.unfreeze(Origin::Root, 1), Ok(()));
    assert_eq!(mint(&mut w, BOB, 10), Ok(()));
    assert_eq!(transfer(&mut w, BOB, CHARLIE, 5), Ok(()));
    assert_eq!(w.rwa.shares(1, BOB), 105);
    assert_eq!(w.rwa.shares(1, CHARLIE), 5);
}

#[test]
fn wind_down_blocks_mint() {
    let mut w = world();
    install_asset(&mut w, 1, make_asset(1_000, KycLevel::Basic));
    set_level(&mut w.kyc, BOB, KycLevel::Basic);
    assert_eq!(w.rwa.wind_down(Origin::Root, 1), Ok(()));
    assert_eq!(w.rwa.status(1), RwaStatus::WoundDown);
    assert_eq!(mint(&mut w, BOB, 10), Err(RwaError::AssetWoundDown));
}

#[test]
fn snapshot_is_atomic() {
    let mut w = world();
    install_asset(&mut w, 1, make_asset(1_000, KycLevel::Basic));
    set_level(&mut w.kyc, BOB, KycLevel::Basic);
    set_level(&mut w.kyc, CHARLIE, KycLevel::Basic);
    w.rwa.shareholders.insert((1, BOB), 100);
    w.rwa.total_issued.insert(1, 100);
    assert_eq!(distribute(&mut w, ALICE, 500, Currency::Plim), Ok(()));
    assert_eq!(w.rwa.unclaimed(1, 0, BOB), 500);
    assert_eq!(w.rwa.unclaimed(1, 0, CHARLIE), 0);
    assert_eq!(w.rwa.transfer_shares(Origin::Signed(BOB), 2, &w.kyc, 1, CHARLIE, 50), Ok(()));
    assert_eq!(w.rwa.unclaimed(1, 0, CHARLIE), 0);
    assert_eq!(w.rwa.unclaimed(1, 0, BOB), 500);
}

#[test]
fn burn_shares_emits_burn_requested() {
    let mut w = world();
    install_asset(&mut w, 1, make_asset(1_000, KycLevel::Basic));
    set_level(&mut w.kyc, BOB, KycLevel::Basic);
    assert_eq!(mint(&mut w, BOB, 100), Ok(()));
    assert_eq!(w.rwa.burn_shares(Origin::Signed(BOB), 1, 25), Ok(()));
    assert!(matches!(
        w.rwa.events.last(),
        Some(RwaEvent::BurnRequested { asset_id: 1, account: BOB, amount: 25 })
    ));
    assert_eq!(w.rwa.shares(1, BOB), 75);
}

#[test]
fn distribute_yield_non_manager_fails() {
    let mut w = world();
    install_asset(&mut w, 1, make_asset(1_000, KycLevel::Basic));
    w.rwa.shareholders.insert((1, BOB), 100);
    w.rwa.total_issued.insert(1, 100);
    assert_eq!(distribute(&mut w, BOB, 500, Currency::Plim), Err(RwaError::ManagerOnly));
    assert_eq!(w.rwa.next_distribution(1), 0);
}

#[test]
fn issued_shares_match_holdings_and_supply() {
    let mut w = world();
    install_asset(&mut w, 1, make_asset(100, KycLevel::Basic));
    assert_eq!(mint(&mut w, BOB, 60), Ok(()));
    assert_eq!(mint(&mut w, CHARLIE, 30), Ok(()));
    assert_eq!(transfer(&mut w, BOB, DAVE, 20), Ok(()));
    assert_eq!(transfer(&mut w, DAVE, DAVE, 5), Ok(()));
    assert_eq!(w.rwa.burn_shares(Origin::Signed(CHARLIE), 1, 10), Ok(()));
    let held: u128 = [ALICE, BOB, CHARLIE, DAVE, EVE].iter().map(|who| w.rwa.shares(1, *who)).sum();
    assert_eq!((w.rwa.shares(1, BOB), w.rwa.shares(1, CHARLIE), w.rwa.shares(1, DAVE)), (40, 20, 20));
    assert_eq!(w.rwa.issued(1), 80);
    assert_eq!(held, 80);
    assert_eq!(mint(&mut w, EVE, 21).is_err(), true);
    assert_eq!(mint(&mut w, BOB, 21), Err(RwaError::TotalSupplyExceeded));
    assert_eq!(mint(&mut w, BOB, 20), Ok(()));
    assert_eq!(w.rwa.issued(1), 100);
}
