use plim_chain::common::{Origin, OriginRule};
use plim_chain::ledger::Ledger;
use plim_chain::marketplace::{
    LicenseFacts, ListingCurrency, ListingStatus, Marketplace, MarketplaceConfig, MarketplaceError, OfferStatus,
    RoyaltyNotice,
};

const SELLER: u64 = 1;
const BUYER: u64 = 2;
const CREATOR: u64 = 3;
const ADMIN: u64 = 10;
const ITEM_1: u32 = 42;

fn setup() -> (Marketplace, Ledger) {
    let m = Marketplace::new(MarketplaceConfig {
        marketplace_origin: OriginRule::AnySigned,
        default_platform_fee_bp: 1500,
        max_active_listings_per_account: 5,
        treasury_pallet_id: *b"py/trsry",
    });
    let mut l = Ledger::new(1);
    for who in [1u64, 2, 3, 4, 10] {
        l.endow(who, 1_000_000);
    }
    let treasury = m.treasury_account();
    l.endow(treasury, 1_000);
    (m, l)
}

fn transferable() -> LicenseFacts {
    LicenseFacts { transferable: true, royalty: None }
}

fn origin(who: u64) -> Origin {
    Origin::Signed(who)
}

fn only_offer(m: &Marketplace) -> [u8; 32] {
    assert_eq!(m.offers.len(), 1);
    *m.offers.key_at(0)
}

#[test]
fn list_for_sale_happy_path() {
    let (mut m, _) = setup();
    assert_eq!(m.list_for_sale(origin(SELLER), 1, transferable(), ITEM_1, 10_000, ListingCurrency::PLIM), Ok(()));
    let listing = m.listing(ITEM_1).expect("listing should exist");
    assert_eq!(listing.seller, SELLER);
    assert_eq!(listing.price, 10_000);
    assert_eq!(listing.currency, ListingCurrency::PLIM);
    assert_eq!(listing.status, ListingStatus::Active);
    assert_eq!(m.active_listings_of(SELLER), 1);
}

#[test]
fn list_for_sale_rejects_zero_price() {
    let (mut m, _) = setup();
    assert_eq!(
        m.list_for_sale(origin(SELLER), 1, transferable(), ITEM_1, 0, ListingCurrency::PLIM),
        Err(MarketplaceError::PriceTooLow)
    );
    assert!(m.listing(ITEM_1).is_none());
}

#[test]
fn list_for_sale_rejects_duplicate() {
    let (mut m, _) = setup();
    assert_eq!(m.list_for_sale(origin(SELLER), 1, transferable(), ITEM_1, 10_000, ListingCurrency::PLIM), Ok(()));
    assert_eq!(
        m.list_for_sale(origin(SELLER), 1, transferable(), ITEM_1, 20_000, ListingCurrency::PLIM),
        Err(MarketplaceError::AlreadyListed)
    );
    assert_eq!(m.listing(ITEM_1).unwrap().price, 10_000);
}

#[test]
fn list_for_sale_rejects_non_transferable() {
    let (mut m, _) = setup();
    let facts = LicenseFacts { transferable: false, royalty: None };
    assert_eq!(
        m.list_for_sale(origin(SELLER), 1, facts, ITEM_1, 10_000, ListingCurrency::PLIM),
        Err(MarketplaceError::NotTransferable)
    );
}

#[test]
fn max_listings_per_account() {
    let (mut m, _) = setup();
    for i in 0..5u32 {
        assert_eq!(m.list_for_sale(origin(SELLER), 1, transferable(), 100 + i, 1_000, ListingCurrency::PLIM), Ok(()));
    }
    assert_eq!(m.active_listings_of(SELLER), 5);
    assert_eq!(
        m.list_for_sale(origin(SELLER), 1, transferable(), 200, 1_000, ListingCurrency::PLIM),
        Err(MarketplaceError::MaxListingsReached)
    );
}

#[test]
fn cancel_listing_only_by_seller() {
    let (mut m, _) = setup();
    assert_eq!(m.list_for_sale(origin(SELLER), 1, transferable(), ITEM_1, 10_000, ListingCurrency::PLIM), Ok(()));
    assert_eq!(m.cancel_listing(origin(BUYER), ITEM_1), Err(MarketplaceError::NotOwner));
    assert_eq!(m.cancel_listing(origin(SELLER), ITEM_1), Ok(()));
    let listing = m.listing(ITEM_1).expect("listing still stored");
    assert_eq!(listing.status, ListingStatus::Cancelled);
    assert_eq!(m.active_listings_of(SELLER), 0);
}

#[test]
fn cancel_non_existent_listing_fails() {
    let (mut m, _) = setup();
    assert_eq!(m.cancel_listing(origin(SELLER), 999), Err(MarketplaceError::NotListed));
}

#[test]
fn buy_now_splits_correctly() {
    let (mut m, mut l) = setup();
    let facts = LicenseFacts { transferable: true, royalty: Some((CREATOR, 1000)) };
    assert_eq!(m.list_for_sale(origin(SELLER), 1, facts, ITEM_1, 100_000, ListingCurrency::PLIM), Ok(()));
    let treasury = m.treasury_account();
    let seller_before = l.free_balance(SELLER);
    let buyer_before = l.free_balance(BUYER);
    let creator_before = l.free_balance(CREATOR);
    let treasury_before = l.free_balance(treasury);

    let notice = m.buy_now(&mut l, origin(BUYER), facts, ITEM_1);
    assert_eq!(
        notice,
        Ok(Some(RoyaltyNotice { creator: CREATOR, item_id: ITEM_1, amount: 10_000, currency: ListingCurrency::PLIM }))
    );
    assert_eq!(l.free_balance(CREATOR), creator_before + 10_000);
    assert_eq!(l.free_balance(treasury), treasury_before + 15_000);
    assert_eq!(l.free_balance(SELLER), seller_before + 75_000);
    assert_eq!(l.free_balance(BUYER), buyer_before - 100_000);
    assert_eq!(m.listing(ITEM_1).unwrap().status, ListingStatus::Sold);
}

#[test]
fn buy_now_no_royalty() {
    let (mut m, mut l) = setup();
    assert_eq!(m.list_for_sale(origin(SELLER), 1, transferable(), ITEM_1, 100_000, ListingCurrency::PLIM), Ok(()));
    let treasury = m.treasury_account();
    let seller_before = l.free_balance(SELLER);
    let treasury_before = l.free_balance(treasury);
    assert_eq!(m.buy_now(&mut l, origin(BUYER), transferable(), ITEM_1), Ok(None));
    assert_eq!(l.free_balance(treasury), treasury_before + 15_000);
    assert_eq!(l.free_balance(SELLER), seller_before + 85_000);
}

#[test]
fn buy_now_fails_if_not_transferable() {
    let (mut m, mut l) = setup();
    assert_eq!(m.list_for_sale(origin(SELLER), 1, transferable(), ITEM_1, 10_000, ListingCurrency::PLIM), Ok(()));
    let facts = LicenseFacts { transferable: false, royalty: None };
    let buyer_before = l.free_balance(BUYER);
    assert_eq!(m.buy_now(&mut l, origin(BUYER), facts, ITEM_1), Err(MarketplaceError::NotTransferable));
    assert_eq!(l.free_balance(BUYER), buyer_before);
    assert_eq!(m.listing(ITEM_1).unwrap().status, ListingStatus::Active);
}

#[test]
fn buy_now_fails_for_fiat_listing() {
    let (mut m, mut l) = setup();
    assert_eq!(m.list_for_sale(origin(SELLER), 1, transferable(), ITEM_1, 10_000, ListingCurrency::EURFiat), Ok(()));
    assert_eq!(m.buy_now(&mut l, origin(BUYER), transferable(), ITEM_1), Err(MarketplaceError::CannotBuyFiatOnChain));
}

#[test]
fn fiat_proof_happy_path() {
    let (mut m, _) = setup();
    assert_eq!(m.list_for_sale(origin(SELLER), 1, transferable(), ITEM_1, 50_000, ListingCurrency::EURFiat), Ok(()));
    let proof = [0xBBu8; 32];
    assert!(m.buy_now_with_fiat_proof(origin(ADMIN), transferable(), ITEM_1, BUYER, proof).is_ok());
    assert_eq!(m.listing(ITEM_1).unwrap().status, ListingStatus::Sold);
}

#[test]
fn offer_lifecycle_make_accept() {
    let (mut m, _) = setup();
    assert_eq!(m.list_for_sale(origin(SELLER), 1, transferable(), ITEM_1, 100_000, ListingCurrency::PLIM), Ok(()));
    assert_eq!(m.make_offer(origin(BUYER), 1, ITEM_1, 80_000, ListingCurrency::PLIM, 100), Ok(()));
    let offer_id = only_offer(&m);
    let offer = m.offer(&offer_id).unwrap();
    assert_eq!(offer.item_id, ITEM_1);
    assert_eq!(offer.bidder, BUYER);
    assert_eq!(offer.status, OfferStatus::Pending);
    assert_eq!(offer.amount, 80_000);
    assert_eq!(m.accept_offer(origin(SELLER), 1, offer_id), Ok(()));
    assert_eq!(m.offer(&offer_id).unwrap().status, OfferStatus::Accepted);
    assert_eq!(m.listing(ITEM_1).unwrap().status, ListingStatus::Sold);
}

#[test]
fn offer_lifecycle_make_reject() {
    let (mut m, _) = setup();
    assert_eq!(m.list_for_sale(origin(SELLER), 1, transferable(), ITEM_1, 100_000, ListingCurrency::PLIM), Ok(()));
    assert_eq!(m.make_offer(origin(BUYER), 1, ITEM_1, 50_000, ListingCurrency::PLIM, 100), Ok(()));
    let offer_id = only_offer(&m);
    assert_eq!(m.reject_offer(origin(SELLER), offer_id), Ok(()));
    assert_eq!(m.offer(&offer_id).unwrap().status, OfferStatus::Rejected);
    assert_eq!(m.listing(ITEM_1).unwrap().status, ListingStatus::Active);
}

#[test]
fn offer_lifecycle_make_withdraw() {
    let (mut m, _) = setup();
    assert_eq!(m.list_for_sale(origin(SELLER), 1, transferable(), ITEM_1, 100_000, ListingCurrency::PLIM), Ok(()));
    assert_eq!(m.make_offer(origin(BUYER), 1, ITEM_1, 60_000, ListingCurrency::PLIM, 100), Ok(()));
    let offer_id = only_offer(&m);
    assert_eq!(m.withdraw_offer(origin(SELLER), offer_id), Err(MarketplaceError::NotOwner));
    assert_eq!(m.withdraw_offer(origin(BUYER), offer_id), Ok(()));
    assert_eq!(m.offer(&offer_id).unwrap().status, OfferStatus::Withdrawn);
}

#[test]
fn offer_reject_requires_seller() {
    let (mut m, _) = setup();
    assert_eq!(m.list_for_sale(origin(SELLER), 1, transferable(), ITEM_1, 10_000, ListingCurrency::PLIM), Ok(()));
    assert_eq!(m.make_offer(origin(BUYER), 1, ITEM_1, 5_000, ListingCurrency::PLIM, 100), Ok(()));
    let offer_id = only_offer(&m);
    assert_eq!(m.reject_offer(origin(BUYER), offer_id), Err(MarketplaceError::NotOwner));
    assert_eq!(m.offer(&offer_id).unwrap().status, OfferStatus::Pending);
}

#[test]
fn platform_fee_update_admin_only() {
    let (mut m, _) = setup();
    assert_eq!(m.platform_fee_bp, 1500);
    assert_eq!(m.update_platform_fee(origin(ADMIN), 2000), Ok(()));
    assert_eq!(m.platform_fee_bp, 2000);
    assert_eq!(m.update_platform_fee(origin(ADMIN), 3001), Err(MarketplaceError::InvalidFee));
    assert_eq!(m.update_platform_fee(origin(ADMIN), 3000), Ok(()));
    assert_eq!(m.platform_fee_bp, 3000);
}

#[test]
fn buy_now_on_non_existent_listing_fails() {
    let (mut m, mut l) = setup();
    assert_eq!(m.buy_now(&mut l, origin(BUYER), transferable(), 999), Err(MarketplaceError::NotListed));
}

#[test]
fn make_offer_on_non_existent_listing_fails() {
    let (mut m, _) = setup();
    assert_eq!(m.make_offer(origin(BUYER), 1, 999, 1_000, ListingCurrency::PLIM, 100), Err(MarketplaceError::NotListed));
}

#[test]
fn accept_expired_offer_fails() {
    let (mut m, _) = setup();
    assert_eq!(m.list_for_sale(origin(SELLER), 1, transferable(), ITEM_1, 10_000, ListingCurrency::PLIM), Ok(()));
    assert_eq!(m.make_offer(origin(BUYER), 1, ITEM_1, 5_000, ListingCurrency::PLIM, 1), Ok(()));
    let offer_id = only_offer(&m);
    assert_eq!(m.accept_offer(origin(SELLER), 100, offer_id), Err(MarketplaceError::OfferExpired));
}

#[test]
fn cancel_then_relist() {
    let (mut m, _) = setup();
    assert_eq!(m.list_for_sale(origin(SELLER), 1, transferable(), ITEM_1, 10_000, ListingCurrency::PLIM), Ok(()));
    assert_eq!(m.cancel_listing(origin(SELLER), ITEM_1), Ok(()));
    let _ = m.listings.remove(&ITEM_1);
    assert_eq!(m.list_for_sale(origin(SELLER), 1, transferable(), ITEM_1, 20_000, ListingCurrency::PEUR), Ok(()));
    let listing = m.listing(ITEM_1).unwrap();
    assert_eq!(listing.price, 20_000);
    assert_eq!(listing.currency, ListingCurrency::PEUR);
}
