use plim_chain::bridges::{LicenseBridge, RoyaltyBridge};
use plim_chain::common::{Origin, OriginRule};
use plim_chain::ledger::Ledger;
use plim_chain::licenses::{Jurisdiction, LicenseType, Licenses, LicensesConfig, PaymentMethod};
use plim_chain::marketplace::{ListingCurrency, Marketplace, MarketplaceConfig};
use plim_chain::royalties::{Royalties, RoyaltiesConfig, RoyaltyCurrency};

#[test]
fn sale_records_the_royalty_it_paid() {
    let mut licenses = Licenses::new(LicensesConfig {
        marketplace_origin: OriginRule::Root,
        admin_origin: OriginRule::Root,
        license_collection_id: 1,
        max_geo_restrictions: 10,
        max_platform_restrictions: 5,
    });
    assert_eq!(
        licenses.mint_license(
            Origin::Root, 1, 1, LicenseType::Commercial, 1, 3, 0, 0, true, false, false, false, false, false, false,
            1000, None, None, None, vec![], vec![], Jurisdiction::Global, PaymentMethod::PLIM, vec![], None,
        ),
        Ok(())
    );
    let facts = LicenseBridge::license_facts(&licenses, 0);
    assert!(facts.transferable);
    assert_eq!(facts.royalty, Some((3, 1000)));
    assert_eq!(RoyaltyBridge::royalty_currency(ListingCurrency::PEUR), RoyaltyCurrency::PEUR);

    let mut market = Marketplace::new(MarketplaceConfig {
        marketplace_origin: OriginRule::AnySigned,
        default_platform_fee_bp: 1500,
        max_active_listings_per_account: 5,
        treasury_pallet_id: *b"py/trsry",
    });
    let mut ledger = Ledger::new(1);
    for who in [1u64, 2, 3] {
        ledger.endow(who, 1_000_000);
    }
    let mut royalties = Royalties::genesis(RoyaltiesConfig { admin_origin: OriginRule::Root }, None, 0);
    assert_eq!(market.list_for_sale(Origin::Signed(1), 1, facts, 0, 100_000, ListingCurrency::PLIM), Ok(()));
    let creator_before = ledger.free_balance(3);
    assert!(RoyaltyBridge::buy_now(&mut market, &mut ledger, &licenses, &mut royalties, Origin::Signed(2), 0, 7).is_ok());
    assert_eq!(ledger.free_balance(3) - creator_before, 10_000);
    assert_eq!(royalties.accumulated_royalties.get(&(3, RoyaltyCurrency::PLIM)).copied(), Some(10_000));
    assert_eq!(royalties.payment_count, 1);
    assert!(RoyaltyBridge::buy_now(&mut market, &mut ledger, &licenses, &mut royalties, Origin::Signed(2), 0, 8).is_err());
    assert_eq!(royalties.payment_count, 1);
}
