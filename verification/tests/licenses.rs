use plim_chain::common::{Origin, OriginRule};
use plim_chain::licenses::{
    Jurisdiction, LicenseError, LicenseEvent, LicenseType, Licenses, LicensesConfig, PaymentMethod, RoyaltyAsset,
};

fn registry() -> Licenses {
    Licenses::new(LicensesConfig {
        marketplace_origin: OriginRule::Root,
        admin_origin: OriginRule::Root,
        license_collection_id: 1,
        max_geo_restrictions: 10,
        max_platform_restrictions: 5,
    })
}

/// Mint a license with everything default except the flags that matter to a test.
#[allow(clippy::too_many_arguments)]
fn mint(
    l: &mut Licenses,
    origin: Origin,
    owner: u64,
    license_type: LicenseType,
    transferable: bool,
    derivative_allowed: bool,
    derivative_share_alike: bool,
    exclusive_burns_original: bool,
    royalty_pct_bp: u16,
    expires_at: Option<u64>,
    payment_method: PaymentMethod,
    custody: Option<[u8; 32]>,
) -> Result<(), LicenseError> {
    l.mint_license(
        origin, 1, owner, license_type, 1, 10, 0, 0, transferable, false, derivative_allowed,
        derivative_share_alike, false, false, exclusive_burns_original, royalty_pct_bp, expires_at, None, None,
        vec![], vec![], Jurisdiction::Global, payment_method, vec![], custody,
    )
}

fn mint_default_license(l: &mut Licenses, owner: u64, creator: u64) -> u32 {
    let item_id = l.next_item_id;
    let r = l.mint_license(
        Origin::Root, 1, owner, LicenseType::Personal, 1, creator, 2999, 100_000, true, false, false, false, true,
        false, false, 500, None, Some(10), None, vec![], vec![], Jurisdiction::Global, PaymentMethod::PLIM,
        vec![1, 2, 3], None,
    );
    assert_eq!(r, Ok(()));
    item_id
}

#[test]
fn mint_license_happy_path() {
    let mut l = registry();
    let item_id = mint_default_license(&mut l, 42, 10);
    let license = l.licenses.get(&item_id).expect("license should exist");
    assert_eq!(license.current_owner, 42);
    assert_eq!(license.original_creator, 10);
    assert_eq!(license.royalty_pct_bp, 500);
    assert_eq!(license.max_prints, Some(10));
    assert_eq!(license.license_type, LicenseType::Personal);
    assert_eq!(l.next_item_id, item_id + 1);
    assert!(matches!(
        l.events.last(),
        Some(LicenseEvent::LicenseMinted { item_id: i, owner: 42, license_type: LicenseType::Personal }) if *i == item_id
    ));
}

#[test]
fn mint_license_validates_attrs() {
    let mut l = registry();
    assert_eq!(
        mint(&mut l, Origin::Root, 42, LicenseType::Personal, true, false, true, false, 0, None, PaymentMethod::PLIM, None),
        Err(LicenseError::InvalidLicenseAttrs)
    );
    assert_eq!(
        mint(&mut l, Origin::Root, 42, LicenseType::Personal, true, false, false, true, 0, None, PaymentMethod::PLIM, None),
        Err(LicenseError::InvalidLicenseAttrs)
    );
    assert_eq!(
        mint(&mut l, Origin::Root, 42, LicenseType::TimeLimited, true, false, false, false, 0, None, PaymentMethod::PLIM, None),
        Err(LicenseError::InvalidLicenseAttrs)
    );
    assert_eq!(l.licenses.len(), 0);
    assert_eq!(l.next_item_id, 0);
}

#[test]
fn mint_license_requires_marketplace_origin() {
    let mut l = registry();
    assert_eq!(
        mint(&mut l, Origin::Signed(99), 42, LicenseType::Personal, false, false, false, false, 0, None, PaymentMethod::PLIM, None),
        Err(LicenseError::BadOrigin)
    );
    assert_eq!(l.licenses.len(), 0);
}

#[test]
fn custody_claim_prevents_double_claim() {
    let mut l = registry();
    let email_hash = [0xABu8; 32];
    let item_id = l.next_item_id;
    assert_eq!(
        mint(&mut l, Origin::Root, 1, LicenseType::Personal, true, false, false, false, 500, None, PaymentMethod::Custody, Some(email_hash)),
        Ok(())
    );
    assert!(l.custody_queue.get(&item_id).is_some());
    assert_eq!(l.claim_custody_license(Origin::Signed(42), 1, item_id, 0), Ok(()));
    assert_eq!(l.licenses.get(&item_id).expect("license exists").current_owner, 42);
    assert_eq!(l.claim_custody_license(Origin::Signed(99), 1, item_id, 0), Err(LicenseError::AlreadyClaimed));
    assert_eq!(l.licenses.get(&item_id).expect("license exists").current_owner, 42);
}

#[test]
fn royalty_pct_bounded_to_25_pct() {
    let mut l = registry();
    assert_eq!(
        mint(&mut l, Origin::Root, 42, LicenseType::Commercial, true, false, false, false, 2501, None, PaymentMethod::PLIM, None),
        Err(LicenseError::InvalidRoyaltyPct)
    );
    assert_eq!(
        mint(&mut l, Origin::Root, 42, LicenseType::Commercial, true, false, false, false, 2500, None, PaymentMethod::PLIM, None),
        Ok(())
    );
}

#[test]
fn exclusive_requires_exclusive_type() {
    let mut l = registry();
    assert_eq!(
        mint(&mut l, Origin::Root, 42, LicenseType::Commercial, true, false, false, true, 0, None, PaymentMethod::PLIM, None),
        Err(LicenseError::InvalidLicenseAttrs)
    );
    assert_eq!(
        mint(&mut l, Origin::Root, 42, LicenseType::Exclusive, true, false, false, true, 0, None, PaymentMethod::PLIM, None),
        Ok(())
    );
}

#[test]
fn burn_license_by_owner() {
    let mut l = registry();
    let item_id = mint_default_license(&mut l, 42, 10);
    assert_eq!(l.burn_license(Origin::Signed(99), item_id), Err(LicenseError::Unauthorized));
    assert_eq!(l.burn_license(Origin::Signed(42), item_id), Ok(()));
    assert!(l.licenses.get(&item_id).is_none());
    assert!(matches!(l.events.last(), Some(LicenseEvent::LicenseBurned { item_id: i, owner: 42 }) if *i == item_id));
    assert_eq!(l.burn_license(Origin::Signed(42), item_id), Err(LicenseError::LicenseNotFound));
}

#[test]
fn royalty_requires_transferable() {
    let mut l = registry();
    assert_eq!(
        mint(&mut l, Origin::Root, 42, LicenseType::Personal, false, false, false, false, 100, None, PaymentMethod::PLIM, None),
        Err(LicenseError::InvalidLicenseAttrs)
    );
}

#[test]
fn set_creator_config_works() {
    let mut l = registry();
    assert_eq!(l.set_creator_config(Origin::Signed(10), 1000, 10, RoyaltyAsset::Native), Ok(()));
    assert!(matches!(l.events.last(), Some(LicenseEvent::CreatorConfigSet { creator: 10 })));
    assert_eq!(
        l.set_creator_config(Origin::Signed(10), 2501, 10, RoyaltyAsset::Native),
        Err(LicenseError::InvalidRoyaltyPct)
    );
}

#[test]
fn revoke_license_admin_only() {
    let mut l = registry();
    let item_id = mint_default_license(&mut l, 42, 10);
    assert_eq!(l.revoke_license(Origin::Signed(1), item_id), Err(LicenseError::BadOrigin));
    assert_eq!(l.revoke_license(Origin::Root, item_id), Ok(()));
    assert!(l.licenses.get(&item_id).is_none());
    assert!(matches!(l.events.last(), Some(LicenseEvent::LicenseRevoked { item_id: i }) if *i == item_id));
}

#[test]
fn public_helpers_work() {
    let mut l = registry();
    let item_id = mint_default_license(&mut l, 42, 10);
    assert!(l.is_transferable(item_id));
    assert!(!l.is_transferable(999));
    let (creator, bp) = l.royalty_info(item_id).expect("should have royalty");
    assert_eq!(creator, 10);
    assert_eq!(bp, 500);
    assert!(l.royalty_info(999).is_none());
}
