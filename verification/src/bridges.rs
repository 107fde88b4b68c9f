//! The runtime's adapters between pallets: the marketplace reads license facts from the
//! license registry, and the royalties a sale pays are recorded in the royalty book.

use vstd::prelude::*;
use crate::common::{AccountId, BlockNumber, Origin};
use crate::ledger::Ledger;
use crate::licenses::Licenses;
use crate::marketplace::{LicenseFacts, ListingCurrency, Marketplace, MarketplaceError, RoyaltyNotice};
use crate::royalties::{Royalties, RoyaltyCurrency, royalty_payment_id_of};

verus! {

/// Answers the marketplace's questions about licenses from the license registry.
#[derive(Clone, Copy, Debug)]
pub struct LicenseBridge;

/// Records the royalties of marketplace sales in the royalty book.
#[derive(Clone, Copy, Debug)]
pub struct RoyaltyBridge;

/// What the registry reports of an item: whether it may be resold, and its creator and
/// royalty rate when it carries a royalty.
pub open spec fn license_facts_of(licenses: &Licenses, item_id: u32) -> LicenseFacts {
    LicenseFacts {
        transferable: licenses.licenses@.contains_key(item_id) && licenses.licenses@[item_id].transferable,
        royalty: if licenses.licenses@.contains_key(item_id) && licenses.licenses@[item_id].royalty_pct_bp > 0 {
            Some((licenses.licenses@[item_id].original_creator, licenses.licenses@[item_id].royalty_pct_bp))
        } else {
            None
        },
    }
}

/// The royalty currency of a listing currency.
pub open spec fn royalty_currency_of(c: ListingCurrency) -> RoyaltyCurrency {
    match c {
        ListingCurrency::PLIM => RoyaltyCurrency::PLIM,
        ListingCurrency::PEUR => RoyaltyCurrency::PEUR,
        ListingCurrency::EURFiat => RoyaltyCurrency::EURFiat,
    }
}

impl LicenseBridge {
    /// Whether the license of `item_id` may be resold.
    pub fn is_transferable(licenses: &Licenses, item_id: u32) -> (b: bool)
        requires
            licenses.wf(),
        ensures
            b == license_facts_of(licenses, item_id).transferable,
    {
        licenses.is_transferable(item_id)
    }

    /// The creator and royalty rate of `item_id`, when it carries a royalty.
    pub fn royalty_info(licenses: &Licenses, item_id: u32) -> (r: Option<(AccountId, u16)>)
        requires
            licenses.wf(),
        ensures
            r == license_facts_of(licenses, item_id).royalty,
    {
        licenses.royalty_info(item_id)
    }

    /// Both facts at once.
    pub fn license_facts(licenses: &Licenses, item_id: u32) -> (f: LicenseFacts)
        requires
            licenses.wf(),
        ensures
            f == license_facts_of(licenses, item_id),
    {
        LicenseFacts {
            transferable: Self::is_transferable(licenses, item_id),
            royalty: Self::royalty_info(licenses, item_id),
        }
    }
}

impl RoyaltyBridge {
    /// The royalty currency of a listing currency.
    pub fn royalty_currency(c: ListingCurrency) -> (r: RoyaltyCurrency)
        ensures
            r == royalty_currency_of(c),
    {
        match c {
            ListingCurrency::PLIM => RoyaltyCurrency::PLIM,
            ListingCurrency::PEUR => RoyaltyCurrency::PEUR,
            ListingCurrency::EURFiat => RoyaltyCurrency::EURFiat,
        }
    }

    /// Record the royalty of a sale in the royalty book at block `now`.
    pub fn on_royalty_paid(royalties: &mut Royalties, notice: RoyaltyNotice, now: BlockNumber)
        requires
            old(royalties).wf(),
        ensures
            final(royalties).wf(),
            Royalties::recorded(old(royalties), final(royalties), notice.creator, notice.item_id, notice.amount,
                royalty_currency_of(notice.currency), now, royalty_payment_id_of(notice.creator, notice.item_id, now)),
    {
        let currency = Self::royalty_currency(notice.currency);
        royalties.record_royalty_payment(notice.creator, notice.item_id, notice.amount, currency, now);
    }

    /// A native-currency sale as the runtime wires it: the license registry answers the
    /// marketplace, the sale goes as `Marketplace::sale_outcome` says for the registry's
    /// facts, and the royalty the buyer paid, if any, is recorded in the royalty book;
    /// when the sale fails nothing is recorded.
    pub fn buy_now(market: &mut Marketplace, ledger: &mut Ledger, licenses: &Licenses, royalties: &mut Royalties, origin: Origin, item_id: u32, now: BlockNumber) -> (r: Result<Option<RoyaltyNotice>, MarketplaceError>)
        requires
            old(market).wf(),
            old(ledger).wf(),
            licenses.wf(),
            old(royalties).wf(),
        ensures
            final(market).wf(),
            final(ledger).wf(),
            final(royalties).wf(),
            final(ledger).ed() == old(ledger).ed(),
            Marketplace::sale_outcome(old(market), final(market), old(ledger), final(ledger), origin,
                license_facts_of(licenses, item_id), item_id, r),
            old(market).sold_listings_kept(final(market)),
            match r {
                Ok(Some(notice)) => {
                    &&& license_facts_of(licenses, item_id).royalty matches Some((creator, _)) && notice.creator == creator
                    &&& notice.item_id == item_id
                    &&& notice.amount == crate::marketplace::sale_split(old(market).listings@[item_id].price,
                        license_facts_of(licenses, item_id).royalty, old(market).platform_fee_bp)->Some_0.0
                    &&& Royalties::recorded(old(royalties), final(royalties), notice.creator, item_id, notice.amount,
                        royalty_currency_of(notice.currency), now, royalty_payment_id_of(notice.creator, item_id, now))
                },
                Ok(None) => license_facts_of(licenses, item_id).royalty is None && *final(royalties) == *old(royalties),
                Err(_) => *final(royalties) == *old(royalties),
            },
    {
        let facts = LicenseBridge::license_facts(licenses, item_id);
        let r = market.buy_now(ledger, origin, facts, item_id);
        match r {
            Ok(Some(notice)) => {
                Self::on_royalty_paid(royalties, notice, now);
            },
            _ => {},
        }
        r
    }
}

} // verus!
