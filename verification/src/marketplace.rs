//! Secondary-sale marketplace for license NFTs: listings, offers and buy-now with a
//! split payout (seller + creator royalty + platform fee).
//!
//! License facts (transferability, royalty policy) come in as plain values, as the
//! license registry reports them; royalty payments go out as `RoyaltyNotice`s for the
//! royalty book to record.

use vstd::prelude::*;
use crate::common::{
    ensure_signed, pallet_account, pallet_account_spec, sat_add, sat_sub, AccountId, Balance, BlockNumber, Hash32,
    Origin, OriginRule,
};
use crate::crypto::{blake2_256, blake2_256_of, digest, lemma_digest};
use crate::ledger::{apply_transfer, can_transfer, free_in, transfer_error, AccountData, BalanceError, Ledger};
use crate::scale::{enc_u32, enc_u64, push_u32, push_u64};
use crate::table::Table;

verus! {

/// Currency denomination of a listing or offer.
#[derive(Clone, Copy, Debug, PartialEq, Eq, Structural)]
pub enum ListingCurrency {
    /// Off-chain EUR; settled through `buy_now_with_fiat_proof`.
    EURFiat,
    /// The native token.
    PLIM,
    /// The on-chain EUR stablecoin.
    PEUR,
}

/// Status of a listing.
#[derive(Clone, Copy, Debug, PartialEq, Eq, Structural)]
pub enum ListingStatus {
    Active,
    Sold,
    Cancelled,
}

/// Status of an offer.
#[derive(Clone, Copy, Debug, PartialEq, Eq, Structural)]
pub enum OfferStatus {
    Pending,
    Accepted,
    Rejected,
    Expired,
    Withdrawn,
}

/// A listing of a license NFT.
#[derive(Clone, Copy, Debug, PartialEq, Eq, Structural)]
pub struct Listing {
    pub seller: AccountId,
    pub item_id: u32,
    pub price: Balance,
    pub currency: ListingCurrency,
    pub listed_at: BlockNumber,
    pub status: ListingStatus,
}

/// An offer (bid) on a listed item.
#[derive(Clone, Copy, Debug)]
pub struct Offer {
    pub offer_id: Hash32,
    pub bidder: AccountId,
    pub item_id: u32,
    pub amount: Balance,
    pub currency: ListingCurrency,
    pub expires_at: BlockNumber,
    pub status: OfferStatus,
}

/// What the license registry reports of an item.
#[derive(Clone, Copy, Debug)]
pub struct LicenseFacts {
    /// Whether the license may be resold.
    pub transferable: bool,
    /// The creator and royalty in basis points, when the license carries a royalty.
    pub royalty: Option<(AccountId, u16)>,
}

/// A royalty payment to be recorded for a creator.
#[derive(Clone, Copy, Debug, PartialEq, Eq, Structural)]
pub struct RoyaltyNotice {
    pub creator: AccountId,
    pub item_id: u32,
    pub amount: Balance,
    pub currency: ListingCurrency,
}

/// Events of the marketplace.
#[derive(Clone, Copy, Debug)]
pub enum MarketplaceEvent {
    Listed { item_id: u32, seller: AccountId, price: Balance, currency: ListingCurrency },
    ListingCanceled { item_id: u32, seller: AccountId },
    Sold {
        item_id: u32,
        seller: AccountId,
        buyer: AccountId,
        price: Balance,
        currency: ListingCurrency,
        royalty_paid: Balance,
        platform_fee: Balance,
    },
    OfferMade {
        offer_id: Hash32,
        bidder: AccountId,
        item_id: u32,
        amount: Balance,
        currency: ListingCurrency,
        expires_at: BlockNumber,
    },
    OfferAccepted { offer_id: Hash32, item_id: u32, seller: AccountId, buyer: AccountId, amount: Balance },
    OfferRejected { offer_id: Hash32 },
    OfferWithdrawn { offer_id: Hash32 },
    PlatformFeeUpdated { old_bp: u16, new_bp: u16 },
}

/// Errors of the marketplace.
#[derive(Clone, Copy, Debug, PartialEq, Eq, Structural)]
pub enum MarketplaceError {
    BadOrigin,
    NotOwner,
    AlreadyListed,
    NotListed,
    PriceTooLow,
    OfferExpired,
    InsufficientBalance,
    NotTransferable,
    ArithmeticOverflow,
    FiatRequiresOrigin,
    LicenseNotFound,
    MaxListingsReached,
    OfferNotFound,
    InvalidFee,
    CannotBuyFiatOnChain,
    ListingNotActive,
    OfferNotPending,
    /// A currency transfer failed.
    Balance(BalanceError),
}

/// Constants of the marketplace.
#[derive(Clone, Copy, Debug)]
pub struct MarketplaceConfig {
    /// Origin allowed to record fiat sales and set the platform fee.
    pub marketplace_origin: OriginRule,
    /// Initial platform fee in basis points.
    pub default_platform_fee_bp: u16,
    /// Maximum number of active listings per account.
    pub max_active_listings_per_account: u32,
    /// Pallet id from which the treasury account is derived.
    pub treasury_pallet_id: [u8; 8],
}

/// The marketplace storage.
pub struct Marketplace {
    pub config: MarketplaceConfig,
    /// Listings by item id (sold and cancelled listings stay).
    pub listings: Table<u32, Listing>,
    /// Offers by offer id.
    pub offers: Table<Hash32, Offer>,
    /// Current platform fee in basis points.
    pub platform_fee_bp: u16,
    /// Active listings per seller.
    pub active_listing_count: Table<AccountId, u32>,
    /// Deposited events, oldest first.
    pub events: Vec<MarketplaceEvent>,
}

/// `value * bp / 10_000`, or `None` when the product overflows.
pub open spec fn bp_of_spec(value: Balance, bp: u16) -> Option<Balance> {
    if value * bp <= u128::MAX {
        Some(((value * bp) / 10_000) as Balance)
    } else {
        None
    }
}

/// Compute `value * bp / 10_000` with a checked product.
pub fn bp_of(value: Balance, bp: u16) -> (r: Option<Balance>)
    ensures
        r == bp_of_spec(value, bp),
{
    match value.checked_mul(bp as u128) {
        Some(p) => Some(p / 10_000),
        None => None,
    }
}

/// The offer id of `bidder`'s offer on `item_id` made at block `now`: the BLAKE2-256 digest
/// of the SCALE encoding of `(bidder, item_id, now)`.
pub open spec fn offer_id_spec(bidder: AccountId, item_id: u32, now: BlockNumber) -> Seq<u8> {
    blake2_256_of(enc_u64(bidder) + enc_u32(item_id) + enc_u64(now))
}

/// Derive the offer id.
pub fn offer_id(bidder: AccountId, item_id: u32, now: BlockNumber) -> (h: Hash32)
    ensures
        h@ == offer_id_spec(bidder, item_id, now),
{
    let mut buf: Vec<u8> = Vec::new();
    push_u64(&mut buf, bidder);
    push_u32(&mut buf, item_id);
    push_u64(&mut buf, now);
    proof {
        assert(buf@ =~= enc_u64(bidder) + enc_u32(item_id) + enc_u64(now));
    }
    blake2_256(buf.as_slice())
}

/// The royalty, platform fee and seller remainder of a sale at `price`, or `None` when a
/// basis-point product overflows.
pub open spec fn sale_split(price: Balance, royalty: Option<(AccountId, u16)>, fee_bp: u16) -> Option<(Balance, Balance, Balance)> {
    let r = match royalty {
        Some((_, bp)) => bp_of_spec(price, bp),
        None => Some(0u128),
    };
    match (r, bp_of_spec(price, fee_bp)) {
        (Some(royalty_amount), Some(fee)) => Some((
            royalty_amount,
            fee,
            sat_sub(sat_sub(price as int, royalty_amount as int), fee as int) as Balance,
        )),
        _ => None,
    }
}

/// The account records after paying a sale: royalty to the creator, fee to the treasury,
/// the rest to the seller, all from the buyer.
pub open spec fn pay_step1(m: Map<AccountId, AccountData>, ed: Balance, buyer: AccountId, royalty: Option<(AccountId, u16)>, r: Balance) -> Map<AccountId, AccountData> {
    match royalty {
        Some((creator, _)) => apply_transfer(m, ed, buyer, creator, r),
        None => m,
    }
}

/// Whether the royalty transfer of a sale succeeds.
pub open spec fn pay_step1_ok(m: Map<AccountId, AccountData>, ed: Balance, buyer: AccountId, royalty: Option<(AccountId, u16)>, r: Balance) -> bool {
    match royalty {
        Some((creator, _)) => can_transfer(m, ed, buyer, creator, r, true),
        None => true,
    }
}

/// The royalty rate of a license, zero when it carries none.
pub open spec fn royalty_bp(royalty: Option<(AccountId, u16)>) -> int {
    match royalty {
        Some((_, bp)) => bp as int,
        None => 0,
    }
}

/// When the royalty rate and the platform fee rate together stay within 100%, the royalty,
/// the fee and the seller's share of a sale add up exactly to the price.
pub proof fn lemma_sale_split_sums_to_price(price: Balance, royalty: Option<(AccountId, u16)>, fee_bp: u16)
    requires
        sale_split(price, royalty, fee_bp) is Some,
        royalty_bp(royalty) + fee_bp <= 10_000,
    ensures
        ({
            let (r, f, s) = sale_split(price, royalty, fee_bp)->Some_0;
            r + f + s == price
        }),
{
    let (r, f, s) = sale_split(price, royalty, fee_bp)->Some_0;
    let rb = royalty_bp(royalty);
    let p = price as int;
    let fb = fee_bp as int;
    assert(r == (p * rb) / 10_000);
    assert(f == (p * fb) / 10_000);
    assert((p * rb) / 10_000 + (p * fb) / 10_000 <= p) by (nonlinear_arith)
        requires
            p >= 0,
            rb >= 0,
            fb >= 0,
            rb + fb <= 10_000,
    {
        assert((p * rb) / 10_000 * 10_000 <= p * rb);
        assert((p * fb) / 10_000 * 10_000 <= p * fb);
        assert(p * rb + p * fb <= p * 10_000);
    }
}

/// A sale between four distinct parties moves exactly the price out of the buyer's free
/// funds and pays the creator its royalty, the treasury its fee and the seller the rest.
pub proof fn lemma_sale_payout(
    l0: Map<AccountId, AccountData>,
    ed: Balance,
    buyer: AccountId,
    creator: AccountId,
    treasury: AccountId,
    seller: AccountId,
    bp: u16,
    r: Balance,
    f: Balance,
    s: Balance,
)
    requires
        buyer != creator && buyer != treasury && buyer != seller,
        creator != treasury && creator != seller && treasury != seller,
        pay_step1_ok(l0, ed, buyer, Some((creator, bp)), r),
        can_transfer(pay_step1(l0, ed, buyer, Some((creator, bp)), r), ed, buyer, treasury, f, true),
        can_transfer(
            apply_transfer(pay_step1(l0, ed, buyer, Some((creator, bp)), r), ed, buyer, treasury, f),
            ed,
            buyer,
            seller,
            s,
            true,
        ),
    ensures
        ({
            let l1 = pay_step1(l0, ed, buyer, Some((creator, bp)), r);
            let l2 = apply_transfer(l1, ed, buyer, treasury, f);
            let l3 = apply_transfer(l2, ed, buyer, seller, s);
            &&& free_in(l3, buyer) == free_in(l0, buyer) - r - f - s
            &&& free_in(l3, creator) == free_in(l0, creator) + r
            &&& free_in(l3, treasury) == free_in(l0, treasury) + f
            &&& free_in(l3, seller) == free_in(l0, seller) + s
            &&& forall|a: AccountId| a != buyer && a != creator && a != treasury && a != seller
                ==> #[trigger] free_in(l3, a) == free_in(l0, a)
        }),
{
}

impl Marketplace {
    /// All tables are well formed.
    pub open spec fn wf(&self) -> bool {
        &&& self.listings.wf()
        &&& self.offers.wf()
        &&& self.active_listing_count.wf()
    }

    /// Active listings of `a` (zero when none recorded).
    pub open spec fn count_of(&self, a: AccountId) -> u32 {
        if self.active_listing_count@.contains_key(a) {
            self.active_listing_count@[a]
        } else {
            0
        }
    }

    /// The treasury account that receives platform fees.
    pub open spec fn treasury_spec(&self) -> AccountId {
        pallet_account_spec(self.config.treasury_pallet_id@) as AccountId
    }

    /// Every listing sold in `self` is still stored, unchanged, in `later`.
    pub open spec fn sold_listings_kept(&self, later: &Self) -> bool {
        forall|id: u32| #[trigger] self.listings@.contains_key(id) && self.listings@[id].status == ListingStatus::Sold
            ==> later.listings@.contains_key(id) && later.listings@[id] == self.listings@[id]
    }

    /// A fresh marketplace.
    pub fn new(config: MarketplaceConfig) -> (m: Self)
        ensures
            m.wf(),
            m.config == config,
            m.listings@ == Map::<u32, Listing>::empty(),
            m.offers@ == Map::<Hash32, Offer>::empty(),
            m.platform_fee_bp == config.default_platform_fee_bp,
            m.active_listing_count@ == Map::<AccountId, u32>::empty(),
            m.events@ == Seq::<MarketplaceEvent>::empty(),
    {
        Marketplace {
            config,
            listings: Table::new(),
            offers: Table::new(),
            platform_fee_bp: config.default_platform_fee_bp,
            active_listing_count: Table::new(),
            events: Vec::new(),
        }
    }

    /// The treasury account derived from the treasury pallet id.
    pub fn treasury_account(&self) -> (a: AccountId)
        ensures
            a == self.treasury_spec(),
    {
        pallet_account(&self.config.treasury_pallet_id)
    }

    /// Active listings of `a`.
    pub fn active_listings_of(&self, a: AccountId) -> (n: u32)
        requires
            self.wf(),
        ensures
            n == self.count_of(a),
    {
        match self.active_listing_count.get(&a) {
            Some(c) => *c,
            None => 0,
        }
    }

    /// The listing of `item_id`, if any.
    pub fn listing(&self, item_id: u32) -> (r: Option<Listing>)
        requires
            self.wf(),
        ensures
            r == (if self.listings@.contains_key(item_id) { Some(self.listings@[item_id]) } else { None::<Listing> }),
    {
        match self.listings.get(&item_id) {
            Some(l) => Some(*l),
            None => None,
        }
    }

    /// The offer with id `offer_id`, if any.
    pub fn offer(&self, offer_id: &Hash32) -> (r: Option<Offer>)
        requires
            self.wf(),
        ensures
            r == (if self.offers@.contains_key(*offer_id) { Some(self.offers@[*offer_id]) } else { None::<Offer> }),
    {
        match self.offers.get(offer_id) {
            Some(o) => Some(*o),
            None => None,
        }
    }

    fn decrement_count(&mut self, who: AccountId)
        requires
            old(self).wf(),
        ensures
            final(self).wf(),
            final(self).active_listing_count@ == old(self).active_listing_count@.insert(
                who,
                sat_sub(old(self).count_of(who) as int, 1) as u32,
            ),
            final(self).listings@ == old(self).listings@,
            final(self).offers@ == old(self).offers@,
            final(self).platform_fee_bp == old(self).platform_fee_bp,
            final(self).config == old(self).config,
            final(self).events@ == old(self).events@,
    {
        let c = self.active_listings_of(who);
        let n = if c >= 1 { c - 1 } else { 0 };
        self.active_listing_count.insert(who, n);
    }

    fn set_listing_status(&mut self, item_id: u32, status: ListingStatus)
        requires
            old(self).wf(),
            old(self).listings@.contains_key(item_id),
        ensures
            final(self).wf(),
            final(self).listings@ == old(self).listings@.insert(
                item_id,
                Listing { status, ..old(self).listings@[item_id] },
            ),
            final(self).offers@ == old(self).offers@,
            final(self).active_listing_count@ == old(self).active_listing_count@,
            final(self).platform_fee_bp == old(self).platform_fee_bp,
            final(self).config == old(self).config,
            final(self).events@ == old(self).events@,
    {
        let l = *self.listings.get(&item_id).unwrap();
        self.listings.insert(item_id, Listing { status, ..l });
    }

    /// The error `list_for_sale` reports, if any.
    pub open spec fn list_for_sale_error(&self, origin: Origin, license: LicenseFacts, item_id: u32, price: Balance) -> Option<MarketplaceError> {
        if !(origin is Signed) {
            Some(MarketplaceError::BadOrigin)
        } else if price == 0 {
            Some(MarketplaceError::PriceTooLow)
        } else if self.listings@.contains_key(item_id) {
            Some(MarketplaceError::AlreadyListed)
        } else if !license.transferable {
            Some(MarketplaceError::NotTransferable)
        } else if self.count_of(origin->Signed_0) >= self.config.max_active_listings_per_account {
            Some(MarketplaceError::MaxListingsReached)
        } else {
            None
        }
    }

    /// List a license NFT for sale at `price`.
    pub fn list_for_sale(&mut self, origin: Origin, now: BlockNumber, license: LicenseFacts, item_id: u32, price: Balance, currency: ListingCurrency) -> (r: Result<(), MarketplaceError>)
        requires
            old(self).wf(),
        ensures
            final(self).wf(),
            old(self).sold_listings_kept(final(self)),
            match old(self).list_for_sale_error(origin, license, item_id, price) {
                Some(e) => r == Err::<(), MarketplaceError>(e) && *final(self) == *old(self),
                None => {
                    let seller = origin->Signed_0;
                    &&& r is Ok
                    &&& final(self).listings@ == old(self).listings@.insert(item_id, Listing {
                        seller, item_id, price, currency, listed_at: now, status: ListingStatus::Active,
                    })
                    &&& final(self).active_listing_count@ == old(self).active_listing_count@.insert(seller, (old(self).count_of(seller) + 1) as u32)
                    &&& final(self).offers@ == old(self).offers@
                    &&& final(self).platform_fee_bp == old(self).platform_fee_bp
                    &&& final(self).config == old(self).config
                    &&& final(self).events@ == old(self).events@.push(MarketplaceEvent::Listed { item_id, seller, price, currency })
                },
            },
    {
        let seller = match ensure_signed(&origin) {
            Ok(s) => s,
            Err(_) => return Err(MarketplaceError::BadOrigin),
        };
        if price == 0 {
            return Err(MarketplaceError::PriceTooLow);
        }
        if self.listings.contains_key(&item_id) {
            return Err(MarketplaceError::AlreadyListed);
        }
        if !license.transferable {
            return Err(MarketplaceError::NotTransferable);
        }
        let count = self.active_listings_of(seller);
        if count >= self.config.max_active_listings_per_account {
            return Err(MarketplaceError::MaxListingsReached);
        }
        self.listings.insert(item_id, Listing {
            seller,
            item_id,
            price,
            currency,
            listed_at: now,
            status: ListingStatus::Active,
        });
        self.active_listing_count.insert(seller, count + 1);
        self.events.push(MarketplaceEvent::Listed { item_id, seller, price, currency });
        Ok(())
    }

    /// The error `cancel_listing` reports, if any.
    pub open spec fn cancel_listing_error(&self, origin: Origin, item_id: u32) -> Option<MarketplaceError> {
        if !(origin is Signed) {
            Some(MarketplaceError::BadOrigin)
        } else if !self.listings@.contains_key(item_id) {
            Some(MarketplaceError::NotListed)
        } else if self.listings@[item_id].seller != origin->Signed_0 {
            Some(MarketplaceError::NotOwner)
        } else if self.listings@[item_id].status != ListingStatus::Active {
            Some(MarketplaceError::ListingNotActive)
        } else {
            None
        }
    }

    /// Cancel an active listing; only its seller may.
    pub fn cancel_listing(&mut self, origin: Origin, item_id: u32) -> (r: Result<(), MarketplaceError>)
        requires
            old(self).wf(),
        ensures
            final(self).wf(),
            old(self).sold_listings_kept(final(self)),
            match old(self).cancel_listing_error(origin, item_id) {
                Some(e) => r == Err::<(), MarketplaceError>(e) && *final(self) == *old(self),
                None => {
                    let who = origin->Signed_0;
                    &&& r is Ok
                    &&& final(self).listings@ == old(self).listings@.insert(item_id, Listing {
                        status: ListingStatus::Cancelled, ..old(self).listings@[item_id]
                    })
                    &&& final(self).active_listing_count@ == old(self).active_listing_count@.insert(
                        who, sat_sub(old(self).count_of(who) as int, 1) as u32)
                    &&& final(self).offers@ == old(self).offers@
                    &&& final(self).platform_fee_bp == old(self).platform_fee_bp
                    &&& final(self).config == old(self).config
                    &&& final(self).events@ == old(self).events@.push(MarketplaceEvent::ListingCanceled { item_id, seller: who })
                },
            },
    {
        let who = match ensure_signed(&origin) {
            Ok(s) => s,
            Err(_) => return Err(MarketplaceError::BadOrigin),
        };
        let listing = match self.listing(item_id) {
            Some(l) => l,
            None => return Err(MarketplaceError::NotListed),
        };
        if listing.seller != who {
            return Err(MarketplaceError::NotOwner);
        }
        if listing.status != ListingStatus::Active {
            return Err(MarketplaceError::ListingNotActive);
        }
        self.set_listing_status(item_id, ListingStatus::Cancelled);
        self.decrement_count(who);
        self.events.push(MarketplaceEvent::ListingCanceled { item_id, seller: who });
        Ok(())
    }

    /// The error of `buy_now` before any payment, if any.
    pub open spec fn buy_now_precheck(&self, origin: Origin, license: LicenseFacts, item_id: u32) -> Option<MarketplaceError> {
        if !(origin is Signed) {
            Some(MarketplaceError::BadOrigin)
        } else if !self.listings@.contains_key(item_id) {
            Some(MarketplaceError::NotListed)
        } else if self.listings@[item_id].status != ListingStatus::Active {
            Some(MarketplaceError::ListingNotActive)
        } else if self.listings@[item_id].currency == ListingCurrency::EURFiat {
            Some(MarketplaceError::CannotBuyFiatOnChain)
        } else if !license.transferable {
            Some(MarketplaceError::NotTransferable)
        } else if sale_split(self.listings@[item_id].price, license.royalty, self.platform_fee_bp) is None {
            Some(MarketplaceError::ArithmeticOverflow)
        } else {
            None
        }
    }

    /// What `buy_now` does for a buyer's origin, the license facts and the item: the
    /// error it reports with nothing changed, or the payout on the ledger and the sale
    /// recorded in the marketplace, with the royalty notice it returns.
    pub open spec fn sale_outcome(old_m: &Self, new_m: &Self, old_l: &Ledger, new_l: &Ledger, origin: Origin, license: LicenseFacts, item_id: u32, r: Result<Option<RoyaltyNotice>, MarketplaceError>) -> bool {
        match old_m.buy_now_precheck(origin, license, item_id) {
            Some(e) => r == Err::<Option<RoyaltyNotice>, MarketplaceError>(e) && *new_m == *old_m && *new_l == *old_l,
            None => {
                let buyer = origin->Signed_0;
                let listing = old_m.listings@[item_id];
                let (royalty, fee, seller_gets) = sale_split(listing.price, license.royalty, old_m.platform_fee_bp)->Some_0;
                let ed = old_l.ed();
                let l0 = old_l@;
                let l1 = pay_step1(l0, ed, buyer, license.royalty, royalty);
                let l2 = apply_transfer(l1, ed, buyer, old_m.treasury_spec(), fee);
                let l3 = apply_transfer(l2, ed, buyer, listing.seller, seller_gets);
                if !pay_step1_ok(l0, ed, buyer, license.royalty, royalty) {
                    &&& r == Err::<Option<RoyaltyNotice>, MarketplaceError>(MarketplaceError::Balance(transfer_error(l0, ed, buyer, license.royalty->Some_0.0, royalty, true)))
                    &&& *new_m == *old_m && *new_l == *old_l
                } else if !can_transfer(l1, ed, buyer, old_m.treasury_spec(), fee, true) {
                    &&& r == Err::<Option<RoyaltyNotice>, MarketplaceError>(MarketplaceError::Balance(transfer_error(l1, ed, buyer, old_m.treasury_spec(), fee, true)))
                    &&& *new_m == *old_m && *new_l == *old_l
                } else if !can_transfer(l2, ed, buyer, listing.seller, seller_gets, true) {
                    &&& r == Err::<Option<RoyaltyNotice>, MarketplaceError>(MarketplaceError::Balance(transfer_error(l2, ed, buyer, listing.seller, seller_gets, true)))
                    &&& *new_m == *old_m && *new_l == *old_l
                } else {
                    &&& new_l@ == l3
                    &&& r == Ok::<Option<RoyaltyNotice>, MarketplaceError>(match license.royalty {
                        Some((creator, _)) => Some(RoyaltyNotice { creator, item_id, amount: royalty, currency: listing.currency }),
                        None => None,
                    })
                    &&& new_m.listings@ == old_m.listings@.insert(item_id, Listing { status: ListingStatus::Sold, ..listing })
                    &&& new_m.active_listing_count@ == old_m.active_listing_count@.insert(
                        listing.seller, sat_sub(old_m.count_of(listing.seller) as int, 1) as u32)
                    &&& new_m.offers@ == old_m.offers@
                    &&& new_m.platform_fee_bp == old_m.platform_fee_bp
                    &&& new_m.config == old_m.config
                    &&& new_m.events@ == old_m.events@.push(MarketplaceEvent::Sold {
                        item_id, seller: listing.seller, buyer, price: listing.price, currency: listing.currency,
                        royalty_paid: royalty, platform_fee: fee,
                    })
                }
            },
        }
    }

    /// Buy a listed item at its price with the native currency. The buyer pays the creator
    /// royalty, the platform fee to the treasury and the remainder to the seller; the
    /// listing becomes sold and the royalty, if any, is returned for the royalty book.
    pub fn buy_now(&mut self, ledger: &mut Ledger, origin: Origin, license: LicenseFacts, item_id: u32) -> (r: Result<Option<RoyaltyNotice>, MarketplaceError>)
        requires
            old(self).wf(),
            old(ledger).wf(),
        ensures
            final(self).wf(),
            old(self).sold_listings_kept(final(self)),
            final(ledger).wf(),
            final(ledger).ed() == old(ledger).ed(),
            Self::sale_outcome(old(self), final(self), old(ledger), final(ledger), origin, license, item_id, r),
    {
        let buyer = match ensure_signed(&origin) {
            Ok(s) => s,
            Err(_) => return Err(MarketplaceError::BadOrigin),
        };
        let listing = match self.listing(item_id) {
            Some(l) => l,
            None => return Err(MarketplaceError::NotListed),
        };
        if listing.status != ListingStatus::Active {
            return Err(MarketplaceError::ListingNotActive);
        }
        if listing.currency == ListingCurrency::EURFiat {
            return Err(MarketplaceError::CannotBuyFiatOnChain);
        }
        if !license.transferable {
            return Err(MarketplaceError::NotTransferable);
        }
        let price = listing.price;
        let seller = listing.seller;
        let royalty_amount = match license.royalty {
            Some((_, bp)) => match bp_of(price, bp) {
                Some(v) => v,
                None => return Err(MarketplaceError::ArithmeticOverflow),
            },
            None => 0,
        };
        let platform_fee = match bp_of(price, self.platform_fee_bp) {
            Some(v) => v,
            None => return Err(MarketplaceError::ArithmeticOverflow),
        };
        let after_royalty = if price >= royalty_amount { price - royalty_amount } else { 0 };
        let seller_gets = if after_royalty >= platform_fee { after_royalty - platform_fee } else { 0 };
        let treasury = self.treasury_account();

        let mut scratch = ledger.copy();
        match license.royalty {
            Some((creator, _)) => {
                match scratch.transfer(buyer, creator, royalty_amount, true) {
                    Ok(()) => {},
                    Err(e) => return Err(MarketplaceError::Balance(e)),
                }
            },
            None => {},
        }
        match scratch.transfer(buyer, treasury, platform_fee, true) {
            Ok(()) => {},
            Err(e) => return Err(MarketplaceError::Balance(e)),
        }
        match scratch.transfer(buyer, seller, seller_gets, true) {
            Ok(()) => {},
            Err(e) => return Err(MarketplaceError::Balance(e)),
        }
        *ledger = scratch;

        self.set_listing_status(item_id, ListingStatus::Sold);
        self.decrement_count(seller);
        let notice = match license.royalty {
            Some((creator, _)) => Some(RoyaltyNotice { creator, item_id, amount: royalty_amount, currency: listing.currency }),
            None => None,
        };
        self.events.push(MarketplaceEvent::Sold {
            item_id,
            seller,
            buyer,
            price,
            currency: listing.currency,
            royalty_paid: royalty_amount,
            platform_fee,
        });
        Ok(notice)
    }

    /// The error `buy_now_with_fiat_proof` reports, if any.
    pub open spec fn fiat_sale_error(&self, origin: Origin, license: LicenseFacts, item_id: u32) -> Option<MarketplaceError> {
        if !self.config.marketplace_origin.allows(origin) {
            Some(MarketplaceError::BadOrigin)
        } else if !self.listings@.contains_key(item_id) {
            Some(MarketplaceError::NotListed)
        } else if self.listings@[item_id].status != ListingStatus::Active {
            Some(MarketplaceError::ListingNotActive)
        } else if sale_split(self.listings@[item_id].price, license.royalty, self.platform_fee_bp) is None {
            Some(MarketplaceError::ArithmeticOverflow)
        } else {
            None
        }
    }

    /// Record a fiat-settled sale to `buyer` (marketplace origin only). No funds move on
    /// chain; the listing becomes sold and the royalty, if any, is returned for the
    /// royalty book.
    pub fn buy_now_with_fiat_proof(&mut self, origin: Origin, license: LicenseFacts, item_id: u32, buyer: AccountId, payment_proof: [u8; 32]) -> (r: Result<Option<RoyaltyNotice>, MarketplaceError>)
        requires
            old(self).wf(),
        ensures
            final(self).wf(),
            old(self).sold_listings_kept(final(self)),
            match old(self).fiat_sale_error(origin, license, item_id) {
                Some(e) => r == Err::<Option<RoyaltyNotice>, MarketplaceError>(e) && *final(self) == *old(self),
                None => {
                    let listing = old(self).listings@[item_id];
                    let (royalty, fee, _) = sale_split(listing.price, license.royalty, old(self).platform_fee_bp)->Some_0;
                    &&& r == Ok::<Option<RoyaltyNotice>, MarketplaceError>(match license.royalty {
                        Some((creator, _)) => Some(RoyaltyNotice { creator, item_id, amount: royalty, currency: listing.currency }),
                        None => None,
                    })
                    &&& final(self).listings@ == old(self).listings@.insert(item_id, Listing { status: ListingStatus::Sold, ..listing })
                    &&& final(self).active_listing_count@ == old(self).active_listing_count@.insert(
                        listing.seller, sat_sub(old(self).count_of(listing.seller) as int, 1) as u32)
                    &&& final(self).offers@ == old(self).offers@
                    &&& final(self).platform_fee_bp == old(self).platform_fee_bp
                    &&& final(self).config == old(self).config
                    &&& final(self).events@ == old(self).events@.push(MarketplaceEvent::Sold {
                        item_id, seller: listing.seller, buyer, price: listing.price, currency: listing.currency,
                        royalty_paid: royalty, platform_fee: fee,
                    })
                },
            },
    {
        if self.config.marketplace_origin.ensure_origin(&origin).is_err() {
            return Err(MarketplaceError::BadOrigin);
        }
        let listing = match self.listing(item_id) {
            Some(l) => l,
            None => return Err(MarketplaceError::NotListed),
        };
        if listing.status != ListingStatus::Active {
            return Err(MarketplaceError::ListingNotActive);
        }
        let price = listing.price;
        let seller = listing.seller;
        let royalty_amount = match license.royalty {
            Some((_, bp)) => match bp_of(price, bp) {
                Some(v) => v,
                None => return Err(MarketplaceError::ArithmeticOverflow),
            },
            None => 0,
        };
        let platform_fee = match bp_of(price, self.platform_fee_bp) {
            Some(v) => v,
            None => return Err(MarketplaceError::ArithmeticOverflow),
        };
        self.set_listing_status(item_id, ListingStatus::Sold);
        self.decrement_count(seller);
        let notice = match license.royalty {
            Some((creator, _)) => Some(RoyaltyNotice { creator, item_id, amount: royalty_amount, currency: listing.currency }),
            None => None,
        };
        let _ = payment_proof;
        self.events.push(MarketplaceEvent::Sold {
            item_id,
            seller,
            buyer,
            price,
            currency: listing.currency,
            royalty_paid: royalty_amount,
            platform_fee,
        });
        Ok(notice)
    }

    /// The error `make_offer` reports, if any.
    pub open spec fn make_offer_error(&self, origin: Origin, item_id: u32, amount: Balance) -> Option<MarketplaceError> {
        if !(origin is Signed) {
            Some(MarketplaceError::BadOrigin)
        } else if amount == 0 {
            Some(MarketplaceError::PriceTooLow)
        } else if !self.listings@.contains_key(item_id) {
            Some(MarketplaceError::NotListed)
        } else {
            None
        }
    }

    /// Place an offer on a listed item, expiring `expires_in_blocks` after `now`. The offer
    /// id is derived from the bidder, the item and the block; an offer with the same id
    /// is replaced.
    pub fn make_offer(&mut self, origin: Origin, now: BlockNumber, item_id: u32, amount: Balance, currency: ListingCurrency, expires_in_blocks: BlockNumber) -> (r: Result<(), MarketplaceError>)
        requires
            old(self).wf(),
        ensures
            final(self).wf(),
            old(self).sold_listings_kept(final(self)),
            match old(self).make_offer_error(origin, item_id, amount) {
                Some(e) => r == Err::<(), MarketplaceError>(e) && *final(self) == *old(self),
                None => {
                    let bidder = origin->Signed_0;
                    let expires_at = sat_add(now as int, expires_in_blocks as int, u64::MAX as int) as BlockNumber;
                    let id = digest(offer_id_spec(bidder, item_id, now));
                    &&& r is Ok
                    &&& final(self).offers@ == old(self).offers@.insert(id, Offer {
                        offer_id: id, bidder, item_id, amount, currency, expires_at, status: OfferStatus::Pending,
                    })
                    &&& final(self).events@ == old(self).events@.push(MarketplaceEvent::OfferMade {
                        offer_id: id, bidder, item_id, amount, currency, expires_at,
                    })
                    &&& final(self).listings@ == old(self).listings@
                    &&& final(self).active_listing_count@ == old(self).active_listing_count@
                    &&& final(self).platform_fee_bp == old(self).platform_fee_bp
                    &&& final(self).config == old(self).config
                },
            },
    {
        let bidder = match ensure_signed(&origin) {
            Ok(s) => s,
            Err(_) => return Err(MarketplaceError::BadOrigin),
        };
        if amount == 0 {
            return Err(MarketplaceError::PriceTooLow);
        }
        if !self.listings.contains_key(&item_id) {
            return Err(MarketplaceError::NotListed);
        }
        let expires_at = now.saturating_add(expires_in_blocks);
        let id = offer_id(bidder, item_id, now);
        proof {
            lemma_digest(id);
        }
        self.offers.insert(id, Offer {
            offer_id: id,
            bidder,
            item_id,
            amount,
            currency,
            expires_at,
            status: OfferStatus::Pending,
        });
        self.events.push(MarketplaceEvent::OfferMade { offer_id: id, bidder, item_id, amount, currency, expires_at });
        Ok(())
    }

    /// The error `accept_offer` reports, if any.
    pub open spec fn accept_offer_error(&self, origin: Origin, now: BlockNumber, offer_id: Hash32) -> Option<MarketplaceError> {
        if !(origin is Signed) {
            Some(MarketplaceError::BadOrigin)
        } else if !self.offers@.contains_key(offer_id) {
            Some(MarketplaceError::OfferNotFound)
        } else if self.offers@[offer_id].status != OfferStatus::Pending {
            Some(MarketplaceError::OfferNotPending)
        } else if now > self.offers@[offer_id].expires_at {
            Some(MarketplaceError::OfferExpired)
        } else if !self.listings@.contains_key(self.offers@[offer_id].item_id) {
            Some(MarketplaceError::NotListed)
        } else if self.listings@[self.offers@[offer_id].item_id].seller != origin->Signed_0 {
            Some(MarketplaceError::NotOwner)
        } else if self.listings@[self.offers@[offer_id].item_id].status != ListingStatus::Active {
            Some(MarketplaceError::ListingNotActive)
        } else {
            None
        }
    }

    /// Accept a pending, unexpired offer; only the seller of the listing may. The offer
    /// becomes accepted and the listing sold.
    pub fn accept_offer(&mut self, origin: Origin, now: BlockNumber, offer_id: Hash32) -> (r: Result<(), MarketplaceError>)
        requires
            old(self).wf(),
        ensures
            final(self).wf(),
            old(self).sold_listings_kept(final(self)),
            match old(self).accept_offer_error(origin, now, offer_id) {
                Some(e) => r == Err::<(), MarketplaceError>(e) && *final(self) == *old(self),
                None => {
                    let who = origin->Signed_0;
                    let offer = old(self).offers@[offer_id];
                    &&& r is Ok
                    &&& final(self).offers@ == old(self).offers@.insert(offer_id, Offer { status: OfferStatus::Accepted, ..offer })
                    &&& final(self).listings@ == old(self).listings@.insert(offer.item_id, Listing {
                        status: ListingStatus::Sold, ..old(self).listings@[offer.item_id]
                    })
                    &&& final(self).active_listing_count@ == old(self).active_listing_count@.insert(
                        who, sat_sub(old(self).count_of(who) as int, 1) as u32)
                    &&& final(self).platform_fee_bp == old(self).platform_fee_bp
                    &&& final(self).config == old(self).config
                    &&& final(self).events@ == old(self).events@.push(MarketplaceEvent::OfferAccepted {
                        offer_id, item_id: offer.item_id, seller: who, buyer: offer.bidder, amount: offer.amount,
                    })
                },
            },
    {
        let who = match ensure_signed(&origin) {
            Ok(s) => s,
            Err(_) => return Err(MarketplaceError::BadOrigin),
        };
        let offer = match self.offer(&offer_id) {
            Some(o) => o,
            None => return Err(MarketplaceError::OfferNotFound),
        };
        if offer.status != OfferStatus::Pending {
            return Err(MarketplaceError::OfferNotPending);
        }
        if now > offer.expires_at {
            return Err(MarketplaceError::OfferExpired);
        }
        let listing = match self.listing(offer.item_id) {
            Some(l) => l,
            None => return Err(MarketplaceError::NotListed),
        };
        if listing.seller != who {
            return Err(MarketplaceError::NotOwner);
        }
        if listing.status != ListingStatus::Active {
            return Err(MarketplaceError::ListingNotActive);
        }
        self.offers.insert(offer_id, Offer { status: OfferStatus::Accepted, ..offer });
        self.set_listing_status(offer.item_id, ListingStatus::Sold);
        self.decrement_count(who);
        self.events.push(MarketplaceEvent::OfferAccepted {
            offer_id,
            item_id: offer.item_id,
            seller: who,
            buyer: offer.bidder,
            amount: offer.amount,
        });
        Ok(())
    }

    /// The error `reject_offer` reports, if any.
    pub open spec fn reject_offer_error(&self, origin: Origin, offer_id: Hash32) -> Option<MarketplaceError> {
        if !(origin is Signed) {
            Some(MarketplaceError::BadOrigin)
        } else if !self.offers@.contains_key(offer_id) {
            Some(MarketplaceError::OfferNotFound)
        } else if self.offers@[offer_id].status != OfferStatus::Pending {
            Some(MarketplaceError::OfferNotPending)
        } else if !self.listings@.contains_key(self.offers@[offer_id].item_id) {
            Some(MarketplaceError::NotListed)
        } else if self.listings@[self.offers@[offer_id].item_id].seller != origin->Signed_0 {
            Some(MarketplaceError::NotOwner)
        } else {
            None
        }
    }

    /// Reject a pending offer; only the seller of the listing may.
    pub fn reject_offer(&mut self, origin: Origin, offer_id: Hash32) -> (r: Result<(), MarketplaceError>)
        requires
            old(self).wf(),
        ensures
            final(self).wf(),
            old(self).sold_listings_kept(final(self)),
            match old(self).reject_offer_error(origin, offer_id) {
                Some(e) => r == Err::<(), MarketplaceError>(e) && *final(self) == *old(self),
                None => {
                    &&& r is Ok
                    &&& final(self).offers@ == old(self).offers@.insert(offer_id, Offer {
                        status: OfferStatus::Rejected, ..old(self).offers@[offer_id]
                    })
                    &&& final(self).listings@ == old(self).listings@
                    &&& final(self).active_listing_count@ == old(self).active_listing_count@
                    &&& final(self).platform_fee_bp == old(self).platform_fee_bp
                    &&& final(self).config == old(self).config
                    &&& final(self).events@ == old(self).events@.push(MarketplaceEvent::OfferRejected { offer_id })
                },
            },
    {
        let who = match ensure_signed(&origin) {
            Ok(s) => s,
            Err(_) => return Err(MarketplaceError::BadOrigin),
        };
        let offer = match self.offer(&offer_id) {
            Some(o) => o,
            None => return Err(MarketplaceError::OfferNotFound),
        };
        if offer.status != OfferStatus::Pending {
            return Err(MarketplaceError::OfferNotPending);
        }
        let listing = match self.listing(offer.item_id) {
            Some(l) => l,
            None => return Err(MarketplaceError::NotListed),
        };
        if listing.seller != who {
            return Err(MarketplaceError::NotOwner);
        }
        self.offers.insert(offer_id, Offer { status: OfferStatus::Rejected, ..offer });
        self.events.push(MarketplaceEvent::OfferRejected { offer_id });
        Ok(())
    }

    /// The error `withdraw_offer` reports, if any.
    pub open spec fn withdraw_offer_error(&self, origin: Origin, offer_id: Hash32) -> Option<MarketplaceError> {
        if !(origin is Signed) {
            Some(MarketplaceError::BadOrigin)
        } else if !self.offers@.contains_key(offer_id) {
            Some(MarketplaceError::OfferNotFound)
        } else if self.offers@[offer_id].status != OfferStatus::Pending {
            Some(MarketplaceError::OfferNotPending)
        } else if self.offers@[offer_id].bidder != origin->Signed_0 {
            Some(MarketplaceError::NotOwner)
        } else {
            None
        }
    }

    /// Withdraw a pending offer; only its bidder may.
    pub fn withdraw_offer(&mut self, origin: Origin, offer_id: Hash32) -> (r: Result<(), MarketplaceError>)
        requires
            old(self).wf(),
        ensures
            final(self).wf(),
            old(self).sold_listings_kept(final(self)),
            match old(self).withdraw_offer_error(origin, offer_id) {
                Some(e) => r == Err::<(), MarketplaceError>(e) && *final(self) == *old(self),
                None => {
                    &&& r is Ok
                    &&& final(self).offers@ == old(self).offers@.insert(offer_id, Offer {
                        status: OfferStatus::Withdrawn, ..old(self).offers@[offer_id]
                    })
                    &&& final(self).listings@ == old(self).listings@
                    &&& final(self).active_listing_count@ == old(self).active_listing_count@
                    &&& final(self).platform_fee_bp == old(self).platform_fee_bp
                    &&& final(self).config == old(self).config
                    &&& final(self).events@ == old(self).events@.push(MarketplaceEvent::OfferWithdrawn { offer_id })
                },
            },
    {
        let who = match ensure_signed(&origin) {
            Ok(s) => s,
            Err(_) => return Err(MarketplaceError::BadOrigin),
        };
        let offer = match self.offer(&offer_id) {
            Some(o) => o,
            None => return Err(MarketplaceError::OfferNotFound),
        };
        if offer.status != OfferStatus::Pending {
            return Err(MarketplaceError::OfferNotPending);
        }
        if offer.bidder != who {
            return Err(MarketplaceError::NotOwner);
        }
        self.offers.insert(offer_id, Offer { status: OfferStatus::Withdrawn, ..offer });
        self.events.push(MarketplaceEvent::OfferWithdrawn { offer_id });
        Ok(())
    }

    /// Set the platform fee (marketplace origin only); at most 3000 bp (30%).
    pub fn update_platform_fee(&mut self, origin: Origin, new_bp: u16) -> (r: Result<(), MarketplaceError>)
        requires
            old(self).wf(),
        ensures
            final(self).wf(),
            old(self).sold_listings_kept(final(self)),
            !old(self).config.marketplace_origin.allows(origin) ==> r == Err::<(), MarketplaceError>(MarketplaceError::BadOrigin) && *final(self) == *old(self),
            old(self).config.marketplace_origin.allows(origin) && new_bp > 3000 ==> r == Err::<(), MarketplaceError>(MarketplaceError::InvalidFee) && *final(self) == *old(self),
            old(self).config.marketplace_origin.allows(origin) && new_bp <= 3000 ==> {
                &&& r is Ok
                &&& final(self).platform_fee_bp == new_bp
                &&& final(self).same_storage_but_fee(old(self))
                &&& final(self).events@ == old(self).events@.push(MarketplaceEvent::PlatformFeeUpdated { old_bp: old(self).platform_fee_bp, new_bp })
            },
    {
        if self.config.marketplace_origin.ensure_origin(&origin).is_err() {
            return Err(MarketplaceError::BadOrigin);
        }
        if new_bp > 3000 {
            return Err(MarketplaceError::InvalidFee);
        }
        let old_bp = self.platform_fee_bp;
        self.platform_fee_bp = new_bp;
        self.events.push(MarketplaceEvent::PlatformFeeUpdated { old_bp, new_bp });
        Ok(())
    }

    /// Everything but the platform fee and the events is as in `other`.
    pub open spec fn same_storage_but_fee(&self, other: &Self) -> bool {
        &&& self.config == other.config
        &&& self.listings@ == other.listings@
        &&& self.offers@ == other.offers@
        &&& self.active_listing_count@ == other.active_listing_count@
    }
}

/// A sold listing stays sold: every call keeps it as it is (`sold_listings_kept`), and a
/// purchase of it, on chain by a signed buyer or with a fiat proof from the marketplace
/// origin, is refused with `ListingNotActive`.
pub proof fn lemma_sold_listing_refuses_purchase(s: Marketplace, origin: Origin, license: LicenseFacts, item_id: u32)
    requires
        s.listings@.contains_key(item_id),
        s.listings@[item_id].status == ListingStatus::Sold,
    ensures
        origin is Signed ==> s.buy_now_precheck(origin, license, item_id) == Some(MarketplaceError::ListingNotActive),
        s.config.marketplace_origin.allows(origin) ==> s.fiat_sale_error(origin, license, item_id) == Some(MarketplaceError::ListingNotActive),
{
}

} // verus!
