//! Royalty accounting: royalties that sales generate accumulate per creator and
//! currency, each payment is kept in a history, and creators claim (zero) their
//! accumulated balance. The sale itself already paid the creator, so a claim moves no
//! funds; it settles the record. Admins set the platform treasury and fee.

use vstd::prelude::*;
use crate::common::{AccountId, Balance, BlockNumber, Hash32, Origin, OriginRule, sat_add};
use crate::crypto::{blake2_256, blake2_256_of, digest, lemma_digest};
use crate::scale::{enc_u32, enc_u64, push_u32, push_u64};
use crate::table::{KeyEq, Table};

verus! {

/// Highest platform fee, in basis points (30%).
pub const MAX_PLATFORM_FEE_BP: u16 = 3000;

/// Currency of a royalty.
#[derive(Clone, Copy, Debug, PartialEq, Eq, Structural)]
pub enum RoyaltyCurrency {
    /// The native token.
    PLIM,
    /// The euro stablecoin, settled off chain.
    PEUR,
    /// Fiat euro, settled off chain.
    EURFiat,
}

impl KeyEq for (AccountId, RoyaltyCurrency) {
    fn key_eq(&self, other: &Self) -> (r: bool) {
        self.0 == other.0 && self.1 == other.1
    }
}

/// One recorded royalty payment.
#[derive(Clone, Copy, Debug, PartialEq, Eq, Structural)]
pub struct RoyaltyPayment {
    pub creator: AccountId,
    pub item_id: u32,
    /// Gross amount, before any platform fee.
    pub amount: Balance,
    pub currency: RoyaltyCurrency,
    pub block_number: BlockNumber,
    pub claimed: bool,
}

/// Events of the royalties pallet.
#[derive(Clone, Copy, Debug)]
pub enum RoyaltiesEvent {
    RoyaltyAccumulated { creator: AccountId, item_id: u32, amount: Balance, currency: RoyaltyCurrency },
    RoyaltyClaimed { creator: AccountId, amount: Balance, currency: RoyaltyCurrency },
    PlatformTreasuryUpdated { old: Option<AccountId>, new: AccountId },
    PlatformFeeUpdated { old_bp: u16, new_bp: u16 },
}

/// Errors of the royalties pallet.
#[derive(Clone, Copy, Debug, PartialEq, Eq, Structural)]
pub enum RoyaltiesError {
    BadOrigin,
    NoAccumulatedRoyalties,
    /// The fee exceeds 3000 basis points.
    InvalidFee,
    TreasuryNotSet,
    Unauthorized,
}

/// Constants of the royalties pallet.
#[derive(Clone, Copy, Debug)]
pub struct RoyaltiesConfig {
    /// Who may set the treasury and the fee.
    pub admin_origin: OriginRule,
}

/// The royalties storage.
pub struct Royalties {
    pub config: RoyaltiesConfig,
    /// Unclaimed royalties by (creator, currency) (missing means zero).
    pub accumulated_royalties: Table<(AccountId, RoyaltyCurrency), Balance>,
    /// Payments by payment id.
    pub royalty_history: Table<Hash32, RoyaltyPayment>,
    /// Royalties recorded over all time, saturating.
    pub total_royalties_paid: Balance,
    pub platform_treasury: Option<AccountId>,
    /// Platform fee in basis points, at most 3000.
    pub platform_fee_bp: u16,
    /// Payments recorded, saturating.
    pub payment_count: u32,
    /// Deposited events, oldest first.
    pub events: Vec<RoyaltiesEvent>,
}

/// The id of a payment: the BLAKE2-256 digest of the encoded triple
/// `(creator, item_id, block)`.
pub open spec fn royalty_payment_id_of(creator: AccountId, item_id: u32, now: BlockNumber) -> Hash32 {
    digest(blake2_256_of(enc_u64(creator) + enc_u32(item_id) + enc_u64(now)))
}

/// Compute the id of a payment.
pub fn royalty_payment_id(creator: AccountId, item_id: u32, now: BlockNumber) -> (id: Hash32)
    ensures
        id == royalty_payment_id_of(creator, item_id, now),
{
    let mut buf: Vec<u8> = Vec::new();
    push_u64(&mut buf, creator);
    push_u32(&mut buf, item_id);
    push_u64(&mut buf, now);
    assert(buf@ =~= enc_u64(creator) + enc_u32(item_id) + enc_u64(now));
    let h = blake2_256(buf.as_slice());
    proof {
        lemma_digest(h);
    }
    h
}

impl Royalties {
    /// Tables well formed and the fee within its cap.
    pub open spec fn wf(&self) -> bool {
        &&& self.accumulated_royalties.wf()
        &&& self.royalty_history.wf()
        &&& self.platform_fee_bp <= MAX_PLATFORM_FEE_BP
    }

    /// Unclaimed royalties of `creator` in `currency`.
    pub open spec fn accumulated_of(&self, creator: AccountId, currency: RoyaltyCurrency) -> Balance {
        if self.accumulated_royalties@.contains_key((creator, currency)) {
            self.accumulated_royalties@[(creator, currency)]
        } else {
            0
        }
    }

    /// The pallet at genesis: an optional treasury and the default fee, capped at 3000.
    pub fn genesis(config: RoyaltiesConfig, platform_treasury: Option<AccountId>, default_fee_bp: u16) -> (s: Self)
        ensures
            s.wf(),
            s.config == config,
            s.platform_treasury == platform_treasury,
            s.platform_fee_bp == (if default_fee_bp > MAX_PLATFORM_FEE_BP { MAX_PLATFORM_FEE_BP } else { default_fee_bp }),
            s.accumulated_royalties@ == Map::<(AccountId, RoyaltyCurrency), Balance>::empty(),
            s.royalty_history@ == Map::<Hash32, RoyaltyPayment>::empty(),
            s.total_royalties_paid == 0,
            s.payment_count == 0,
            s.events@ == Seq::<RoyaltiesEvent>::empty(),
    {
        let fee = if default_fee_bp > MAX_PLATFORM_FEE_BP { MAX_PLATFORM_FEE_BP } else { default_fee_bp };
        Royalties {
            config,
            accumulated_royalties: Table::new(),
            royalty_history: Table::new(),
            total_royalties_paid: 0,
            platform_treasury,
            platform_fee_bp: fee,
            payment_count: 0,
            events: Vec::new(),
        }
    }

    /// The error `claim_accumulated_royalties` reports, if any.
    pub open spec fn claim_error(&self, origin: Origin, currency: RoyaltyCurrency) -> Option<RoyaltiesError> {
        if !(origin is Signed) {
            Some(RoyaltiesError::BadOrigin)
        } else if self.accumulated_of(origin->Signed_0, currency) == 0 {
            Some(RoyaltiesError::NoAccumulatedRoyalties)
        } else {
            None
        }
    }

    /// Settle the caller's accumulated royalties in `currency`: the balance is zeroed and
    /// the claim announced. No funds move, in any currency: the sale that generated the
    /// royalty already paid the creator.
    pub fn claim_accumulated_royalties(&mut self, origin: Origin, currency: RoyaltyCurrency) -> (r: Result<(), RoyaltiesError>)
        requires
            old(self).wf(),
        ensures
            final(self).wf(),
            match old(self).claim_error(origin, currency) {
                Some(e) => r == Err::<(), RoyaltiesError>(e) && *final(self) == *old(self),
                None => {
                    let creator = origin->Signed_0;
                    &&& r is Ok
                    &&& final(self).accumulated_royalties@ == old(self).accumulated_royalties@.insert((creator, currency), 0)
                    &&& final(self).royalty_history@ == old(self).royalty_history@
                    &&& final(self).total_royalties_paid == old(self).total_royalties_paid
                    &&& final(self).platform_treasury == old(self).platform_treasury
                    &&& final(self).platform_fee_bp == old(self).platform_fee_bp
                    &&& final(self).payment_count == old(self).payment_count
                    &&& final(self).config == old(self).config
                    &&& final(self).events@ == old(self).events@.push(RoyaltiesEvent::RoyaltyClaimed {
                        creator, amount: old(self).accumulated_of(creator, currency), currency })
                },
            },
    {
        let creator = match origin {
            Origin::Signed(w) => w,
            _ => return Err(RoyaltiesError::BadOrigin),
        };
        let amount = match self.accumulated_royalties.get(&(creator, currency)) {
            Some(a) => *a,
            None => 0,
        };
        if amount == 0 {
            return Err(RoyaltiesError::NoAccumulatedRoyalties);
        }
        self.accumulated_royalties.insert((creator, currency), 0);
        self.events.push(RoyaltiesEvent::RoyaltyClaimed { creator, amount, currency });
        Ok(())
    }

    /// Set the platform treasury (admin origin only).
    pub fn set_platform_treasury(&mut self, origin: Origin, new: AccountId) -> (r: Result<(), RoyaltiesError>)
        requires
            old(self).wf(),
        ensures
            final(self).wf(),
            !old(self).config.admin_origin.allows(origin) ==> r == Err::<(), RoyaltiesError>(RoyaltiesError::BadOrigin) && *final(self) == *old(self),
            old(self).config.admin_origin.allows(origin) ==> {
                &&& r is Ok
                &&& final(self).platform_treasury == Some(new)
                &&& final(self).accumulated_royalties@ == old(self).accumulated_royalties@
                &&& final(self).royalty_history@ == old(self).royalty_history@
                &&& final(self).total_royalties_paid == old(self).total_royalties_paid
                &&& final(self).platform_fee_bp == old(self).platform_fee_bp
                &&& final(self).payment_count == old(self).payment_count
                &&& final(self).config == old(self).config
                &&& final(self).events@ == old(self).events@.push(RoyaltiesEvent::PlatformTreasuryUpdated {
                    old: old(self).platform_treasury, new })
            },
    {
        match self.config.admin_origin.ensure_origin(&origin) {
            Ok(()) => {},
            Err(_) => return Err(RoyaltiesError::BadOrigin),
        }
        let old = self.platform_treasury;
        self.platform_treasury = Some(new);
        self.events.push(RoyaltiesEvent::PlatformTreasuryUpdated { old, new });
        Ok(())
    }

    /// The error `update_platform_fee` reports, if any.
    pub open spec fn fee_error(&self, origin: Origin, new_bp: u16) -> Option<RoyaltiesError> {
        if !self.config.admin_origin.allows(origin) {
            Some(RoyaltiesError::BadOrigin)
        } else if new_bp > MAX_PLATFORM_FEE_BP {
            Some(RoyaltiesError::InvalidFee)
        } else {
            None
        }
    }

    /// Set the platform fee (admin origin only), at most 3000 basis points.
    pub fn update_platform_fee(&mut self, origin: Origin, new_bp: u16) -> (r: Result<(), RoyaltiesError>)
        requires
            old(self).wf(),
        ensures
            final(self).wf(),
            match old(self).fee_error(origin, new_bp) {
                Some(e) => r == Err::<(), RoyaltiesError>(e) && *final(self) == *old(self),
                None => {
                    &&& r is Ok
                    &&& final(self).platform_fee_bp == new_bp
                    &&& final(self).platform_treasury == old(self).platform_treasury
                    &&& final(self).accumulated_royalties@ == old(self).accumulated_royalties@
                    &&& final(self).royalty_history@ == old(self).royalty_history@
                    &&& final(self).total_royalties_paid == old(self).total_royalties_paid
                    &&& final(self).payment_count == old(self).payment_count
                    &&& final(self).config == old(self).config
                    &&& final(self).events@ == old(self).events@.push(RoyaltiesEvent::PlatformFeeUpdated {
                        old_bp: old(self).platform_fee_bp, new_bp })
                },
            },
    {
        match self.config.admin_origin.ensure_origin(&origin) {
            Ok(()) => {},
            Err(_) => return Err(RoyaltiesError::BadOrigin),
        }
        if new_bp > MAX_PLATFORM_FEE_BP {
            return Err(RoyaltiesError::InvalidFee);
        }
        let old_bp = self.platform_fee_bp;
        self.platform_fee_bp = new_bp;
        self.events.push(RoyaltiesEvent::PlatformFeeUpdated { old_bp, new_bp });
        Ok(())
    }

    /// `new` is `old` after recording a royalty payment under `payment_id`.
    pub open spec fn recorded(old: &Self, new: &Self, creator: AccountId, item_id: u32, amount: Balance, currency: RoyaltyCurrency, now: BlockNumber, payment_id: Hash32) -> bool {
        &&& new.accumulated_royalties@ == old.accumulated_royalties@.insert((creator, currency),
            sat_add(old.accumulated_of(creator, currency) as int, amount as int, u128::MAX as int) as Balance)
        &&& new.royalty_history@ == old.royalty_history@.insert(payment_id, RoyaltyPayment {
            creator, item_id, amount, currency, block_number: now, claimed: false })
        &&& new.total_royalties_paid == sat_add(old.total_royalties_paid as int, amount as int, u128::MAX as int)
        &&& new.payment_count == sat_add(old.payment_count as int, 1, u32::MAX as int)
        &&& new.platform_treasury == old.platform_treasury
        &&& new.platform_fee_bp == old.platform_fee_bp
        &&& new.config == old.config
        &&& new.events@ == old.events@.push(RoyaltiesEvent::RoyaltyAccumulated { creator, item_id, amount, currency })
    }

    /// Record a royalty payment under a known payment id: the creator's unclaimed
    /// balance in that currency and the lifetime totals grow (saturating), and the
    /// payment joins the history.
    pub fn record_with_id(&mut self, creator: AccountId, item_id: u32, amount: Balance, currency: RoyaltyCurrency, now: BlockNumber, payment_id: Hash32)
        requires
            old(self).wf(),
        ensures
            final(self).wf(),
            Self::recorded(old(self), final(self), creator, item_id, amount, currency, now, payment_id),
    {
        let acc = match self.accumulated_royalties.get(&(creator, currency)) {
            Some(a) => *a,
            None => 0,
        };
        self.accumulated_royalties.insert((creator, currency), acc.saturating_add(amount));
        self.royalty_history.insert(payment_id, RoyaltyPayment {
            creator,
            item_id,
            amount,
            currency,
            block_number: now,
            claimed: false,
        });
        self.total_royalties_paid = self.total_royalties_paid.saturating_add(amount);
        self.payment_count = self.payment_count.saturating_add(1);
        self.events.push(RoyaltiesEvent::RoyaltyAccumulated { creator, item_id, amount, currency });
    }

    /// Record a royalty that a sale of `item_id` generated for `creator` at block `now`.
    pub fn on_royalty_paid(&mut self, creator: AccountId, item_id: u32, amount: Balance, currency: RoyaltyCurrency, now: BlockNumber)
        requires
            old(self).wf(),
        ensures
            final(self).wf(),
            Self::recorded(old(self), final(self), creator, item_id, amount, currency, now,
                royalty_payment_id_of(creator, item_id, now)),
    {
        let id = royalty_payment_id(creator, item_id, now);
        self.record_with_id(creator, item_id, amount, currency, now, id);
    }

    /// Record a royalty payment on behalf of another pallet; the same as
    /// `on_royalty_paid`.
    pub fn record_royalty_payment(&mut self, creator: AccountId, item_id: u32, amount: Balance, currency: RoyaltyCurrency, now: BlockNumber)
        requires
            old(self).wf(),
        ensures
            final(self).wf(),
            Self::recorded(old(self), final(self), creator, item_id, amount, currency, now,
                royalty_payment_id_of(creator, item_id, now)),
    {
        self.on_royalty_paid(creator, item_id, amount, currency, now);
    }
}

/// Claiming settles exactly what was recorded: after a royalty of `amount` is recorded
/// for a creator whose balance in that currency was zero, the creator's claim succeeds,
/// announces `amount`, and leaves the balance zero.
pub proof fn lemma_claim_settles_recorded(s0: Royalties, s1: Royalties, s2: Royalties, creator: AccountId, item_id: u32, amount: Balance, currency: RoyaltyCurrency, now: BlockNumber, payment_id: Hash32)
    requires
        s0.accumulated_of(creator, currency) == 0,
        amount > 0,
        Royalties::recorded(&s0, &s1, creator, item_id, amount, currency, now, payment_id),
        s2.accumulated_royalties@ == s1.accumulated_royalties@.insert((creator, currency), 0),
    ensures
        s1.accumulated_of(creator, currency) == amount,
        s1.claim_error(Origin::Signed(creator), currency) is None,
        s2.accumulated_of(creator, currency) == 0,
{
}

} // verus!
