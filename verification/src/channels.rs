//! Payment channels between two parties: both deposits are reserved when the channel
//! opens; a party closes it cooperatively, or disputes it with a newer state and anyone
//! settles it once the dispute period has passed. Closing and settling unreserve the
//! deposits.

use vstd::prelude::*;
use crate::common::{AccountId, Balance, BlockNumber, Hash32, Origin, sat_add};
use crate::crypto::{blake2_256, blake2_256_of, digest, lemma_digest};
use crate::ledger::{Ledger, apply_reserve, apply_unreserve, can_reserve};
use crate::scale::{enc_u64, push_u64};
use crate::table::Table;

verus! {

/// Status of a channel.
#[derive(Clone, Copy, Debug, PartialEq, Eq, Structural)]
pub enum ChannelStatus {
    Open,
    Closing,
    Settled,
}

impl Default for ChannelStatus {
    fn default() -> (r: Self)
        ensures
            r == ChannelStatus::Open,
    {
        ChannelStatus::Open
    }
}

/// The state of a channel.
#[derive(Clone, Copy, Debug, PartialEq, Eq, Structural)]
pub struct ChannelState {
    pub party_a: AccountId,
    pub party_b: AccountId,
    pub deposit_a: Balance,
    pub deposit_b: Balance,
    pub nonce: u64,
    pub status: ChannelStatus,
    /// Block until which the channel lives; after a dispute, the end of the dispute period.
    pub ttl: BlockNumber,
    pub dispute_period: BlockNumber,
    pub created_at: BlockNumber,
}

/// Events of the channels pallet.
#[derive(Clone, Copy, Debug)]
pub enum ChannelsEvent {
    ChannelOpened { channel_id: Hash32, party_a: AccountId, party_b: AccountId, deposit_a: Balance, deposit_b: Balance },
    ChannelClosed { channel_id: Hash32, final_balance_a: Balance, final_balance_b: Balance },
    ChannelDisputed { channel_id: Hash32, disputer: AccountId, nonce: u64 },
    ChannelSettled { channel_id: Hash32 },
}

/// Errors of the channels pallet.
#[derive(Clone, Copy, Debug, PartialEq, Eq, Structural)]
pub enum ChannelsError {
    BadOrigin,
    ChannelAlreadyExists,
    ChannelNotFound,
    NotChannelParty,
    InvalidChannelStatus,
    StaleNonce,
    DisputePeriodNotElapsed,
    TTLExceedsMax,
    InsufficientBalance,
    InvalidBalanceSplit,
    DisputePeriodElapsed,
}

/// Constants of the channels pallet.
#[derive(Clone, Copy, Debug)]
pub struct ChannelsConfig {
    pub default_dispute_period: BlockNumber,
    pub max_channel_ttl: BlockNumber,
}

/// The channels storage.
pub struct Channels {
    pub config: ChannelsConfig,
    /// Channels by id.
    pub channels: Table<Hash32, ChannelState>,
    /// Latest disputed nonce by channel (missing means zero).
    pub channel_nonces: Table<Hash32, u64>,
    /// Deposited events, oldest first.
    pub events: Vec<ChannelsEvent>,
}

/// The id of a channel: the BLAKE2-256 digest of the encoded triple
/// `(party_a, party_b, block)`.
pub open spec fn channel_id_of(party_a: AccountId, party_b: AccountId, now: BlockNumber) -> Hash32 {
    digest(blake2_256_of(enc_u64(party_a) + enc_u64(party_b) + enc_u64(now)))
}

/// Compute the id of a channel.
pub fn channel_id(party_a: AccountId, party_b: AccountId, now: BlockNumber) -> (id: Hash32)
    ensures
        id == channel_id_of(party_a, party_b, now),
{
    let mut buf: Vec<u8> = Vec::new();
    push_u64(&mut buf, party_a);
    push_u64(&mut buf, party_b);
    push_u64(&mut buf, now);
    assert(buf@ =~= enc_u64(party_a) + enc_u64(party_b) + enc_u64(now));
    let h = blake2_256(buf.as_slice());
    proof {
        lemma_digest(h);
    }
    h
}

/// A split of a channel's funds that does not exceed its deposits (both sums saturate).
pub open spec fn split_fits(c: ChannelState, a: Balance, b: Balance) -> bool {
    sat_add(a as int, b as int, u128::MAX as int) <= sat_add(c.deposit_a as int, c.deposit_b as int, u128::MAX as int)
}

impl Channels {
    /// All tables are well formed.
    pub open spec fn wf(&self) -> bool {
        &&& self.channels.wf()
        &&& self.channel_nonces.wf()
    }

    /// The latest disputed nonce of a channel.
    pub open spec fn nonce_of(&self, id: Hash32) -> u64 {
        if self.channel_nonces@.contains_key(id) { self.channel_nonces@[id] } else { 0 }
    }

    /// An empty pallet.
    pub fn new(config: ChannelsConfig) -> (s: Self)
        ensures
            s.wf(),
            s.config == config,
            s.channels@ == Map::<Hash32, ChannelState>::empty(),
            s.channel_nonces@ == Map::<Hash32, u64>::empty(),
            s.events@ == Seq::<ChannelsEvent>::empty(),
    {
        Channels { config, channels: Table::new(), channel_nonces: Table::new(), events: Vec::new() }
    }

    /// The error `open_channel` reports, if any.
    pub open spec fn open_error(&self, ledger: &Ledger, origin: Origin, now: BlockNumber, party_b: AccountId, deposit_a: Balance, deposit_b: Balance, ttl: BlockNumber) -> Option<ChannelsError> {
        if !(origin is Signed) {
            Some(ChannelsError::BadOrigin)
        } else if ttl > self.config.max_channel_ttl {
            Some(ChannelsError::TTLExceedsMax)
        } else if self.channels@.contains_key(channel_id_of(origin->Signed_0, party_b, now)) {
            Some(ChannelsError::ChannelAlreadyExists)
        } else if !can_reserve(ledger@, ledger.ed(), origin->Signed_0, deposit_a)
            || !can_reserve(apply_reserve(ledger@, origin->Signed_0, deposit_a), ledger.ed(), party_b, deposit_b) {
            Some(ChannelsError::InsufficientBalance)
        } else {
            None
        }
    }

    /// Open a channel between the caller and `party_b`, reserving both deposits; the
    /// channel's id comes from the parties and the block.
    pub fn open_channel(&mut self, ledger: &mut Ledger, origin: Origin, now: BlockNumber, party_b: AccountId, deposit_a: Balance, deposit_b: Balance, ttl: BlockNumber) -> (r: Result<(), ChannelsError>)
        requires
            old(self).wf(),
            old(ledger).wf(),
        ensures
            final(self).wf(),
            final(ledger).wf(),
            final(ledger).ed() == old(ledger).ed(),
            match old(self).open_error(old(ledger), origin, now, party_b, deposit_a, deposit_b, ttl) {
                Some(e) => r == Err::<(), ChannelsError>(e) && *final(self) == *old(self) && *final(ledger) == *old(ledger),
                None => {
                    let party_a = origin->Signed_0;
                    let id = channel_id_of(party_a, party_b, now);
                    &&& r is Ok
                    &&& final(ledger)@ == apply_reserve(apply_reserve(old(ledger)@, party_a, deposit_a), party_b, deposit_b)
                    &&& final(self).channels@ == old(self).channels@.insert(id, ChannelState {
                        party_a, party_b, deposit_a, deposit_b, nonce: 0, status: ChannelStatus::Open, ttl,
                        dispute_period: old(self).config.default_dispute_period, created_at: now })
                    &&& final(self).channel_nonces@ == old(self).channel_nonces@.insert(id, 0)
                    &&& final(self).config == old(self).config
                    &&& final(self).events@ == old(self).events@.push(ChannelsEvent::ChannelOpened {
                        channel_id: id, party_a, party_b, deposit_a, deposit_b })
                },
            },
    {
        let party_a = match origin {
            Origin::Signed(w) => w,
            _ => return Err(ChannelsError::BadOrigin),
        };
        if ttl > self.config.max_channel_ttl {
            return Err(ChannelsError::TTLExceedsMax);
        }
        let id = channel_id(party_a, party_b, now);
        if self.channels.contains_key(&id) {
            return Err(ChannelsError::ChannelAlreadyExists);
        }
        let mut scratch = ledger.copy();
        match scratch.reserve(party_a, deposit_a) {
            Ok(()) => {},
            Err(_) => return Err(ChannelsError::InsufficientBalance),
        }
        match scratch.reserve(party_b, deposit_b) {
            Ok(()) => {},
            Err(_) => return Err(ChannelsError::InsufficientBalance),
        }
        *ledger = scratch;
        let dispute_period = self.config.default_dispute_period;
        self.channels.insert(id, ChannelState {
            party_a,
            party_b,
            deposit_a,
            deposit_b,
            nonce: 0,
            status: ChannelStatus::Open,
            ttl,
            dispute_period,
            created_at: now,
        });
        self.channel_nonces.insert(id, 0);
        self.events.push(ChannelsEvent::ChannelOpened { channel_id: id, party_a, party_b, deposit_a, deposit_b });
        Ok(())
    }

    /// The error `close_channel` reports, if any.
    pub open spec fn close_error(&self, origin: Origin, channel_id: Hash32, final_balance_a: Balance, final_balance_b: Balance) -> Option<ChannelsError> {
        if !(origin is Signed) {
            Some(ChannelsError::BadOrigin)
        } else if !self.channels@.contains_key(channel_id) {
            Some(ChannelsError::ChannelNotFound)
        } else if origin->Signed_0 != self.channels@[channel_id].party_a && origin->Signed_0 != self.channels@[channel_id].party_b {
            Some(ChannelsError::NotChannelParty)
        } else if self.channels@[channel_id].status != ChannelStatus::Open {
            Some(ChannelsError::InvalidChannelStatus)
        } else if !split_fits(self.channels@[channel_id], final_balance_a, final_balance_b) {
            Some(ChannelsError::InvalidBalanceSplit)
        } else {
            None
        }
    }

    /// Close an open channel cooperatively (a party only): both deposits are unreserved
    /// and the channel settled; the final split, which must fit the deposits, is only
    /// announced.
    pub fn close_channel(&mut self, ledger: &mut Ledger, origin: Origin, channel_id: Hash32, final_balance_a: Balance, final_balance_b: Balance) -> (r: Result<(), ChannelsError>)
        requires
            old(self).wf(),
            old(ledger).wf(),
        ensures
            final(self).wf(),
            final(ledger).wf(),
            final(ledger).ed() == old(ledger).ed(),
            match old(self).close_error(origin, channel_id, final_balance_a, final_balance_b) {
                Some(e) => r == Err::<(), ChannelsError>(e) && *final(self) == *old(self) && *final(ledger) == *old(ledger),
                None => {
                    let c = old(self).channels@[channel_id];
                    &&& r is Ok
                    &&& final(ledger)@ == apply_unreserve(apply_unreserve(old(ledger)@, c.party_a, c.deposit_a), c.party_b, c.deposit_b)
                    &&& final(self).channels@ == old(self).channels@.insert(channel_id, ChannelState { status: ChannelStatus::Settled, ..c })
                    &&& final(self).channel_nonces@ == old(self).channel_nonces@
                    &&& final(self).config == old(self).config
                    &&& final(self).events@ == old(self).events@.push(ChannelsEvent::ChannelClosed {
                        channel_id, final_balance_a, final_balance_b })
                },
            },
    {
        let who = match origin {
            Origin::Signed(w) => w,
            _ => return Err(ChannelsError::BadOrigin),
        };
        let c = match self.channels.get(&channel_id) {
            Some(c) => *c,
            None => return Err(ChannelsError::ChannelNotFound),
        };
        if who != c.party_a && who != c.party_b {
            return Err(ChannelsError::NotChannelParty);
        }
        if c.status != ChannelStatus::Open {
            return Err(ChannelsError::InvalidChannelStatus);
        }
        if final_balance_a.saturating_add(final_balance_b) > c.deposit_a.saturating_add(c.deposit_b) {
            return Err(ChannelsError::InvalidBalanceSplit);
        }
        let _ = ledger.unreserve(c.party_a, c.deposit_a);
        let _ = ledger.unreserve(c.party_b, c.deposit_b);
        self.channels.insert(channel_id, ChannelState { status: ChannelStatus::Settled, ..c });
        self.events.push(ChannelsEvent::ChannelClosed { channel_id, final_balance_a, final_balance_b });
        Ok(())
    }

    /// The error `dispute_channel` reports, if any.
    pub open spec fn dispute_error(&self, origin: Origin, channel_id: Hash32, nonce: u64, final_balance_a: Balance, final_balance_b: Balance) -> Option<ChannelsError> {
        if !(origin is Signed) {
            Some(ChannelsError::BadOrigin)
        } else if !self.channels@.contains_key(channel_id) {
            Some(ChannelsError::ChannelNotFound)
        } else if origin->Signed_0 != self.channels@[channel_id].party_a && origin->Signed_0 != self.channels@[channel_id].party_b {
            Some(ChannelsError::NotChannelParty)
        } else if !(self.channels@[channel_id].status == ChannelStatus::Open || self.channels@[channel_id].status == ChannelStatus::Closing) {
            Some(ChannelsError::InvalidChannelStatus)
        } else if nonce <= self.nonce_of(channel_id) {
            Some(ChannelsError::StaleNonce)
        } else if !split_fits(self.channels@[channel_id], final_balance_a, final_balance_b) {
            Some(ChannelsError::InvalidBalanceSplit)
        } else {
            None
        }
    }

    /// Dispute a channel with a newer state (a party only): the nonce must exceed the
    /// last disputed one; the channel enters its dispute period, which ends
    /// `dispute_period` blocks from now.
    pub fn dispute_channel(&mut self, origin: Origin, now: BlockNumber, channel_id: Hash32, nonce: u64, final_balance_a: Balance, final_balance_b: Balance) -> (r: Result<(), ChannelsError>)
        requires
            old(self).wf(),
        ensures
            final(self).wf(),
            match old(self).dispute_error(origin, channel_id, nonce, final_balance_a, final_balance_b) {
                Some(e) => r == Err::<(), ChannelsError>(e) && *final(self) == *old(self),
                None => {
                    let c = old(self).channels@[channel_id];
                    &&& r is Ok
                    &&& final(self).channels@ == old(self).channels@.insert(channel_id, ChannelState {
                        nonce, status: ChannelStatus::Closing,
                        ttl: sat_add(now as int, c.dispute_period as int, u64::MAX as int) as BlockNumber, ..c })
                    &&& final(self).channel_nonces@ == old(self).channel_nonces@.insert(channel_id, nonce)
                    &&& final(self).config == old(self).config
                    &&& final(self).events@ == old(self).events@.push(ChannelsEvent::ChannelDisputed {
                        channel_id, disputer: origin->Signed_0, nonce })
                },
            },
    {
        let who = match origin {
            Origin::Signed(w) => w,
            _ => return Err(ChannelsError::BadOrigin),
        };
        let c = match self.channels.get(&channel_id) {
            Some(c) => *c,
            None => return Err(ChannelsError::ChannelNotFound),
        };
        if who != c.party_a && who != c.party_b {
            return Err(ChannelsError::NotChannelParty);
        }
        if !(c.status == ChannelStatus::Open || c.status == ChannelStatus::Closing) {
            return Err(ChannelsError::InvalidChannelStatus);
        }
        let current = match self.channel_nonces.get(&channel_id) {
            Some(n) => *n,
            None => 0,
        };
        if nonce <= current {
            return Err(ChannelsError::StaleNonce);
        }
        if final_balance_a.saturating_add(final_balance_b) > c.deposit_a.saturating_add(c.deposit_b) {
            return Err(ChannelsError::InvalidBalanceSplit);
        }
        self.channel_nonces.insert(channel_id, nonce);
        self.channels.insert(channel_id, ChannelState {
            nonce,
            status: ChannelStatus::Closing,
            ttl: now.saturating_add(c.dispute_period),
            ..c
        });
        self.events.push(ChannelsEvent::ChannelDisputed { channel_id, disputer: who, nonce });
        Ok(())
    }

    /// The error `settle_channel` reports, if any.
    pub open spec fn settle_error(&self, origin: Origin, now: BlockNumber, channel_id: Hash32) -> Option<ChannelsError> {
        if !(origin is Signed) {
            Some(ChannelsError::BadOrigin)
        } else if !self.channels@.contains_key(channel_id) {
            Some(ChannelsError::ChannelNotFound)
        } else if self.channels@[channel_id].status != ChannelStatus::Closing {
            Some(ChannelsError::InvalidChannelStatus)
        } else if now < self.channels@[channel_id].ttl {
            Some(ChannelsError::DisputePeriodNotElapsed)
        } else {
            None
        }
    }

    /// Settle a disputed channel once its dispute period has passed (any signed origin):
    /// both deposits are unreserved.
    pub fn settle_channel(&mut self, ledger: &mut Ledger, origin: Origin, now: BlockNumber, channel_id: Hash32) -> (r: Result<(), ChannelsError>)
        requires
            old(self).wf(),
            old(ledger).wf(),
        ensures
            final(self).wf(),
            final(ledger).wf(),
            final(ledger).ed() == old(ledger).ed(),
            match old(self).settle_error(origin, now, channel_id) {
                Some(e) => r == Err::<(), ChannelsError>(e) && *final(self) == *old(self) && *final(ledger) == *old(ledger),
                None => {
                    let c = old(self).channels@[channel_id];
                    &&& r is Ok
                    &&& final(ledger)@ == apply_unreserve(apply_unreserve(old(ledger)@, c.party_a, c.deposit_a), c.party_b, c.deposit_b)
                    &&& final(self).channels@ == old(self).channels@.insert(channel_id, ChannelState { status: ChannelStatus::Settled, ..c })
                    &&& final(self).channel_nonces@ == old(self).channel_nonces@
                    &&& final(self).config == old(self).config
                    &&& final(self).events@ == old(self).events@.push(ChannelsEvent::ChannelSettled { channel_id })
                },
            },
    {
        match origin {
            Origin::Signed(_) => {},
            _ => return Err(ChannelsError::BadOrigin),
        }
        let c = match self.channels.get(&channel_id) {
            Some(c) => *c,
            None => return Err(ChannelsError::ChannelNotFound),
        };
        if c.status != ChannelStatus::Closing {
            return Err(ChannelsError::InvalidChannelStatus);
        }
        if now < c.ttl {
            return Err(ChannelsError::DisputePeriodNotElapsed);
        }
        let _ = ledger.unreserve(c.party_a, c.deposit_a);
        let _ = ledger.unreserve(c.party_b, c.deposit_b);
        self.channels.insert(channel_id, ChannelState { status: ChannelStatus::Settled, ..c });
        self.events.push(ChannelsEvent::ChannelSettled { channel_id });
        Ok(())
    }
}

/// A settled channel is final: closing, disputing and settling it again are all refused
/// with `InvalidChannelStatus` (for a caller that is a party).
pub proof fn lemma_settled_is_final(s: Channels, origin: Origin, now: BlockNumber, channel_id: Hash32, nonce: u64, a: Balance, b: Balance)
    requires
        s.channels@.contains_key(channel_id),
        s.channels@[channel_id].status == ChannelStatus::Settled,
        origin is Signed,
        origin->Signed_0 == s.channels@[channel_id].party_a || origin->Signed_0 == s.channels@[channel_id].party_b,
    ensures
        s.close_error(origin, channel_id, a, b) == Some(ChannelsError::InvalidChannelStatus),
        s.dispute_error(origin, channel_id, nonce, a, b) == Some(ChannelsError::InvalidChannelStatus),
        s.settle_error(origin, now, channel_id) == Some(ChannelsError::InvalidChannelStatus),
{
}

} // verus!
