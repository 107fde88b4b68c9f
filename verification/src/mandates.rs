//! Mandate seals: an owner opens seals under constraints, closes each once with a
//! message commitment (optionally pointing at the next open seal), and creates chains
//! of linked seals for recurring payments.

use vstd::prelude::*;
use crate::common::{AccountId, Balance, BlockNumber, Hash32, Origin};
use crate::crypto::{blake2_256, blake2_256_of, digest, lemma_digest};
use crate::scale::{enc_u64, push_u64};
use crate::table::Table;

verus! {

/// Status of a seal.
#[derive(Clone, Copy, Debug, PartialEq, Eq, Structural)]
pub enum SealStatus {
    Open,
    Closed,
}

/// What a seal may authorise.
#[derive(Clone, Copy, Debug, PartialEq, Eq, Structural)]
pub struct SealConstraints {
    pub max_amount: Balance,
    /// Last block at which the seal can be closed, if any.
    pub expires_at: Option<BlockNumber>,
}

/// The state of a seal.
#[derive(Clone, Copy, Debug)]
pub struct SealState {
    pub owner: AccountId,
    pub commitment: Option<Hash32>,
    pub status: SealStatus,
    pub constraints: SealConstraints,
    pub created_at: BlockNumber,
    pub closed_at: Option<BlockNumber>,
    pub next_seal: Option<Hash32>,
}

/// Events of the mandates pallet.
#[derive(Clone, Copy, Debug)]
pub enum MandatesEvent {
    SealCreated { seal_id: Hash32, owner: AccountId },
    SealClosed { seal_id: Hash32, message_hash: Hash32 },
    RecurringChainCreated { first_seal_id: Hash32, count: u32 },
}

/// Errors of the mandates pallet.
#[derive(Clone, Copy, Debug, PartialEq, Eq, Structural)]
pub enum MandatesError {
    BadOrigin,
    SealNotFound,
    NotSealOwner,
    SealAlreadyClosed,
    SealExpired,
    InvalidSealChain,
    ChainTooLong,
}

/// Constants of the mandates pallet.
#[derive(Clone, Copy, Debug)]
pub struct MandatesConfig {
    /// Longest recurring chain.
    pub max_chain_length: u32,
}

/// The mandates storage.
pub struct Mandates {
    pub config: MandatesConfig,
    /// Seals by id.
    pub seals: Table<Hash32, SealState>,
    /// The seal each seal links to, by id.
    pub seal_chains: Table<Hash32, Option<Hash32>>,
    /// Counter that makes seal ids unique; wraps around.
    pub seal_nonce: u64,
    /// Deposited events, oldest first.
    pub events: Vec<MandatesEvent>,
}

/// `n + i`, wrapping around 64 bits.
pub open spec fn wrap_add(n: u64, i: int) -> u64 {
    ((n + i) % 0x1_0000_0000_0000_0000) as u64
}

/// The id of the seal an owner creates with a nonce: the BLAKE2-256 digest of the
/// encoded pair `(owner, nonce)`.
pub open spec fn seal_id_of(owner: AccountId, nonce: u64) -> Hash32 {
    digest(blake2_256_of(enc_u64(owner) + enc_u64(nonce)))
}

/// The ids of a chain of `count` seals created from nonce `nonce` on.
pub open spec fn chain_ids(owner: AccountId, nonce: u64, count: nat) -> Seq<Hash32> {
    Seq::new(count, |i: int| seal_id_of(owner, wrap_add(nonce, i)))
}

/// The state of the `i`-th seal of a chain: open, linked to the next one.
pub open spec fn chain_state(ids: Seq<Hash32>, i: int, owner: AccountId, constraints: SealConstraints, now: BlockNumber) -> SealState {
    SealState {
        owner,
        commitment: None,
        status: SealStatus::Open,
        constraints,
        created_at: now,
        closed_at: None,
        next_seal: if i + 1 < ids.len() { Some(ids[i + 1]) } else { None },
    }
}

/// The seals after storing the first `k` seals of a chain, in order.
pub open spec fn with_chain_seals(m: Map<Hash32, SealState>, ids: Seq<Hash32>, k: nat, owner: AccountId, constraints: SealConstraints, now: BlockNumber) -> Map<Hash32, SealState>
    decreases k,
{
    if k == 0 {
        m
    } else {
        with_chain_seals(m, ids, (k - 1) as nat, owner, constraints, now).insert(ids[k - 1],
            chain_state(ids, k - 1, owner, constraints, now))
    }
}

/// The links after storing the first `k` seals of a chain, in order.
pub open spec fn with_chain_links(m: Map<Hash32, Option<Hash32>>, ids: Seq<Hash32>, k: nat) -> Map<Hash32, Option<Hash32>>
    decreases k,
{
    if k == 0 {
        m
    } else {
        with_chain_links(m, ids, (k - 1) as nat).insert(ids[k - 1],
            if k < ids.len() { Some(ids[k as int]) } else { None })
    }
}

/// Storing the first `k` seals of a chain leaves every other key as it was.
proof fn lemma_chain_keeps(m: Map<Hash32, SealState>, ids: Seq<Hash32>, k: nat, owner: AccountId, constraints: SealConstraints, now: BlockNumber, key: Hash32)
    requires
        k <= ids.len(),
        forall|i: int| 0 <= i < k ==> #[trigger] ids[i] != key,
    ensures
        with_chain_seals(m, ids, k, owner, constraints, now).contains_key(key) == m.contains_key(key),
        m.contains_key(key) ==> with_chain_seals(m, ids, k, owner, constraints, now)[key] == m[key],
    decreases k,
{
    if k > 0 {
        lemma_chain_keeps(m, ids, (k - 1) as nat, owner, constraints, now, key);
        assert(ids[k - 1] != key);
    }
}

/// Compute the id of a seal.
pub fn seal_id(owner: AccountId, nonce: u64) -> (id: Hash32)
    ensures
        id == seal_id_of(owner, nonce),
{
    let mut buf: Vec<u8> = Vec::new();
    push_u64(&mut buf, owner);
    push_u64(&mut buf, nonce);
    assert(buf@ =~= enc_u64(owner) + enc_u64(nonce));
    let h = blake2_256(buf.as_slice());
    proof {
        lemma_digest(h);
    }
    h
}

impl Mandates {
    /// All tables are well formed.
    pub open spec fn wf(&self) -> bool {
        &&& self.seals.wf()
        &&& self.seal_chains.wf()
    }

    /// Whether `id` names a closed seal.
    pub open spec fn is_closed(&self, id: Hash32) -> bool {
        self.seals@.contains_key(id) && self.seals@[id].status == SealStatus::Closed
    }

    /// Every seal closed in `self` is still there, unchanged, in `later`.
    pub open spec fn closed_seals_kept(&self, later: &Self) -> bool {
        forall|id: Hash32| #[trigger] self.is_closed(id) ==> later.seals@.contains_key(id) && later.seals@[id] == self.seals@[id]
    }

    /// An empty pallet.
    pub fn new(config: MandatesConfig) -> (s: Self)
        ensures
            s.wf(),
            s.config == config,
            s.seals@ == Map::<Hash32, SealState>::empty(),
            s.seal_chains@ == Map::<Hash32, Option<Hash32>>::empty(),
            s.seal_nonce == 0,
            s.events@ == Seq::<MandatesEvent>::empty(),
    {
        Mandates { config, seals: Table::new(), seal_chains: Table::new(), seal_nonce: 0, events: Vec::new() }
    }

    /// The id of the next seal of `owner`; the nonce advances, wrapping around.
    fn next_seal_id(&mut self, owner: AccountId) -> (id: Hash32)
        requires
            old(self).wf(),
        ensures
            final(self).wf(),
            id == seal_id_of(owner, old(self).seal_nonce),
            final(self).seal_nonce == wrap_add(old(self).seal_nonce, 1),
            final(self).seals@ == old(self).seals@,
            final(self).seal_chains@ == old(self).seal_chains@,
            final(self).config == old(self).config,
            final(self).events@ == old(self).events@,
    {
        let nonce = self.seal_nonce;
        self.seal_nonce = if nonce == u64::MAX { 0 } else { nonce + 1 };
        seal_id(owner, nonce)
    }

    /// Open a seal under `constraints` (signed origin).
    pub fn create_seal(&mut self, origin: Origin, now: BlockNumber, constraints: SealConstraints) -> (r: Result<(), MandatesError>)
        requires
            old(self).wf(),
        ensures
            final(self).wf(),
            !(origin is Signed) ==> r == Err::<(), MandatesError>(MandatesError::BadOrigin) && *final(self) == *old(self),
            origin is Signed ==> {
                let owner = origin->Signed_0;
                let id = seal_id_of(owner, old(self).seal_nonce);
                &&& r is Ok
                &&& final(self).seals@ == old(self).seals@.insert(id, SealState {
                    owner, commitment: None, status: SealStatus::Open, constraints, created_at: now,
                    closed_at: None, next_seal: None })
                &&& final(self).seal_chains@ == old(self).seal_chains@.insert(id, None)
                &&& final(self).seal_nonce == wrap_add(old(self).seal_nonce, 1)
                &&& final(self).config == old(self).config
                &&& final(self).events@ == old(self).events@.push(MandatesEvent::SealCreated { seal_id: id, owner })
                &&& !old(self).is_closed(id) ==> old(self).closed_seals_kept(final(self))
            },
    {
        let owner = match origin {
            Origin::Signed(w) => w,
            _ => return Err(MandatesError::BadOrigin),
        };
        let id = self.next_seal_id(owner);
        self.seals.insert(id, SealState {
            owner,
            commitment: None,
            status: SealStatus::Open,
            constraints,
            created_at: now,
            closed_at: None,
            next_seal: None,
        });
        self.seal_chains.insert(id, None);
        self.events.push(MandatesEvent::SealCreated { seal_id: id, owner });
        Ok(())
    }

    /// The error `close_seal` reports, if any.
    pub open spec fn close_error(&self, origin: Origin, now: BlockNumber, seal_id: Hash32, next_seal: Option<Hash32>) -> Option<MandatesError> {
        if !(origin is Signed) {
            Some(MandatesError::BadOrigin)
        } else if !self.seals@.contains_key(seal_id) {
            Some(MandatesError::SealNotFound)
        } else if self.seals@[seal_id].owner != origin->Signed_0 {
            Some(MandatesError::NotSealOwner)
        } else if self.seals@[seal_id].status != SealStatus::Open {
            Some(MandatesError::SealAlreadyClosed)
        } else if self.seals@[seal_id].constraints.expires_at matches Some(e) && now > e {
            Some(MandatesError::SealExpired)
        } else if next_seal matches Some(ns) && !(self.seals@.contains_key(ns) && self.seals@[ns].status == SealStatus::Open) {
            Some(MandatesError::InvalidSealChain)
        } else {
            None
        }
    }

    /// Close an open seal (its owner only, before it expires) with a message commitment,
    /// linking it to `next_seal`, which must be an open seal.
    pub fn close_seal(&mut self, origin: Origin, now: BlockNumber, seal_id: Hash32, message_hash: Hash32, next_seal: Option<Hash32>) -> (r: Result<(), MandatesError>)
        requires
            old(self).wf(),
        ensures
            final(self).wf(),
            match old(self).close_error(origin, now, seal_id, next_seal) {
                Some(e) => r == Err::<(), MandatesError>(e) && *final(self) == *old(self),
                None => {
                    let s = old(self).seals@[seal_id];
                    &&& r is Ok
                    &&& final(self).seals@ == old(self).seals@.insert(seal_id, SealState {
                        commitment: Some(message_hash), status: SealStatus::Closed, closed_at: Some(now), next_seal, ..s })
                    &&& final(self).seal_chains@ == old(self).seal_chains@.insert(seal_id, next_seal)
                    &&& final(self).seal_nonce == old(self).seal_nonce
                    &&& final(self).config == old(self).config
                    &&& final(self).events@ == old(self).events@.push(MandatesEvent::SealClosed { seal_id, message_hash })
                },
            },
            old(self).closed_seals_kept(final(self)),
    {
        let caller = match origin {
            Origin::Signed(w) => w,
            _ => return Err(MandatesError::BadOrigin),
        };
        let s = match self.seals.get(&seal_id) {
            Some(s) => *s,
            None => return Err(MandatesError::SealNotFound),
        };
        if s.owner != caller {
            return Err(MandatesError::NotSealOwner);
        }
        if s.status != SealStatus::Open {
            return Err(MandatesError::SealAlreadyClosed);
        }
        if let Some(e) = s.constraints.expires_at {
            if now > e {
                return Err(MandatesError::SealExpired);
            }
        }
        if let Some(ns) = next_seal {
            let ok = match self.seals.get(&ns) {
                Some(n) => n.status == SealStatus::Open,
                None => false,
            };
            if !ok {
                return Err(MandatesError::InvalidSealChain);
            }
        }
        self.seals.insert(seal_id, SealState {
            commitment: Some(message_hash),
            status: SealStatus::Closed,
            closed_at: Some(now),
            next_seal,
            ..s
        });
        self.seal_chains.insert(seal_id, next_seal);
        self.events.push(MandatesEvent::SealClosed { seal_id, message_hash });
        Ok(())
    }

    /// The error `create_recurring_chain` reports, if any.
    pub open spec fn chain_error(&self, origin: Origin, count: u32) -> Option<MandatesError> {
        if !(origin is Signed) {
            Some(MandatesError::BadOrigin)
        } else if count < 1 {
            Some(MandatesError::InvalidSealChain)
        } else if count > self.config.max_chain_length {
            Some(MandatesError::ChainTooLong)
        } else {
            None
        }
    }

    /// Create `count` open seals (signed origin), each linked to the next, with ids from
    /// consecutive nonces.
    pub fn create_recurring_chain(&mut self, origin: Origin, now: BlockNumber, count: u32, constraints: SealConstraints) -> (r: Result<(), MandatesError>)
        requires
            old(self).wf(),
        ensures
            final(self).wf(),
            match old(self).chain_error(origin, count) {
                Some(e) => r == Err::<(), MandatesError>(e) && *final(self) == *old(self),
                None => {
                    let owner = origin->Signed_0;
                    let ids = chain_ids(owner, old(self).seal_nonce, count as nat);
                    &&& r is Ok
                    &&& final(self).seals@ == with_chain_seals(old(self).seals@, ids, count as nat, owner, constraints, now)
                    &&& final(self).seal_chains@ == with_chain_links(old(self).seal_chains@, ids, count as nat)
                    &&& final(self).seal_nonce == wrap_add(old(self).seal_nonce, count as int)
                    &&& final(self).config == old(self).config
                    &&& final(self).events@ == old(self).events@.push(MandatesEvent::RecurringChainCreated {
                        first_seal_id: ids[0], count })
                    &&& (forall|i: int| 0 <= i < count ==> !old(self).is_closed(#[trigger] ids[i]))
                        ==> old(self).closed_seals_kept(final(self))
                },
            },
    {
        let owner = match origin {
            Origin::Signed(w) => w,
            _ => return Err(MandatesError::BadOrigin),
        };
        if count < 1 {
            return Err(MandatesError::InvalidSealChain);
        }
        if count > self.config.max_chain_length {
            return Err(MandatesError::ChainTooLong);
        }
        let ghost n0 = self.seal_nonce;
        let ghost ids = chain_ids(owner, n0, count as nat);
        let n = count as usize;
        let mut seal_ids: Vec<Hash32> = Vec::new();
        let mut i: usize = 0;
        while i < n
            invariant
                self.wf(),
                n == count,
                0 <= i <= n,
                ids == chain_ids(owner, n0, count as nat),
                seal_ids@ == ids.take(i as int),
                self.seal_nonce == wrap_add(n0, i as int),
                self.seals@ == old(self).seals@,
                self.seal_chains@ == old(self).seal_chains@,
                self.config == old(self).config,
                self.events@ == old(self).events@,
            decreases n - i,
        {
            let id = self.next_seal_id(owner);
            proof {
                assert(wrap_add(wrap_add(n0, i as int), 1) == wrap_add(n0, i + 1));
                assert(ids.take(i + 1) =~= ids.take(i as int).push(id));
            }
            seal_ids.push(id);
            i = i + 1;
        }
        assert(seal_ids@ =~= ids);
        let first_seal_id = seal_ids[0];
        let mut k: usize = 0;
        while k < n
            invariant
                self.wf(),
                n == count,
                n >= 1,
                0 <= k <= n,
                seal_ids@ == ids,
                ids.len() == n,
                self.seals@ == with_chain_seals(old(self).seals@, ids, k as nat, owner, constraints, now),
                self.seal_chains@ == with_chain_links(old(self).seal_chains@, ids, k as nat),
                self.seal_nonce == wrap_add(n0, count as int),
                self.config == old(self).config,
                self.events@ == old(self).events@,
            decreases n - k,
        {
            let next = if k + 1 < n { Some(seal_ids[k + 1]) } else { None };
            self.seals.insert(seal_ids[k], SealState {
                owner,
                commitment: None,
                status: SealStatus::Open,
                constraints,
                created_at: now,
                closed_at: None,
                next_seal: next,
            });
            self.seal_chains.insert(seal_ids[k], next);
            proof {
                assert(chain_state(ids, k as int, owner, constraints, now).next_seal == next);
            }
            k = k + 1;
        }
        self.events.push(MandatesEvent::RecurringChainCreated { first_seal_id, count });
        proof {
            if forall|i: int| 0 <= i < count ==> !old(self).is_closed(#[trigger] ids[i]) {
                assert forall|id: Hash32| #[trigger] old(self).is_closed(id) implies
                    self.seals@.contains_key(id) && self.seals@[id] == old(self).seals@[id] by {
                    assert forall|i: int| 0 <= i < count as nat implies #[trigger] ids[i] != id by {
                        assert(!old(self).is_closed(ids[i]));
                    }
                    lemma_chain_keeps(old(self).seals@, ids, count as nat, owner, constraints, now, id);
                }
            }
        }
        Ok(())
    }
}

/// A seal closes once: after `close_seal` succeeds, closing it again is refused with
/// `SealAlreadyClosed` for its owner.
pub proof fn lemma_close_once(s: Mandates, origin: Origin, now: BlockNumber, seal_id: Hash32, next_seal: Option<Hash32>)
    requires
        s.seals@.contains_key(seal_id),
        s.seals@[seal_id].status == SealStatus::Closed,
        origin == Origin::Signed(s.seals@[seal_id].owner),
    ensures
        s.close_error(origin, now, seal_id, next_seal) == Some(MandatesError::SealAlreadyClosed),
{
}

} // verus!
