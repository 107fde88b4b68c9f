//! Delegated spending: a principal grants an agent a spending policy (limits and a
//! validity window), and later updates, pauses, resumes or revokes it.

use vstd::prelude::*;
use crate::common::{AccountId, BlockNumber, Hash32, Origin};
use crate::crypto::{blake2_256, blake2_256_of, digest, lemma_digest};
use crate::scale::{enc_u64, push_u64};
use crate::table::Table;

verus! {

/// Status of a delegation.
#[derive(Clone, Copy, Debug, PartialEq, Eq, Structural)]
pub enum DelegationStatus {
    Active,
    Paused,
    Expired,
}

impl Default for DelegationStatus {
    fn default() -> (r: Self)
        ensures
            r == DelegationStatus::Active,
    {
        DelegationStatus::Active
    }
}

/// What an agent may spend on behalf of its principal.
#[derive(Clone, Copy, Debug, PartialEq, Eq, Structural)]
pub struct SpendingPolicy {
    pub principal: AccountId,
    pub agent_id: AccountId,
    pub max_per_tx: u128,
    pub max_daily: u128,
    pub max_monthly: u128,
    pub human_approval_threshold: u128,
    pub valid_from: BlockNumber,
    pub valid_to: BlockNumber,
    pub status: DelegationStatus,
    pub created_at: BlockNumber,
}

/// Events of the delegation pallet.
#[derive(Clone, Copy, Debug)]
pub enum DelegationEvent {
    DelegationCreated { delegation_id: Hash32, principal: AccountId, agent_id: AccountId },
    PolicyUpdated { delegation_id: Hash32 },
    DelegationRevoked { delegation_id: Hash32 },
    AgentPaused { delegation_id: Hash32, agent_id: AccountId },
    AgentResumed { delegation_id: Hash32, agent_id: AccountId },
}

/// Errors of the delegation pallet.
#[derive(Clone, Copy, Debug, PartialEq, Eq, Structural)]
pub enum DelegationError {
    BadOrigin,
    DelegationNotFound,
    NotPrincipal,
    DelegationInactive,
    TooManyDelegations,
    InvalidValidityRange,
    AgentNotPaused,
    AgentAlreadyPaused,
}

/// Constants of the delegation pallet.
#[derive(Clone, Copy, Debug)]
pub struct DelegationConfig {
    /// Most delegations an agent holds.
    pub max_delegations_per_agent: u32,
}

/// The delegation storage.
pub struct Delegation {
    pub config: DelegationConfig,
    /// Policies by delegation id.
    pub delegations: Table<Hash32, SpendingPolicy>,
    /// Delegation ids by agent, oldest first (missing means none).
    pub agent_delegations: Table<AccountId, Vec<Hash32>>,
    /// Deposited events, oldest first.
    pub events: Vec<DelegationEvent>,
}

/// The id of a delegation: the BLAKE2-256 digest of the encoded triple
/// `(principal, agent, block)`.
pub open spec fn delegation_id_of(principal: AccountId, agent_id: AccountId, now: BlockNumber) -> Hash32 {
    digest(blake2_256_of(enc_u64(principal) + enc_u64(agent_id) + enc_u64(now)))
}

/// Compute the id of a delegation.
pub fn delegation_id(principal: AccountId, agent_id: AccountId, now: BlockNumber) -> (id: Hash32)
    ensures
        id == delegation_id_of(principal, agent_id, now),
{
    let mut buf: Vec<u8> = Vec::new();
    push_u64(&mut buf, principal);
    push_u64(&mut buf, agent_id);
    push_u64(&mut buf, now);
    assert(buf@ =~= enc_u64(principal) + enc_u64(agent_id) + enc_u64(now));
    let h = blake2_256(buf.as_slice());
    proof {
        lemma_digest(h);
    }
    h
}

impl Delegation {
    /// All tables are well formed.
    pub open spec fn wf(&self) -> bool {
        &&& self.delegations.wf()
        &&& self.agent_delegations.wf()
    }

    /// The delegation ids of an agent.
    pub open spec fn ids_of(&self, agent: AccountId) -> Seq<Hash32> {
        if self.agent_delegations@.contains_key(agent) { self.agent_delegations@[agent]@ } else { Seq::empty() }
    }

    /// The id lists are `old`'s with that of `agent` replaced by `s`.
    pub open spec fn ids_updated(&self, old: &Self, agent: AccountId, s: Seq<Hash32>) -> bool {
        forall|a: AccountId| #[trigger] self.ids_of(a) == if a == agent { s } else { old.ids_of(a) }
    }

    /// An empty pallet.
    pub fn new(config: DelegationConfig) -> (s: Self)
        ensures
            s.wf(),
            s.config == config,
            s.delegations@ == Map::<Hash32, SpendingPolicy>::empty(),
            s.agent_delegations@ == Map::<AccountId, Vec<Hash32>>::empty(),
            s.events@ == Seq::<DelegationEvent>::empty(),
    {
        Delegation { config, delegations: Table::new(), agent_delegations: Table::new(), events: Vec::new() }
    }

    /// The error `create_delegation` reports, if any.
    pub open spec fn create_error(&self, origin: Origin, agent_id: AccountId, valid_from: BlockNumber, valid_to: BlockNumber) -> Option<DelegationError> {
        if !(origin is Signed) {
            Some(DelegationError::BadOrigin)
        } else if valid_from >= valid_to {
            Some(DelegationError::InvalidValidityRange)
        } else if self.ids_of(agent_id).len() >= self.config.max_delegations_per_agent {
            Some(DelegationError::TooManyDelegations)
        } else {
            None
        }
    }

    /// Grant `agent_id` an active spending policy on behalf of the caller, valid from
    /// `valid_from` to `valid_to`; the agent may hold at most `max_delegations_per_agent`.
    pub fn create_delegation(&mut self, origin: Origin, now: BlockNumber, agent_id: AccountId, max_per_tx: u128, max_daily: u128, max_monthly: u128, human_approval_threshold: u128, valid_from: BlockNumber, valid_to: BlockNumber) -> (r: Result<(), DelegationError>)
        requires
            old(self).wf(),
        ensures
            final(self).wf(),
            match old(self).create_error(origin, agent_id, valid_from, valid_to) {
                Some(e) => r == Err::<(), DelegationError>(e) && *final(self) == *old(self),
                None => {
                    let principal = origin->Signed_0;
                    let id = delegation_id_of(principal, agent_id, now);
                    &&& r is Ok
                    &&& final(self).delegations@ == old(self).delegations@.insert(id, SpendingPolicy {
                        principal, agent_id, max_per_tx, max_daily, max_monthly, human_approval_threshold,
                        valid_from, valid_to, status: DelegationStatus::Active, created_at: now })
                    &&& final(self).ids_updated(old(self), agent_id, old(self).ids_of(agent_id).push(id))
                    &&& final(self).config == old(self).config
                    &&& final(self).events@ == old(self).events@.push(DelegationEvent::DelegationCreated {
                        delegation_id: id, principal, agent_id })
                },
            },
    {
        let principal = match origin {
            Origin::Signed(w) => w,
            _ => return Err(DelegationError::BadOrigin),
        };
        if valid_from >= valid_to {
            return Err(DelegationError::InvalidValidityRange);
        }
        let count = match self.agent_delegations.get(&agent_id) {
            Some(v) => v.len(),
            None => 0,
        };
        if count >= self.config.max_delegations_per_agent as usize {
            return Err(DelegationError::TooManyDelegations);
        }
        let id = delegation_id(principal, agent_id, now);
        self.delegations.insert(id, SpendingPolicy {
            principal,
            agent_id,
            max_per_tx,
            max_daily,
            max_monthly,
            human_approval_threshold,
            valid_from,
            valid_to,
            status: DelegationStatus::Active,
            created_at: now,
        });
        let mut ids = match self.agent_delegations.remove(&agent_id) {
            Some(v) => v,
            None => Vec::new(),
        };
        assert(ids@ == old(self).ids_of(agent_id));
        ids.push(id);
        self.agent_delegations.insert(agent_id, ids);
        self.events.push(DelegationEvent::DelegationCreated { delegation_id: id, principal, agent_id });
        Ok(())
    }

    /// The policy of a delegation the caller is the principal of, or the error.
    pub open spec fn owned_error(&self, origin: Origin, delegation_id: Hash32) -> Option<DelegationError> {
        if !(origin is Signed) {
            Some(DelegationError::BadOrigin)
        } else if !self.delegations@.contains_key(delegation_id) {
            Some(DelegationError::DelegationNotFound)
        } else if origin->Signed_0 != self.delegations@[delegation_id].principal {
            Some(DelegationError::NotPrincipal)
        } else {
            None
        }
    }

    /// The error `update_policy` reports, if any.
    pub open spec fn update_error(&self, origin: Origin, delegation_id: Hash32) -> Option<DelegationError> {
        if self.owned_error(origin, delegation_id) is Some {
            self.owned_error(origin, delegation_id)
        } else if self.delegations@[delegation_id].status != DelegationStatus::Active {
            Some(DelegationError::DelegationInactive)
        } else {
            None
        }
    }

    /// Change the limits of an active delegation (its principal only).
    pub fn update_policy(&mut self, origin: Origin, delegation_id: Hash32, max_per_tx: u128, max_daily: u128, max_monthly: u128, human_approval_threshold: u128) -> (r: Result<(), DelegationError>)
        requires
            old(self).wf(),
        ensures
            final(self).wf(),
            match old(self).update_error(origin, delegation_id) {
                Some(e) => r == Err::<(), DelegationError>(e) && *final(self) == *old(self),
                None => {
                    let p = old(self).delegations@[delegation_id];
                    &&& r is Ok
                    &&& final(self).delegations@ == old(self).delegations@.insert(delegation_id, SpendingPolicy {
                        max_per_tx, max_daily, max_monthly, human_approval_threshold, ..p })
                    &&& final(self).agent_delegations@ == old(self).agent_delegations@
                    &&& final(self).config == old(self).config
                    &&& final(self).events@ == old(self).events@.push(DelegationEvent::PolicyUpdated { delegation_id })
                },
            },
    {
        let who = match origin {
            Origin::Signed(w) => w,
            _ => return Err(DelegationError::BadOrigin),
        };
        let p = match self.delegations.get(&delegation_id) {
            Some(p) => *p,
            None => return Err(DelegationError::DelegationNotFound),
        };
        if who != p.principal {
            return Err(DelegationError::NotPrincipal);
        }
        if p.status != DelegationStatus::Active {
            return Err(DelegationError::DelegationInactive);
        }
        self.delegations.insert(delegation_id, SpendingPolicy { max_per_tx, max_daily, max_monthly, human_approval_threshold, ..p });
        self.events.push(DelegationEvent::PolicyUpdated { delegation_id });
        Ok(())
    }

    /// The error `revoke_delegation` reports, if any.
    pub open spec fn revoke_error(&self, origin: Origin, delegation_id: Hash32) -> Option<DelegationError> {
        if self.owned_error(origin, delegation_id) is Some {
            self.owned_error(origin, delegation_id)
        } else if self.delegations@[delegation_id].status == DelegationStatus::Expired {
            Some(DelegationError::DelegationInactive)
        } else {
            None
        }
    }

    /// Expire a delegation that is not expired yet (its principal only).
    pub fn revoke_delegation(&mut self, origin: Origin, delegation_id: Hash32) -> (r: Result<(), DelegationError>)
        requires
            old(self).wf(),
        ensures
            final(self).wf(),
            match old(self).revoke_error(origin, delegation_id) {
                Some(e) => r == Err::<(), DelegationError>(e) && *final(self) == *old(self),
                None => {
                    let p = old(self).delegations@[delegation_id];
                    &&& r is Ok
                    &&& final(self).delegations@ == old(self).delegations@.insert(delegation_id, SpendingPolicy {
                        status: DelegationStatus::Expired, ..p })
                    &&& final(self).agent_delegations@ == old(self).agent_delegations@
                    &&& final(self).config == old(self).config
                    &&& final(self).events@ == old(self).events@.push(DelegationEvent::DelegationRevoked { delegation_id })
                },
            },
    {
        let who = match origin {
            Origin::Signed(w) => w,
            _ => return Err(DelegationError::BadOrigin),
        };
        let p = match self.delegations.get(&delegation_id) {
            Some(p) => *p,
            None => return Err(DelegationError::DelegationNotFound),
        };
        if who != p.principal {
            return Err(DelegationError::NotPrincipal);
        }
        if p.status == DelegationStatus::Expired {
            return Err(DelegationError::DelegationInactive);
        }
        self.delegations.insert(delegation_id, SpendingPolicy { status: DelegationStatus::Expired, ..p });
        self.events.push(DelegationEvent::DelegationRevoked { delegation_id });
        Ok(())
    }

    /// The error `pause_agent` reports, if any.
    pub open spec fn pause_error(&self, origin: Origin, delegation_id: Hash32) -> Option<DelegationError> {
        if self.owned_error(origin, delegation_id) is Some {
            self.owned_error(origin, delegation_id)
        } else if self.delegations@[delegation_id].status != DelegationStatus::Active {
            Some(DelegationError::AgentAlreadyPaused)
        } else {
            None
        }
    }

    /// Pause an active delegation (its principal only).
    pub fn pause_agent(&mut self, origin: Origin, delegation_id: Hash32) -> (r: Result<(), DelegationError>)
        requires
            old(self).wf(),
        ensures
            final(self).wf(),
            match old(self).pause_error(origin, delegation_id) {
                Some(e) => r == Err::<(), DelegationError>(e) && *final(self) == *old(self),
                None => {
                    let p = old(self).delegations@[delegation_id];
                    &&& r is Ok
                    &&& final(self).delegations@ == old(self).delegations@.insert(delegation_id, SpendingPolicy {
                        status: DelegationStatus::Paused, ..p })
                    &&& final(self).agent_delegations@ == old(self).agent_delegations@
                    &&& final(self).config == old(self).config
                    &&& final(self).events@ == old(self).events@.push(DelegationEvent::AgentPaused {
                        delegation_id, agent_id: p.agent_id })
                },
            },
    {
        let who = match origin {
            Origin::Signed(w) => w,
            _ => return Err(DelegationError::BadOrigin),
        };
        let p = match self.delegations.get(&delegation_id) {
            Some(p) => *p,
            None => return Err(DelegationError::DelegationNotFound),
        };
        if who != p.principal {
            return Err(DelegationError::NotPrincipal);
        }
        if p.status != DelegationStatus::Active {
            return Err(DelegationError::AgentAlreadyPaused);
        }
        self.delegations.insert(delegation_id, SpendingPolicy { status: DelegationStatus::Paused, ..p });
        self.events.push(DelegationEvent::AgentPaused { delegation_id, agent_id: p.agent_id });
        Ok(())
    }

    /// The error `resume_agent` reports, if any.
    pub open spec fn resume_error(&self, origin: Origin, delegation_id: Hash32) -> Option<DelegationError> {
        if self.owned_error(origin, delegation_id) is Some {
            self.owned_error(origin, delegation_id)
        } else if self.delegations@[delegation_id].status != DelegationStatus::Paused {
            Some(DelegationError::AgentNotPaused)
        } else {
            None
        }
    }

    /// Resume a paused delegation (its principal only).
    pub fn resume_agent(&mut self, origin: Origin, delegation_id: Hash32) -> (r: Result<(), DelegationError>)
        requires
            old(self).wf(),
        ensures
            final(self).wf(),
            match old(self).resume_error(origin, delegation_id) {
                Some(e) => r == Err::<(), DelegationError>(e) && *final(self) == *old(self),
                None => {
                    let p = old(self).delegations@[delegation_id];
                    &&& r is Ok
                    &&& final(self).delegations@ == old(self).delegations@.insert(delegation_id, SpendingPolicy {
                        status: DelegationStatus::Active, ..p })
                    &&& final(self).agent_delegations@ == old(self).agent_delegations@
                    &&& final(self).config == old(self).config
                    &&& final(self).events@ == old(self).events@.push(DelegationEvent::AgentResumed {
                        delegation_id, agent_id: p.agent_id })
                },
            },
    {
        let who = match origin {
            Origin::Signed(w) => w,
            _ => return Err(DelegationError::BadOrigin),
        };
        let p = match self.delegations.get(&delegation_id) {
            Some(p) => *p,
            None => return Err(DelegationError::DelegationNotFound),
        };
        if who != p.principal {
            return Err(DelegationError::NotPrincipal);
        }
        if p.status != DelegationStatus::Paused {
            return Err(DelegationError::AgentNotPaused);
        }
        self.delegations.insert(delegation_id, SpendingPolicy { status: DelegationStatus::Active, ..p });
        self.events.push(DelegationEvent::AgentResumed { delegation_id, agent_id: p.agent_id });
        Ok(())
    }
}

/// Pausing and resuming undo each other: a delegation paused and then resumed has its
/// policy back exactly as it was, and revoking is final (a revoked delegation cannot be
/// revoked, updated, paused or resumed by its principal).
pub proof fn lemma_pause_resume_and_revoke(s: Delegation, p: SpendingPolicy, origin: Origin, delegation_id: Hash32)
    requires
        p.status == DelegationStatus::Active,
    ensures
        (SpendingPolicy { status: DelegationStatus::Active, ..SpendingPolicy { status: DelegationStatus::Paused, ..p } }) == p,
        s.delegations@.contains_key(delegation_id) && s.delegations@[delegation_id].status == DelegationStatus::Expired
            && origin == Origin::Signed(s.delegations@[delegation_id].principal) ==> {
            &&& s.revoke_error(origin, delegation_id) == Some(DelegationError::DelegationInactive)
            &&& s.update_error(origin, delegation_id) == Some(DelegationError::DelegationInactive)
            &&& s.pause_error(origin, delegation_id) == Some(DelegationError::AgentAlreadyPaused)
            &&& s.resume_error(origin, delegation_id) == Some(DelegationError::AgentNotPaused)
        },
{
}

/// Every delegation that has not expired, paused ones included, can be revoked by its
/// principal: the revocation is not refused, and it leaves the delegation `Expired`.
pub proof fn lemma_principal_revokes_unexpired(s: Delegation, delegation_id: Hash32)
    requires
        s.delegations@.contains_key(delegation_id),
        s.delegations@[delegation_id].status != DelegationStatus::Expired,
    ensures
        s.revoke_error(Origin::Signed(s.delegations@[delegation_id].principal), delegation_id) is None,
{
}

} // verus!
