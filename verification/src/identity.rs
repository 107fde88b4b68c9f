//! Identities of AI agents: each account registers one agent, which gets a DID derived
//! from the account; issuers attach credential commitments to agents, and owners revoke
//! credentials and change the agent's status.

use vstd::prelude::*;
use crate::common::{AccountId, BlockNumber, Hash32, Origin, ensure_signed};
use crate::crypto::{blake2_256, blake2_256_of, digest, lemma_digest};
use crate::scale::{enc_u64, push_u64};
use crate::table::Table;

verus! {

/// Length of a DID: `did:plim:` and 32 hex digits.
pub const DID_LEN: usize = 41;

/// A decentralised identifier of an agent.
pub type Did = [u8; 41];

/// Status of an agent.
#[derive(Clone, Copy, Debug, PartialEq, Eq, Structural)]
pub enum AgentStatus {
    Active,
    Paused,
    Revoked,
}

impl Default for AgentStatus {
    fn default() -> (r: Self)
        ensures
            r == AgentStatus::Active,
    {
        AgentStatus::Active
    }
}

/// The profile of a registered agent.
#[derive(Debug)]
pub struct AgentProfile {
    pub owner: AccountId,
    pub did: Did,
    pub name: Vec<u8>,
    pub model_type: Vec<u8>,
    pub capability_commitment: Hash32,
    pub reputation_score: u32,
    pub status: AgentStatus,
    pub created_at: BlockNumber,
}

/// The document stored for a DID.
#[derive(Clone, Copy, Debug, PartialEq, Eq, Structural)]
pub struct DIDDocument {
    pub controller: AccountId,
    pub created_at: BlockNumber,
}

/// Events of the identity pallet.
#[derive(Clone, Copy, Debug)]
pub enum IdentityEvent {
    AgentRegistered { who: AccountId, did: Did },
    CredentialIssued { issuer: AccountId, agent_id: AccountId, commitment: Hash32 },
    ZKProofVerified { verifier: AccountId, agent_id: AccountId },
    AgentStatusChanged { who: AccountId, new_status: AgentStatus },
    CredentialRevoked { who: AccountId, agent_id: AccountId, credential_index: u32 },
}

/// Errors of the identity pallet.
#[derive(Clone, Copy, Debug, PartialEq, Eq, Structural)]
pub enum IdentityError {
    BadOrigin,
    AgentAlreadyRegistered,
    AgentNotFound,
    NotAgentOwner,
    InvalidCredential,
    AgentRevoked,
}

/// Constants of the identity pallet.
#[derive(Clone, Copy, Debug)]
pub struct IdentityConfig {
    pub max_did_length: u32,
    pub max_name_length: u32,
    pub max_model_type_length: u32,
    pub max_credentials: u32,
    pub max_proof_size: u32,
}

/// The identity storage.
pub struct Identity {
    pub config: IdentityConfig,
    /// Agents by owner.
    pub agent_registry: Table<AccountId, AgentProfile>,
    /// Credential commitments by agent (missing means none).
    pub credential_commitments: Table<AccountId, Vec<Hash32>>,
    /// DID documents by DID.
    pub did_documents: Table<Did, DIDDocument>,
    /// Deposited events, oldest first.
    pub events: Vec<IdentityEvent>,
}

/// The lowercase hex digit of a nibble (digits past `f` continue the alphabet).
pub open spec fn hex_digit(n: u8) -> u8 {
    if n <= 9 {
        (48 + n) as u8
    } else {
        (87 + n) as u8
    }
}

/// The bytes of `did:plim:`.
pub open spec fn did_prefix() -> Seq<u8> {
    seq![100u8, 105, 100, 58, 112, 108, 105, 109, 58]
}

/// The `i`-th hex digit of the DID of a digest: the high nibble of byte `i / 2` for even
/// `i`, its low nibble for odd `i`.
pub open spec fn did_digit(h: Seq<u8>, i: int) -> u8 {
    if i % 2 == 0 {
        hex_digit(h[i / 2] / 16)
    } else {
        hex_digit(h[i / 2] % 16)
    }
}

/// The DID of a digest: `did:plim:` and the lowercase hex of its first 16 bytes.
pub open spec fn did_bytes(h: Seq<u8>) -> Seq<u8> {
    did_prefix() + Seq::new(32, |i: int| did_digit(h, i))
}

/// The DID of an account: from the BLAKE2-256 digest of its encoding.
pub open spec fn did_of(who: AccountId) -> Seq<u8> {
    did_bytes(blake2_256_of(enc_u64(who)))
}

/// The commitment to an agent's capabilities: the BLAKE2-256 digest of their bytes.
pub open spec fn capability_commitment_of(capabilities: Seq<u8>) -> Hash32 {
    digest(blake2_256_of(capabilities))
}

/// The ASCII hex character of a nibble.
pub fn nibble_to_hex(n: u8) -> (c: u8)
    requires
        n <= 168,
    ensures
        c == hex_digit(n),
{
    if n <= 9 {
        48 + n
    } else {
        97 + (n - 10)
    }
}

/// The DID of an account.
pub fn did_for(who: AccountId) -> (did: Did)
    ensures
        did@ == did_of(who),
{
    let mut buf: Vec<u8> = Vec::new();
    push_u64(&mut buf, who);
    let h = blake2_256(buf.as_slice());
    let ghost hs = blake2_256_of(enc_u64(who));
    assert(h@ == hs);
    let mut did: Did = [0u8; 41];
    did[0] = 100;
    did[1] = 105;
    did[2] = 100;
    did[3] = 58;
    did[4] = 112;
    did[5] = 108;
    did[6] = 105;
    did[7] = 109;
    did[8] = 58;
    let mut j: usize = 0;
    while j < 16
        invariant
            0 <= j <= 16,
            did@.len() == 41,
            h@ == hs,
            h@.len() == 32,
            did@.subrange(0, 9) == did_prefix(),
            forall|k: int| 9 <= k < 9 + 2 * j ==> #[trigger] did@[k] == did_digit(hs, k - 9),
        decreases 16 - j,
    {
        let b = h[j];
        let hi = nibble_to_hex(b / 16);
        let lo = nibble_to_hex(b % 16);
        let ghost before = did@;
        did[9 + 2 * j] = hi;
        did[10 + 2 * j] = lo;
        proof {
            assert(did@.subrange(0, 9) =~= before.subrange(0, 9));
            assert forall|k: int| 9 <= k < 9 + 2 * (j + 1) implies #[trigger] did@[k] == did_digit(hs, k - 9) by {
                if k < 9 + 2 * j {
                    assert(did@[k] == before[k]);
                } else {
                    assert((k - 9) / 2 == j);
                }
            }
        }
        j = j + 1;
    }
    assert(did@ =~= did_of(who)) by {
        assert forall|i: int| 9 <= i < 41 implies did@[i] == did_of(who)[i] by {
            assert(did_of(who)[i] == Seq::new(32, |k: int| did_digit(hs, k))[i - 9]);
        }
        assert forall|i: int| 0 <= i < 9 implies did@[i] == did_of(who)[i] by {
            assert(did@.subrange(0, 9)[i] == did@[i]);
        }
    }
    did
}

/// The commitment to an agent's capabilities.
pub fn capability_commitment(capabilities: &[u8]) -> (h: Hash32)
    ensures
        h == capability_commitment_of(capabilities@),
{
    let h = blake2_256(capabilities);
    proof {
        lemma_digest(h);
    }
    h
}

impl Identity {
    /// All tables are well formed.
    pub open spec fn wf(&self) -> bool {
        &&& self.agent_registry.wf()
        &&& self.credential_commitments.wf()
        &&& self.did_documents.wf()
    }

    /// The credential commitments of an agent.
    pub open spec fn creds_of(&self, agent: AccountId) -> Seq<Hash32> {
        if self.credential_commitments@.contains_key(agent) {
            self.credential_commitments@[agent]@
        } else {
            Seq::empty()
        }
    }

    /// The credential lists are `old`'s with that of `agent` replaced by `s`.
    pub open spec fn creds_updated(&self, old: &Self, agent: AccountId, s: Seq<Hash32>) -> bool {
        forall|a: AccountId| #[trigger] self.creds_of(a) == if a == agent { s } else { old.creds_of(a) }
    }

    /// An empty pallet.
    pub fn new(config: IdentityConfig) -> (s: Self)
        ensures
            s.wf(),
            s.config == config,
            s.agent_registry@ == Map::<AccountId, AgentProfile>::empty(),
            s.credential_commitments@ == Map::<AccountId, Vec<Hash32>>::empty(),
            s.did_documents@ == Map::<Did, DIDDocument>::empty(),
            s.events@ == Seq::<IdentityEvent>::empty(),
    {
        Identity {
            config,
            agent_registry: Table::new(),
            credential_commitments: Table::new(),
            did_documents: Table::new(),
            events: Vec::new(),
        }
    }

    /// The error `register_agent` reports, if any.
    pub open spec fn register_error(&self, origin: Origin) -> Option<IdentityError> {
        if !(origin is Signed) {
            Some(IdentityError::BadOrigin)
        } else if self.agent_registry@.contains_key(origin->Signed_0) {
            Some(IdentityError::AgentAlreadyRegistered)
        } else if DID_LEN > self.config.max_did_length {
            Some(IdentityError::InvalidCredential)
        } else {
            None
        }
    }

    /// `new` is `old` with the agent of `who` registered under `did`.
    pub open spec fn registered(old: &Self, new: &Self, who: AccountId, did: Did, name: Seq<u8>, model_type: Seq<u8>, commitment: Hash32, now: BlockNumber) -> bool {
        let p = new.agent_registry@[who];
        &&& new.agent_registry@.contains_key(who)
        &&& new.agent_registry@ == old.agent_registry@.insert(who, p)
        &&& p.owner == who && p.did == did && p.name@ == name && p.model_type@ == model_type
        &&& p.capability_commitment == commitment && p.reputation_score == 0
        &&& p.status == AgentStatus::Active && p.created_at == now
        &&& new.did_documents@ == old.did_documents@.insert(did, DIDDocument { controller: who, created_at: now })
        &&& new.credential_commitments@ == old.credential_commitments@
        &&& new.config == old.config
        &&& new.events@ == old.events@.push(IdentityEvent::AgentRegistered { who, did })
    }

    /// Store the profile and DID document of a new agent.
    pub fn record_agent(&mut self, who: AccountId, did: Did, name: Vec<u8>, model_type: Vec<u8>, capability_commitment: Hash32, now: BlockNumber)
        requires
            old(self).wf(),
        ensures
            final(self).wf(),
            Self::registered(old(self), final(self), who, did, name@, model_type@, capability_commitment, now),
    {
        let ghost n = name@;
        let ghost m = model_type@;
        self.agent_registry.insert(who, AgentProfile {
            owner: who,
            did,
            name,
            model_type,
            capability_commitment,
            reputation_score: 0,
            status: AgentStatus::Active,
            created_at: now,
        });
        self.did_documents.insert(did, DIDDocument { controller: who, created_at: now });
        self.events.push(IdentityEvent::AgentRegistered { who, did });
    }

    /// Register the caller's agent: its DID is derived from the caller's account and its
    /// capabilities are stored as a commitment.
    pub fn register_agent(&mut self, origin: Origin, now: BlockNumber, name: Vec<u8>, model_type: Vec<u8>, capabilities: Vec<u8>) -> (r: Result<(), IdentityError>)
        requires
            old(self).wf(),
            name@.len() <= old(self).config.max_name_length,
            model_type@.len() <= old(self).config.max_model_type_length,
            capabilities@.len() <= old(self).config.max_proof_size,
        ensures
            final(self).wf(),
            match old(self).register_error(origin) {
                Some(e) => r == Err::<(), IdentityError>(e) && *final(self) == *old(self),
                None => r is Ok && exists|did: Did| did@ == did_of(origin->Signed_0)
                    && #[trigger] Self::registered(old(self), final(self), origin->Signed_0, did, name@, model_type@,
                        capability_commitment_of(capabilities@), now),
            },
    {
        let who = match ensure_signed(&origin) {
            Ok(w) => w,
            Err(_) => return Err(IdentityError::BadOrigin),
        };
        if self.agent_registry.contains_key(&who) {
            return Err(IdentityError::AgentAlreadyRegistered);
        }
        if DID_LEN > self.config.max_did_length as usize {
            return Err(IdentityError::InvalidCredential);
        }
        let did = did_for(who);
        let commitment = capability_commitment(capabilities.as_slice());
        self.record_agent(who, did, name, model_type, commitment, now);
        Ok(())
    }

    /// The error `issue_credential` reports, if any.
    pub open spec fn issue_error(&self, origin: Origin, agent_id: AccountId) -> Option<IdentityError> {
        if !(origin is Signed) {
            Some(IdentityError::BadOrigin)
        } else if !self.agent_registry@.contains_key(agent_id) {
            Some(IdentityError::AgentNotFound)
        } else if self.agent_registry@[agent_id].status == AgentStatus::Revoked {
            Some(IdentityError::AgentRevoked)
        } else if self.creds_of(agent_id).len() >= self.config.max_credentials {
            Some(IdentityError::InvalidCredential)
        } else {
            None
        }
    }

    /// Attach a credential commitment to an agent that is not revoked (any signed
    /// issuer), as long as the agent holds fewer than `max_credentials`.
    pub fn issue_credential(&mut self, origin: Origin, agent_id: AccountId, credential_type: Vec<u8>, commitment: Hash32) -> (r: Result<(), IdentityError>)
        requires
            old(self).wf(),
            credential_type@.len() <= old(self).config.max_name_length,
        ensures
            final(self).wf(),
            match old(self).issue_error(origin, agent_id) {
                Some(e) => r == Err::<(), IdentityError>(e) && *final(self) == *old(self),
                None => {
                    &&& r is Ok
                    &&& final(self).creds_updated(old(self), agent_id, old(self).creds_of(agent_id).push(commitment))
                    &&& final(self).agent_registry@ == old(self).agent_registry@
                    &&& final(self).did_documents@ == old(self).did_documents@
                    &&& final(self).config == old(self).config
                    &&& final(self).events@ == old(self).events@.push(IdentityEvent::CredentialIssued {
                        issuer: origin->Signed_0, agent_id, commitment })
                },
            },
    {
        let who = match ensure_signed(&origin) {
            Ok(w) => w,
            Err(_) => return Err(IdentityError::BadOrigin),
        };
        let status = match self.agent_registry.get(&agent_id) {
            Some(a) => a.status,
            None => return Err(IdentityError::AgentNotFound),
        };
        if status == AgentStatus::Revoked {
            return Err(IdentityError::AgentRevoked);
        }
        let count = match self.credential_commitments.get(&agent_id) {
            Some(v) => v.len(),
            None => 0,
        };
        if count >= self.config.max_credentials as usize {
            return Err(IdentityError::InvalidCredential);
        }
        let mut creds = match self.credential_commitments.remove(&agent_id) {
            Some(v) => v,
            None => Vec::new(),
        };
        let ghost before = creds@;
        assert(before == old(self).creds_of(agent_id));
        creds.push(commitment);
        self.credential_commitments.insert(agent_id, creds);
        self.events.push(IdentityEvent::CredentialIssued { issuer: who, agent_id, commitment });
        Ok(())
    }

    /// The error `verify_zk_proof` reports, if any.
    pub open spec fn verify_error(&self, origin: Origin, agent_id: AccountId) -> Option<IdentityError> {
        if !(origin is Signed) {
            Some(IdentityError::BadOrigin)
        } else if !self.agent_registry@.contains_key(agent_id) {
            Some(IdentityError::AgentNotFound)
        } else if self.agent_registry@[agent_id].status == AgentStatus::Revoked {
            Some(IdentityError::AgentRevoked)
        } else {
            None
        }
    }

    /// Accept a proof about an agent that is not revoked; the proof is not checked, the
    /// call only announces it.
    pub fn verify_zk_proof(&mut self, origin: Origin, agent_id: AccountId, proof_bytes: Vec<u8>) -> (r: Result<(), IdentityError>)
        requires
            old(self).wf(),
            proof_bytes@.len() <= old(self).config.max_proof_size,
        ensures
            final(self).wf(),
            match old(self).verify_error(origin, agent_id) {
                Some(e) => r == Err::<(), IdentityError>(e) && *final(self) == *old(self),
                None => {
                    &&& r is Ok
                    &&& final(self).agent_registry@ == old(self).agent_registry@
                    &&& final(self).credential_commitments@ == old(self).credential_commitments@
                    &&& final(self).did_documents@ == old(self).did_documents@
                    &&& final(self).config == old(self).config
                    &&& final(self).events@ == old(self).events@.push(IdentityEvent::ZKProofVerified {
                        verifier: origin->Signed_0, agent_id })
                },
            },
    {
        let who = match ensure_signed(&origin) {
            Ok(w) => w,
            Err(_) => return Err(IdentityError::BadOrigin),
        };
        let status = match self.agent_registry.get(&agent_id) {
            Some(a) => a.status,
            None => return Err(IdentityError::AgentNotFound),
        };
        if status == AgentStatus::Revoked {
            return Err(IdentityError::AgentRevoked);
        }
        self.events.push(IdentityEvent::ZKProofVerified { verifier: who, agent_id });
        Ok(())
    }

    /// The error `revoke_credential` reports, if any.
    pub open spec fn revoke_error(&self, origin: Origin, agent_id: AccountId, credential_index: u32) -> Option<IdentityError> {
        if !(origin is Signed) {
            Some(IdentityError::BadOrigin)
        } else if !self.agent_registry@.contains_key(agent_id) {
            Some(IdentityError::AgentNotFound)
        } else if self.agent_registry@[agent_id].owner != origin->Signed_0 {
            Some(IdentityError::NotAgentOwner)
        } else if credential_index >= self.creds_of(agent_id).len() {
            Some(IdentityError::InvalidCredential)
        } else {
            None
        }
    }

    /// Remove a credential of an agent by position (the agent's owner only): the last
    /// credential takes its place.
    pub fn revoke_credential(&mut self, origin: Origin, agent_id: AccountId, credential_index: u32) -> (r: Result<(), IdentityError>)
        requires
            old(self).wf(),
        ensures
            final(self).wf(),
            match old(self).revoke_error(origin, agent_id, credential_index) {
                Some(e) => r == Err::<(), IdentityError>(e) && *final(self) == *old(self),
                None => {
                    let c = old(self).creds_of(agent_id);
                    &&& r is Ok
                    &&& final(self).creds_updated(old(self), agent_id, c.update(credential_index as int, c.last()).drop_last())
                    &&& final(self).agent_registry@ == old(self).agent_registry@
                    &&& final(self).did_documents@ == old(self).did_documents@
                    &&& final(self).config == old(self).config
                    &&& final(self).events@ == old(self).events@.push(IdentityEvent::CredentialRevoked {
                        who: origin->Signed_0, agent_id, credential_index })
                },
            },
    {
        let who = match ensure_signed(&origin) {
            Ok(w) => w,
            Err(_) => return Err(IdentityError::BadOrigin),
        };
        let owner = match self.agent_registry.get(&agent_id) {
            Some(a) => a.owner,
            None => return Err(IdentityError::AgentNotFound),
        };
        if owner != who {
            return Err(IdentityError::NotAgentOwner);
        }
        let count = match self.credential_commitments.get(&agent_id) {
            Some(v) => v.len(),
            None => 0,
        };
        if credential_index as usize >= count {
            return Err(IdentityError::InvalidCredential);
        }
        let mut creds = match self.credential_commitments.remove(&agent_id) {
            Some(v) => v,
            None => Vec::new(),
        };
        assert(creds@ == old(self).creds_of(agent_id));
        let _ = creds.swap_remove(credential_index as usize);
        self.credential_commitments.insert(agent_id, creds);
        self.events.push(IdentityEvent::CredentialRevoked { who, agent_id, credential_index });
        Ok(())
    }

    /// The error `update_agent_status` reports, if any.
    pub open spec fn status_error(&self, origin: Origin, agent_id: AccountId) -> Option<IdentityError> {
        if !(origin is Signed) {
            Some(IdentityError::BadOrigin)
        } else if !self.agent_registry@.contains_key(agent_id) {
            Some(IdentityError::AgentNotFound)
        } else if self.agent_registry@[agent_id].owner != origin->Signed_0 {
            Some(IdentityError::NotAgentOwner)
        } else {
            None
        }
    }

    /// Set the status of an agent (its owner only).
    pub fn update_agent_status(&mut self, origin: Origin, agent_id: AccountId, new_status: AgentStatus) -> (r: Result<(), IdentityError>)
        requires
            old(self).wf(),
        ensures
            final(self).wf(),
            match old(self).status_error(origin, agent_id) {
                Some(e) => r == Err::<(), IdentityError>(e) && *final(self) == *old(self),
                None => {
                    let p = old(self).agent_registry@[agent_id];
                    &&& r is Ok
                    &&& final(self).agent_registry@ == old(self).agent_registry@.insert(agent_id, AgentProfile { status: new_status, ..p })
                    &&& final(self).credential_commitments@ == old(self).credential_commitments@
                    &&& final(self).did_documents@ == old(self).did_documents@
                    &&& final(self).config == old(self).config
                    &&& final(self).events@ == old(self).events@.push(IdentityEvent::AgentStatusChanged {
                        who: agent_id, new_status })
                },
            },
    {
        let who = match ensure_signed(&origin) {
            Ok(w) => w,
            Err(_) => return Err(IdentityError::BadOrigin),
        };
        let owner = match self.agent_registry.get(&agent_id) {
            Some(a) => a.owner,
            None => return Err(IdentityError::AgentNotFound),
        };
        if owner != who {
            return Err(IdentityError::NotAgentOwner);
        }
        let (pos, p) = match self.agent_registry.take(&agent_id) {
            Some(t) => t,
            None => return Err(IdentityError::AgentNotFound),
        };
        self.agent_registry.put_back(pos, agent_id, AgentProfile { status: new_status, ..p });
        self.events.push(IdentityEvent::AgentStatusChanged { who: agent_id, new_status });
        Ok(())
    }
}

/// Each account registers one agent: once registered, registering again is refused with
/// `AgentAlreadyRegistered`.
pub proof fn lemma_register_once(s0: Identity, s1: Identity, origin: Origin, did: Did, name: Seq<u8>, model_type: Seq<u8>, commitment: Hash32, now: BlockNumber)
    requires
        s0.register_error(origin) is None,
        Identity::registered(&s0, &s1, origin->Signed_0, did, name, model_type, commitment, now),
    ensures
        s1.register_error(origin) == Some(IdentityError::AgentAlreadyRegistered),
{
}

} // verus!
