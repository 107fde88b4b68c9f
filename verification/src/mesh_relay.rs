//! Relay of offline payment transactions that reached the chain over the mesh
//! transport: each is recorded once, by the hash of its content, after its ed25519
//! signature and its value cap are checked.

use vstd::prelude::*;
use crate::common::{AccountId, BlockNumber, Hash32, Origin, ensure_signed};
use crate::crypto::{blake2_256, blake2_256_of, digest, ed25519_verdicts, ed25519_verify, lemma_digest};
use crate::scale::{enc_u64, le_u64_value, push_raw, push_u64, read_u64_le};
use crate::table::Table;

verus! {

/// Largest payload a record can hold, whatever the configured limit.
pub const OFFLINE_PAYLOAD_CAP: usize = 1024;

/// One offline transaction relayed through the mesh.
#[derive(Clone, Debug)]
pub struct OfflineTxRecord {
    /// BLAKE2-256 of `mandate_ref ++ nonce (LE) ++ chain_id ++ payload`.
    pub offline_transaction_content_hash: Hash32,
    /// Block at which the record was accepted.
    pub offline_transaction_accepted_at_block: u32,
    /// ed25519 signature over the content hash.
    pub offline_transaction_signature_value: [u8; 64],
    /// Key that made the signature.
    pub offline_transaction_authority_pubkey_value: [u8; 32],
    /// The signed payload.
    pub offline_transaction_signed_payload: Vec<u8>,
    /// Size of the payload in bytes.
    pub offline_transaction_size_bytes_value: u32,
    /// Mandate that authorised the transaction.
    pub offline_transaction_mandate_ref_value: [u8; 32],
    /// Mandate-scoped nonce.
    pub offline_transaction_mandate_nonce_value: u64,
}

/// Events of the relay.
#[derive(Clone, Debug)]
pub enum MeshRelayEvent {
    OfflineTxAccepted { content_hash: Hash32, mandate_ref: [u8; 32], mandate_nonce: u64, accepted_at_block: u32 },
}

/// Errors of the relay.
#[derive(Clone, Copy, Debug, PartialEq, Eq, Structural)]
pub enum MeshRelayError {
    BadOrigin,
    /// The same content was relayed before.
    AlreadyRelayed,
    InvalidSignature,
    /// The trailing value of the payload exceeds the cap.
    ExceedsOfflineCap,
    QueueFull,
    PayloadTooLarge,
}

/// Constants of the relay.
#[derive(Clone, Copy, Debug)]
pub struct MeshRelayConfig {
    /// Most records the queue holds.
    pub max_relayed_queue: u32,
    /// Longest payload accepted.
    pub max_payload_len: u32,
    /// Largest trailing value of a payload.
    pub default_offline_tx_value_cap: u128,
}

/// The relay storage.
pub struct MeshRelay {
    pub config: MeshRelayConfig,
    /// Relayed records, oldest first.
    pub relayed_transactions: Vec<OfflineTxRecord>,
    /// Position of each record in the queue, by content hash.
    pub relayed_hash_index: Table<Hash32, u32>,
    /// Deposited events, oldest first.
    pub events: Vec<MeshRelayEvent>,
}

/// The bytes whose digest is the content hash.
pub open spec fn content_input(mandate_ref: [u8; 32], nonce: u64, chain_id: Hash32, payload: Seq<u8>) -> Seq<u8> {
    mandate_ref@ + enc_u64(nonce) + chain_id@ + payload
}

/// The content hash of a relayed transaction.
pub open spec fn content_hash_of(mandate_ref: [u8; 32], nonce: u64, chain_id: Hash32, payload: Seq<u8>) -> Hash32 {
    digest(blake2_256_of(content_input(mandate_ref, nonce, chain_id, payload)))
}

/// The value a payload carries: its last eight bytes, little-endian, if it has eight.
pub open spec fn trailing_value(payload: Seq<u8>) -> Option<int> {
    if payload.len() >= 8 {
        Some(le_u64_value(payload.subrange(payload.len() - 8, payload.len() as int)))
    } else {
        None
    }
}

/// The block number a record carries: `now`, saturated to 32 bits.
pub open spec fn block_u32(now: BlockNumber) -> u32 {
    if now <= u32::MAX { now as u32 } else { u32::MAX }
}

/// Compute the content hash of a relayed transaction.
pub fn content_hash(mandate_ref: &[u8; 32], nonce: u64, chain_id: &Hash32, payload: &[u8]) -> (h: Hash32)
    ensures
        h == content_hash_of(*mandate_ref, nonce, *chain_id, payload@),
{
    let mut input: Vec<u8> = Vec::new();
    push_raw(&mut input, mandate_ref);
    push_u64(&mut input, nonce);
    push_raw(&mut input, chain_id);
    push_raw(&mut input, payload);
    let h = blake2_256(input.as_slice());
    proof {
        lemma_digest(h);
    }
    h
}

impl MeshRelay {
    /// Every indexed hash points at its record, and every record is indexed.
    pub open spec fn wf(&self) -> bool {
        &&& self.relayed_hash_index.wf()
        &&& forall|h: Hash32| #[trigger] self.relayed_hash_index@.contains_key(h) ==> {
            let i = self.relayed_hash_index@[h] as int;
            0 <= i < self.relayed_transactions@.len()
                && self.relayed_transactions@[i].offline_transaction_content_hash == h
        }
        &&& forall|i: int| 0 <= i < self.relayed_transactions@.len() ==> {
            let h = #[trigger] self.relayed_transactions@[i].offline_transaction_content_hash;
            self.relayed_hash_index@.contains_key(h) && self.relayed_hash_index@[h] as int == i
        }
    }

    /// Every content relayed in `self` is still indexed, at the same record, in `later`,
    /// and the limits are the same.
    pub open spec fn relayed_kept(&self, later: &Self) -> bool {
        &&& later.config == self.config
        &&& forall|h: Hash32| #[trigger] self.relayed_hash_index@.contains_key(h)
            ==> later.relayed_hash_index@.contains_key(h) && later.relayed_hash_index@[h] == self.relayed_hash_index@[h]
    }

    /// An empty relay.
    pub fn new(config: MeshRelayConfig) -> (s: Self)
        ensures
            s.wf(),
            s.config == config,
            s.relayed_transactions@ == Seq::<OfflineTxRecord>::empty(),
            s.relayed_hash_index@ == Map::<Hash32, u32>::empty(),
            s.events@ == Seq::<MeshRelayEvent>::empty(),
    {
        MeshRelay { config, relayed_transactions: Vec::new(), relayed_hash_index: Table::new(), events: Vec::new() }
    }

    /// The error `accept_with_hash` reports, if any, given the verifier's verdict on the
    /// signature.
    pub open spec fn accept_error(&self, content_hash: Hash32, payload: Seq<u8>, signature_valid: bool) -> Option<MeshRelayError> {
        if self.relayed_hash_index@.contains_key(content_hash) {
            Some(MeshRelayError::AlreadyRelayed)
        } else if !signature_valid {
            Some(MeshRelayError::InvalidSignature)
        } else if trailing_value(payload) matches Some(v) && v > self.config.default_offline_tx_value_cap {
            Some(MeshRelayError::ExceedsOfflineCap)
        } else if payload.len() > OFFLINE_PAYLOAD_CAP {
            Some(MeshRelayError::PayloadTooLarge)
        } else if self.relayed_transactions@.len() >= self.config.max_relayed_queue {
            Some(MeshRelayError::QueueFull)
        } else {
            None
        }
    }

    /// The error `submit_relayed_transaction` reports, if any, given the verifier's verdict
    /// on the signature.
    pub open spec fn submit_error(&self, origin: Origin, chain_id: Hash32, payload: Seq<u8>, mandate_ref: [u8; 32], mandate_nonce: u64, signature_valid: bool) -> Option<MeshRelayError> {
        if !(origin is Signed) {
            Some(MeshRelayError::BadOrigin)
        } else if payload.len() > self.config.max_payload_len {
            Some(MeshRelayError::PayloadTooLarge)
        } else {
            self.accept_error(content_hash_of(mandate_ref, mandate_nonce, chain_id, payload), payload, signature_valid)
        }
    }

    /// Whether `valid` is a verdict the ed25519 verifier may give on `signature` over the
    /// content hash under `authority_pubkey`.
    pub open spec fn possible_verdict(signature: [u8; 64], content_hash: Hash32, authority_pubkey: [u8; 32], valid: bool) -> bool {
        let v = ed25519_verdicts(signature@, content_hash@, authority_pubkey@);
        valid == v.0 || valid == v.1
    }

    /// The outcome of a submission, given the verifier's verdict on its signature: the
    /// error reported with the relay unchanged, or success with the record accepted.
    pub open spec fn submitted(old: &Self, new: &Self, r: Result<(), MeshRelayError>, origin: Origin, now: BlockNumber, chain_id: Hash32, payload: Seq<u8>, signature: [u8; 64], authority_pubkey: [u8; 32], mandate_ref: [u8; 32], mandate_nonce: u64, signature_valid: bool) -> bool {
        match old.submit_error(origin, chain_id, payload, mandate_ref, mandate_nonce, signature_valid) {
            Some(e) => r == Err::<(), MeshRelayError>(e) && *new == *old,
            None => r is Ok && Self::accepted(old, new, now, content_hash_of(mandate_ref, mandate_nonce, chain_id, payload),
                payload, signature, authority_pubkey, mandate_ref, mandate_nonce),
        }
    }

    /// `new` is `old` with the record of an accepted transaction appended, indexed and
    /// announced.
    pub open spec fn accepted(old: &Self, new: &Self, now: BlockNumber, content_hash: Hash32, payload: Seq<u8>, signature: [u8; 64], authority_pubkey: [u8; 32], mandate_ref: [u8; 32], mandate_nonce: u64) -> bool {
        let at = block_u32(now);
        &&& new.config == old.config
        &&& new.relayed_transactions@.len() == old.relayed_transactions@.len() + 1
        &&& new.relayed_transactions@.drop_last() == old.relayed_transactions@
        &&& new.relayed_transactions@.last() matches OfflineTxRecord {
            offline_transaction_content_hash: ch,
            offline_transaction_accepted_at_block: b,
            offline_transaction_signature_value: sv,
            offline_transaction_authority_pubkey_value: pk,
            offline_transaction_signed_payload: p,
            offline_transaction_size_bytes_value: sz,
            offline_transaction_mandate_ref_value: mr,
            offline_transaction_mandate_nonce_value: n,
        } && ch == content_hash && b == at && sv == signature && pk == authority_pubkey && p@ == payload
            && sz == payload.len() && mr == mandate_ref && n == mandate_nonce
        &&& new.relayed_hash_index@ == old.relayed_hash_index@.insert(content_hash, old.relayed_transactions@.len() as u32)
        &&& new.events@ == old.events@.push(MeshRelayEvent::OfflineTxAccepted {
            content_hash, mandate_ref, mandate_nonce, accepted_at_block: at,
        })
    }

    /// Record a transaction whose content hash is known, given whether its signature
    /// verified over that hash: refused if that content was relayed before, if the
    /// signature did not verify, if the payload's trailing value exceeds the cap, if the
    /// payload exceeds the record size, or if the queue is full.
    pub fn accept_with_hash(&mut self, now: BlockNumber, content_hash: Hash32, signature_valid: bool, payload: Vec<u8>, signature: [u8; 64], authority_pubkey: [u8; 32], mandate_ref: [u8; 32], mandate_nonce: u64) -> (r: Result<(), MeshRelayError>)
        requires
            old(self).wf(),
        ensures
            final(self).wf(),
            old(self).relayed_kept(final(self)),
            match old(self).accept_error(content_hash, payload@, signature_valid) {
                Some(e) => r == Err::<(), MeshRelayError>(e) && *final(self) == *old(self),
                None => r is Ok && Self::accepted(old(self), final(self), now, content_hash, payload@, signature, authority_pubkey, mandate_ref, mandate_nonce),
            },
    {
        if self.relayed_hash_index.contains_key(&content_hash) {
            return Err(MeshRelayError::AlreadyRelayed);
        }
        if !signature_valid {
            return Err(MeshRelayError::InvalidSignature);
        }
        let len = payload.len();
        if len >= 8 {
            let v = read_u64_le(payload.as_slice(), len - 8);
            if v as u128 > self.config.default_offline_tx_value_cap {
                return Err(MeshRelayError::ExceedsOfflineCap);
            }
        }
        if len > OFFLINE_PAYLOAD_CAP {
            return Err(MeshRelayError::PayloadTooLarge);
        }
        let n = self.relayed_transactions.len();
        if n >= self.config.max_relayed_queue as usize {
            return Err(MeshRelayError::QueueFull);
        }
        let at: u32 = if now <= u32::MAX as u64 { now as u32 } else { u32::MAX };
        let ghost p = payload@;
        let record = OfflineTxRecord {
            offline_transaction_content_hash: content_hash,
            offline_transaction_accepted_at_block: at,
            offline_transaction_signature_value: signature,
            offline_transaction_authority_pubkey_value: authority_pubkey,
            offline_transaction_signed_payload: payload,
            offline_transaction_size_bytes_value: len as u32,
            offline_transaction_mandate_ref_value: mandate_ref,
            offline_transaction_mandate_nonce_value: mandate_nonce,
        };
        self.relayed_transactions.push(record);
        self.relayed_hash_index.insert(content_hash, n as u32);
        self.events.push(MeshRelayEvent::OfflineTxAccepted {
            content_hash,
            mandate_ref,
            mandate_nonce,
            accepted_at_block: at,
        });
        proof {
            assert(self.relayed_transactions@.drop_last() =~= old(self).relayed_transactions@);
            assert forall|h: Hash32| #[trigger] self.relayed_hash_index@.contains_key(h) implies {
                let i = self.relayed_hash_index@[h] as int;
                0 <= i < self.relayed_transactions@.len()
                    && self.relayed_transactions@[i].offline_transaction_content_hash == h
            } by {
                if h != content_hash {
                    assert(old(self).relayed_hash_index@.contains_key(h));
                }
            }
            assert forall|i: int| 0 <= i < self.relayed_transactions@.len() implies {
                let h = #[trigger] self.relayed_transactions@[i].offline_transaction_content_hash;
                self.relayed_hash_index@.contains_key(h) && self.relayed_hash_index@[h] as int == i
            } by {
                if i < n {
                    let h = old(self).relayed_transactions@[i].offline_transaction_content_hash;
                    assert(old(self).relayed_hash_index@.contains_key(h));
                    assert(h != content_hash);
                }
            }
        }
        Ok(())
    }

    /// Accept an offline transaction relayed by a signed origin: the payload must fit the
    /// configured limit; the content hash binds the mandate, its nonce, the chain's
    /// genesis hash `chain_id` and the payload; a content relayed before is refused before
    /// the signature is verified over that hash, and the rest is `accept_with_hash`.
    /// The outcome is the one `submitted` gives for a verdict the verifier may give on the
    /// signature over the content hash.
    pub fn submit_relayed_transaction(&mut self, origin: Origin, now: BlockNumber, chain_id: Hash32, signed_payload: Vec<u8>, signature: [u8; 64], authority_pubkey: [u8; 32], mandate_ref: [u8; 32], mandate_nonce: u64) -> (r: Result<(), MeshRelayError>)
        requires
            old(self).wf(),
        ensures
            final(self).wf(),
            old(self).relayed_kept(final(self)),
            exists|signature_valid: bool|
                Self::possible_verdict(signature, content_hash_of(mandate_ref, mandate_nonce, chain_id, signed_payload@),
                    authority_pubkey, signature_valid)
                && #[trigger] Self::submitted(old(self), final(self), r, origin, now, chain_id, signed_payload@,
                    signature, authority_pubkey, mandate_ref, mandate_nonce, signature_valid),
    {
        let ghost p = signed_payload@;
        let ghost w = ed25519_verdicts(signature@, content_hash_of(mandate_ref, mandate_nonce, chain_id, p)@, authority_pubkey@).0;
        let early = match ensure_signed(&origin) {
            Err(_) => Some(MeshRelayError::BadOrigin),
            Ok(_) => if signed_payload.len() > self.config.max_payload_len as usize {
                Some(MeshRelayError::PayloadTooLarge)
            } else {
                None
            },
        };
        if let Some(e) = early {
            assert(Self::submitted(old(self), self, Err(e), origin, now, chain_id, p, signature, authority_pubkey, mandate_ref, mandate_nonce, w));
            return Err(e);
        }
        let h = content_hash(&mandate_ref, mandate_nonce, &chain_id, signed_payload.as_slice());
        if self.relayed_hash_index.contains_key(&h) {
            assert(Self::submitted(old(self), self, Err(MeshRelayError::AlreadyRelayed), origin, now, chain_id, p, signature, authority_pubkey, mandate_ref, mandate_nonce, w));
            return Err(MeshRelayError::AlreadyRelayed);
        }
        let valid = ed25519_verify(&signature, &h, &authority_pubkey);
        let r = self.accept_with_hash(now, h, valid, signed_payload, signature, authority_pubkey, mandate_ref, mandate_nonce);
        assert(Self::submitted(old(self), self, r, origin, now, chain_id, p, signature, authority_pubkey, mandate_ref, mandate_nonce, valid));
        r
    }
}

/// Relaying is idempotent: once a transaction was accepted, submitting the same mandate,
/// nonce and payload again on the same chain is refused with `AlreadyRelayed`, whatever
/// the signature, and leaves the relay unchanged.
pub proof fn lemma_resubmission_refused(s0: MeshRelay, s1: MeshRelay, r: Result<(), MeshRelayError>, origin: Origin, now: BlockNumber, chain_id: Hash32, payload: Seq<u8>, signature: [u8; 64], authority_pubkey: [u8; 32], mandate_ref: [u8; 32], mandate_nonce: u64, signature_valid: bool, s2: MeshRelay, r2: Result<(), MeshRelayError>, now2: BlockNumber, signature2: [u8; 64], authority_pubkey2: [u8; 32], signature_valid2: bool)
    requires
        MeshRelay::submitted(&s0, &s1, r, origin, now, chain_id, payload, signature, authority_pubkey, mandate_ref, mandate_nonce, signature_valid),
        r is Ok,
        MeshRelay::submitted(&s1, &s2, r2, origin, now2, chain_id, payload, signature2, authority_pubkey2, mandate_ref, mandate_nonce, signature_valid2),
    ensures
        r2 == Err::<(), MeshRelayError>(MeshRelayError::AlreadyRelayed),
        s2 == s1,
{
}

/// Relayed content is refused for good: every call keeps what was relayed indexed
/// (`relayed_kept`), and a signed submission of the same mandate, nonce and payload on the
/// same chain is refused with `AlreadyRelayed`, whatever its signature and the verdict on it.
pub proof fn lemma_relayed_content_refused(s: MeshRelay, origin: Origin, chain_id: Hash32, payload: Seq<u8>, mandate_ref: [u8; 32], mandate_nonce: u64, signature_valid: bool)
    requires
        s.relayed_hash_index@.contains_key(content_hash_of(mandate_ref, mandate_nonce, chain_id, payload)),
        origin is Signed,
        payload.len() <= s.config.max_payload_len,
    ensures
        s.submit_error(origin, chain_id, payload, mandate_ref, mandate_nonce, signature_valid) == Some(MeshRelayError::AlreadyRelayed),
{
}

} // verus!
