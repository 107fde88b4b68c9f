//! KYC whitelist: permissioned attestors record each account's verification level,
//! expiry, country and document hash (no personal data), and root keeps a sanction list
//! that revokes and blocks records. Other pallets read it through `KycProvider`.

use vstd::prelude::*;
use crate::weights::Weight;
use crate::common::{AccountId, BlockNumber, Hash32, Origin, ensure_root};
use crate::crypto::{blake2_256, blake2_256_of, digest, lemma_digest};
use crate::rwa::{KycDenied, KycProvider, kyc_rank, rank};
use crate::table::Table;

pub use crate::rwa::KycLevel;

verus! {

/// Why an account is on the sanction list.
#[derive(Clone, Copy, Debug, PartialEq, Eq, Structural)]
pub enum SanctionReason {
    /// US OFAC Specially Designated Nationals list.
    OfacSdn,
    /// EU consolidated sanctions list.
    EuSanctions,
    /// UK HMT sanctions list.
    UkSanctions,
    /// Internal compliance decision.
    Internal,
}

/// The KYC record of an account.
#[derive(Clone, Copy, Debug)]
pub struct KycRecord {
    pub level: KycLevel,
    /// The attestor that submitted the record.
    pub attested_by: AccountId,
    pub attested_at: BlockNumber,
    pub expires_at: BlockNumber,
    /// Hash of the off-chain document bundle.
    pub document_hash: Hash32,
    /// ISO-3166-1 alpha-2 country code; `[0, 0]` is not a country.
    pub country_code: [u8; 2],
}

/// Events of the KYC pallet.
#[derive(Clone, Copy, Debug)]
pub enum KycEvent {
    KycSet { account: AccountId, level: KycLevel, expires_at: BlockNumber },
    /// `reason_hash` is the BLAKE2-256 digest of the reason.
    KycRevoked { account: AccountId, reason_hash: Hash32 },
    AttestorAdded { attestor: AccountId },
    AttestorRemoved { attestor: AccountId },
    AccountSanctioned { account: AccountId, reason: SanctionReason },
    AccountUnsanctioned { account: AccountId },
}

/// Errors of the KYC pallet.
#[derive(Clone, Copy, Debug, PartialEq, Eq, Structural)]
pub enum KycError {
    BadOrigin,
    NotAttestor,
    AccountSanctioned,
    KycExpired,
    KycBelowRequiredLevel,
    InvalidCountryCode,
    ExpiryInPast,
    AlreadyAttestor,
    UnknownAttestor,
    AttestorsFull,
    AttestorMismatch,
}

/// Constants of the KYC pallet.
#[derive(Clone, Copy, Debug)]
pub struct KycConfig {
    /// Most attestors at once.
    pub max_attestors: u32,
}

/// The KYC storage.
pub struct Kyc {
    pub config: KycConfig,
    /// Records by account.
    pub kyc_records: Table<AccountId, KycRecord>,
    /// The attestor set.
    pub attestors: Table<AccountId, ()>,
    /// Sanctioned accounts with their reason.
    pub sanction_list: Table<AccountId, SanctionReason>,
    /// Deposited events, oldest first.
    pub events: Vec<KycEvent>,
}

/// The bytes of `sanctioned`.
pub open spec fn sanctioned_reason() -> Seq<u8> {
    seq![115u8, 97, 110, 99, 116, 105, 111, 110, 101, 100]
}

/// The hash a revocation announces for a reason.
pub open spec fn reason_hash_of(reason: Seq<u8>) -> Hash32 {
    digest(blake2_256_of(reason))
}

/// Hash a revocation reason.
pub fn reason_hash(reason: &[u8]) -> (h: Hash32)
    ensures
        h == reason_hash_of(reason@),
{
    let h = blake2_256(reason);
    proof {
        lemma_digest(h);
    }
    h
}

/// The bytes of `sanctioned`.
fn sanctioned_bytes() -> (v: Vec<u8>)
    ensures
        v@ == sanctioned_reason(),
{
    let v = vec![115u8, 97, 110, 99, 116, 105, 111, 110, 101, 100];
    assert(v@ =~= sanctioned_reason());
    v
}

impl Kyc {
    /// Tables well formed and the attestor set within its bound.
    pub open spec fn wf(&self) -> bool {
        &&& self.kyc_records.wf()
        &&& self.attestors.wf()
        &&& self.sanction_list.wf()
        &&& self.attestors@.dom().len() <= self.config.max_attestors
        &&& forall|a: AccountId| #[trigger] self.sanction_list@.contains_key(a) ==> !self.kyc_records@.contains_key(a)
    }

    /// Level of `account` (unverified without a record); expiry is not considered.
    pub open spec fn level_view(&self, account: AccountId) -> KycLevel {
        if self.kyc_records@.contains_key(account) {
            self.kyc_records@[account].level
        } else {
            KycLevel::Unverified
        }
    }

    /// Whether `account` has a record that expired before `now`.
    pub open spec fn expired_view(&self, account: AccountId, now: BlockNumber) -> bool {
        self.kyc_records@.contains_key(account) && self.kyc_records@[account].expires_at < now
    }

    /// The error `require_at_least` reports, if any.
    pub open spec fn requirement_error(&self, account: AccountId, required: KycLevel, now: BlockNumber) -> Option<KycError> {
        if self.sanction_list@.contains_key(account) {
            Some(KycError::AccountSanctioned)
        } else if !self.kyc_records@.contains_key(account) {
            if required == KycLevel::Unverified {
                None
            } else {
                Some(KycError::KycBelowRequiredLevel)
            }
        } else if self.kyc_records@[account].expires_at < now {
            Some(KycError::KycExpired)
        } else if kyc_rank(self.kyc_records@[account].level) < kyc_rank(required) {
            Some(KycError::KycBelowRequiredLevel)
        } else {
            None
        }
    }

    /// The pallet at genesis, with the initial attestors.
    pub fn genesis(config: KycConfig, initial_attestors: &Vec<AccountId>) -> (s: Self)
        requires
            initial_attestors@.to_set().len() <= config.max_attestors,
        ensures
            s.wf(),
            s.config == config,
            s.attestors@.dom() == initial_attestors@.to_set(),
            s.kyc_records@ == Map::<AccountId, KycRecord>::empty(),
            s.sanction_list@ == Map::<AccountId, SanctionReason>::empty(),
            s.events@ == Seq::<KycEvent>::empty(),
    {
        let mut attestors: Table<AccountId, ()> = Table::new();
        let mut i: usize = 0;
        proof {
            initial_attestors@.lemma_cardinality_of_set();
        }
        while i < initial_attestors.len()
            invariant
                attestors.wf(),
                0 <= i <= initial_attestors@.len(),
                attestors@.dom() == initial_attestors@.take(i as int).to_set(),
                initial_attestors@.to_set().len() <= config.max_attestors,
                initial_attestors@.to_set().finite(),
            decreases initial_attestors@.len() - i,
        {
            let a = initial_attestors[i];
            attestors.insert(a, ());
            proof {
                initial_attestors@.take(i as int).lemma_push_to_set_commute(a);
                assert(initial_attestors@.take(i + 1) =~= initial_attestors@.take(i as int).push(a));
                assert(attestors@.dom() =~= initial_attestors@.take(i + 1).to_set());
            }
            i = i + 1;
        }
        proof {
            assert(initial_attestors@.take(initial_attestors@.len() as int) =~= initial_attestors@);
        }
        Kyc {
            config,
            kyc_records: Table::new(),
            attestors,
            sanction_list: Table::new(),
            events: Vec::new(),
        }
    }

    /// The error `set_kyc` reports, if any.
    pub open spec fn set_kyc_error(&self, origin: Origin, now: BlockNumber, account: AccountId, record: KycRecord) -> Option<KycError> {
        if !(origin is Signed) {
            Some(KycError::BadOrigin)
        } else if !self.attestors@.contains_key(origin->Signed_0) {
            Some(KycError::NotAttestor)
        } else if self.sanction_list@.contains_key(account) {
            Some(KycError::AccountSanctioned)
        } else if record.attested_by != origin->Signed_0 {
            Some(KycError::AttestorMismatch)
        } else if record.expires_at <= now {
            Some(KycError::ExpiryInPast)
        } else if record.country_code == [0u8, 0u8] {
            Some(KycError::InvalidCountryCode)
        } else {
            None
        }
    }

    /// Set or overwrite the record of `account` (an attestor, submitting its own record):
    /// the account must not be sanctioned, the record must expire after `now` and carry
    /// a country code.
    pub fn set_kyc(&mut self, origin: Origin, now: BlockNumber, account: AccountId, record: KycRecord) -> (r: Result<(), KycError>)
        requires
            old(self).wf(),
        ensures
            final(self).wf(),
            match old(self).set_kyc_error(origin, now, account, record) {
                Some(e) => r == Err::<(), KycError>(e) && *final(self) == *old(self),
                None => {
                    &&& r is Ok
                    &&& final(self).kyc_records@ == old(self).kyc_records@.insert(account, record)
                    &&& final(self).attestors@ == old(self).attestors@
                    &&& final(self).sanction_list@ == old(self).sanction_list@
                    &&& final(self).config == old(self).config
                    &&& final(self).events@ == old(self).events@.push(KycEvent::KycSet {
                        account, level: record.level, expires_at: record.expires_at })
                },
            },
    {
        let caller = match origin {
            Origin::Signed(w) => w,
            _ => return Err(KycError::BadOrigin),
        };
        if !self.attestors.contains_key(&caller) {
            return Err(KycError::NotAttestor);
        }
        if self.sanction_list.contains_key(&account) {
            return Err(KycError::AccountSanctioned);
        }
        if record.attested_by != caller {
            return Err(KycError::AttestorMismatch);
        }
        if record.expires_at <= now {
            return Err(KycError::ExpiryInPast);
        }
        if record.country_code[0] == 0 && record.country_code[1] == 0 {
            assert(record.country_code =~= [0u8, 0u8]);
            return Err(KycError::InvalidCountryCode);
        }
        assert(record.country_code != [0u8, 0u8]) by {
            if record.country_code == [0u8, 0u8] {
                assert(record.country_code@[0] == 0 && record.country_code@[1] == 0);
            }
        }
        self.kyc_records.insert(account, record);
        self.events.push(KycEvent::KycSet { account, level: record.level, expires_at: record.expires_at });
        Ok(())
    }

    /// The error `revoke_kyc` reports, if any.
    pub open spec fn revoke_error(&self, origin: Origin) -> Option<KycError> {
        match origin {
            Origin::Root => None,
            Origin::Signed(w) => if self.attestors@.contains_key(w) { None } else { Some(KycError::NotAttestor) },
            Origin::Unsigned => Some(KycError::BadOrigin),
        }
    }

    /// Remove the record of `account` (root or any attestor); the event carries the
    /// hash of the reason, not the reason.
    pub fn revoke_kyc(&mut self, origin: Origin, account: AccountId, reason: Vec<u8>) -> (r: Result<(), KycError>)
        requires
            old(self).wf(),
            reason@.len() <= 64,
        ensures
            final(self).wf(),
            match old(self).revoke_error(origin) {
                Some(e) => r == Err::<(), KycError>(e) && *final(self) == *old(self),
                None => {
                    &&& r is Ok
                    &&& final(self).kyc_records@ == old(self).kyc_records@.remove(account)
                    &&& final(self).attestors@ == old(self).attestors@
                    &&& final(self).sanction_list@ == old(self).sanction_list@
                    &&& final(self).config == old(self).config
                    &&& final(self).events@ == old(self).events@.push(KycEvent::KycRevoked {
                        account, reason_hash: reason_hash_of(reason@) })
                },
            },
    {
        match origin {
            Origin::Root => {},
            Origin::Signed(w) => {
                if !self.attestors.contains_key(&w) {
                    return Err(KycError::NotAttestor);
                }
            },
            Origin::Unsigned => return Err(KycError::BadOrigin),
        }
        let _ = self.kyc_records.remove(&account);
        let h = reason_hash(reason.as_slice());
        self.events.push(KycEvent::KycRevoked { account, reason_hash: h });
        Ok(())
    }

    /// The error `add_attestor` reports, if any.
    pub open spec fn add_attestor_error(&self, origin: Origin, attestor: AccountId) -> Option<KycError> {
        if !(origin is Root) {
            Some(KycError::BadOrigin)
        } else if self.attestors@.contains_key(attestor) {
            Some(KycError::AlreadyAttestor)
        } else if self.attestors@.dom().len() >= self.config.max_attestors {
            Some(KycError::AttestorsFull)
        } else {
            None
        }
    }

    /// Add an attestor (root only).
    pub fn add_attestor(&mut self, origin: Origin, attestor: AccountId) -> (r: Result<(), KycError>)
        requires
            old(self).wf(),
        ensures
            final(self).wf(),
            match old(self).add_attestor_error(origin, attestor) {
                Some(e) => r == Err::<(), KycError>(e) && *final(self) == *old(self),
                None => {
                    &&& r is Ok
                    &&& final(self).attestors@ == old(self).attestors@.insert(attestor, ())
                    &&& final(self).kyc_records@ == old(self).kyc_records@
                    &&& final(self).sanction_list@ == old(self).sanction_list@
                    &&& final(self).config == old(self).config
                    &&& final(self).events@ == old(self).events@.push(KycEvent::AttestorAdded { attestor })
                },
            },
    {
        match ensure_root(&origin) {
            Ok(()) => {},
            Err(_) => return Err(KycError::BadOrigin),
        }
        if self.attestors.contains_key(&attestor) {
            return Err(KycError::AlreadyAttestor);
        }
        if self.attestors.len() >= self.config.max_attestors as usize {
            return Err(KycError::AttestorsFull);
        }
        self.attestors.insert(attestor, ());
        proof {
            self.attestors.lemma_view();
            old(self).attestors.lemma_view();
        }
        self.events.push(KycEvent::AttestorAdded { attestor });
        Ok(())
    }

    /// The error `remove_attestor` reports, if any.
    pub open spec fn remove_attestor_error(&self, origin: Origin, attestor: AccountId) -> Option<KycError> {
        if !(origin is Root) {
            Some(KycError::BadOrigin)
        } else if !self.attestors@.contains_key(attestor) {
            Some(KycError::UnknownAttestor)
        } else {
            None
        }
    }

    /// Remove an attestor (root only).
    pub fn remove_attestor(&mut self, origin: Origin, attestor: AccountId) -> (r: Result<(), KycError>)
        requires
            old(self).wf(),
        ensures
            final(self).wf(),
            match old(self).remove_attestor_error(origin, attestor) {
                Some(e) => r == Err::<(), KycError>(e) && *final(self) == *old(self),
                None => {
                    &&& r is Ok
                    &&& final(self).attestors@ == old(self).attestors@.remove(attestor)
                    &&& final(self).kyc_records@ == old(self).kyc_records@
                    &&& final(self).sanction_list@ == old(self).sanction_list@
                    &&& final(self).config == old(self).config
                    &&& final(self).events@ == old(self).events@.push(KycEvent::AttestorRemoved { attestor })
                },
            },
    {
        match ensure_root(&origin) {
            Ok(()) => {},
            Err(_) => return Err(KycError::BadOrigin),
        }
        if !self.attestors.contains_key(&attestor) {
            return Err(KycError::UnknownAttestor);
        }
        let _ = self.attestors.remove(&attestor);
        proof {
            self.attestors.lemma_view();
            old(self).attestors.lemma_view();
        }
        self.events.push(KycEvent::AttestorRemoved { attestor });
        Ok(())
    }

    /// Sanction an account (root only): an existing record is revoked first, announced
    /// with the hash of `sanctioned`.
    pub fn add_to_sanction_list(&mut self, origin: Origin, account: AccountId, reason: SanctionReason) -> (r: Result<(), KycError>)
        requires
            old(self).wf(),
        ensures
            final(self).wf(),
            !(origin is Root) ==> r == Err::<(), KycError>(KycError::BadOrigin) && *final(self) == *old(self),
            origin is Root ==> {
                let revoked = if old(self).kyc_records@.contains_key(account) {
                    old(self).events@.push(KycEvent::KycRevoked { account, reason_hash: reason_hash_of(sanctioned_reason()) })
                } else {
                    old(self).events@
                };
                &&& r is Ok
                &&& final(self).kyc_records@ == old(self).kyc_records@.remove(account)
                &&& final(self).sanction_list@ == old(self).sanction_list@.insert(account, reason)
                &&& final(self).attestors@ == old(self).attestors@
                &&& final(self).config == old(self).config
                &&& final(self).events@ == revoked.push(KycEvent::AccountSanctioned { account, reason })
            },
    {
        match ensure_root(&origin) {
            Ok(()) => {},
            Err(_) => return Err(KycError::BadOrigin),
        }
        if self.kyc_records.contains_key(&account) {
            let _ = self.kyc_records.remove(&account);
            let bytes = sanctioned_bytes();
            let h = reason_hash(bytes.as_slice());
            self.events.push(KycEvent::KycRevoked { account, reason_hash: h });
        } else {
            assert(self.kyc_records@ =~= old(self).kyc_records@.remove(account));
        }
        self.sanction_list.insert(account, reason);
        self.events.push(KycEvent::AccountSanctioned { account, reason });
        Ok(())
    }

    /// Lift the sanction of an account (root only).
    pub fn remove_from_sanction_list(&mut self, origin: Origin, account: AccountId) -> (r: Result<(), KycError>)
        requires
            old(self).wf(),
        ensures
            final(self).wf(),
            !(origin is Root) ==> r == Err::<(), KycError>(KycError::BadOrigin) && *final(self) == *old(self),
            origin is Root ==> {
                &&& r is Ok
                &&& final(self).sanction_list@ == old(self).sanction_list@.remove(account)
                &&& final(self).kyc_records@ == old(self).kyc_records@
                &&& final(self).attestors@ == old(self).attestors@
                &&& final(self).config == old(self).config
                &&& final(self).events@ == old(self).events@.push(KycEvent::AccountUnsanctioned { account })
            },
    {
        match ensure_root(&origin) {
            Ok(()) => {},
            Err(_) => return Err(KycError::BadOrigin),
        }
        let _ = self.sanction_list.remove(&account);
        self.events.push(KycEvent::AccountUnsanctioned { account });
        Ok(())
    }

    /// The level of `account`, unverified without a record (expiry not considered).
    pub fn level_of(&self, account: AccountId) -> (l: KycLevel)
        requires
            self.wf(),
        ensures
            l == self.level_view(account),
    {
        match self.kyc_records.get(&account) {
            Some(r) => r.level,
            None => KycLevel::Unverified,
        }
    }

    /// Whether `account` is sanctioned.
    pub fn is_sanctioned(&self, account: AccountId) -> (b: bool)
        requires
            self.wf(),
        ensures
            b == self.sanction_list@.contains_key(account),
    {
        self.sanction_list.contains_key(&account)
    }

    /// Whether `account` has a record that expired before `now` (no record: not expired).
    pub fn is_expired(&self, account: AccountId, now: BlockNumber) -> (b: bool)
        requires
            self.wf(),
        ensures
            b == self.expired_view(account, now),
    {
        match self.kyc_records.get(&account) {
            Some(r) => r.expires_at < now,
            None => false,
        }
    }

    /// Refuse `account` if it is sanctioned, if its record expired, or if its level is
    /// below `required` (without a record only `Unverified` is met).
    pub fn require_at_least(&self, account: AccountId, required: KycLevel, now: BlockNumber) -> (r: Result<(), KycError>)
        requires
            self.wf(),
        ensures
            match self.requirement_error(account, required, now) {
                Some(e) => r == Err::<(), KycError>(e),
                None => r is Ok,
            },
    {
        if self.sanction_list.contains_key(&account) {
            return Err(KycError::AccountSanctioned);
        }
        match self.kyc_records.get(&account) {
            None => {
                if required == KycLevel::Unverified {
                    Ok(())
                } else {
                    Err(KycError::KycBelowRequiredLevel)
                }
            },
            Some(record) => {
                if record.expires_at < now {
                    return Err(KycError::KycExpired);
                }
                if rank(record.level) < rank(required) {
                    return Err(KycError::KycBelowRequiredLevel);
                }
                Ok(())
            },
        }
    }
}

impl KycProvider for Kyc {
    open spec fn valid(&self) -> bool {
        self.wf()
    }

    open spec fn level_spec(&self, account: AccountId) -> KycLevel {
        self.level_view(account)
    }

    open spec fn sanctioned_spec(&self, account: AccountId) -> bool {
        self.sanction_list@.contains_key(account)
    }

    open spec fn expired_spec(&self, account: AccountId, now: BlockNumber) -> bool {
        self.expired_view(account, now)
    }

    open spec fn admits(&self, account: AccountId, required: KycLevel, now: BlockNumber) -> bool {
        self.requirement_error(account, required, now) is None
    }

    fn level_of(&self, account: AccountId) -> (r: KycLevel) {
        match self.kyc_records.get(&account) {
            Some(rec) => rec.level,
            None => KycLevel::Unverified,
        }
    }

    fn is_sanctioned(&self, account: AccountId) -> (r: bool) {
        self.sanction_list.contains_key(&account)
    }

    fn is_expired(&self, account: AccountId, now: BlockNumber) -> (r: bool) {
        match self.kyc_records.get(&account) {
            Some(rec) => rec.expires_at < now,
            None => false,
        }
    }

    fn require_at_least(&self, account: AccountId, required: KycLevel, now: BlockNumber) -> (r: Result<(), KycDenied>) {
        if self.sanction_list.contains_key(&account) {
            return Err(KycDenied);
        }
        match self.kyc_records.get(&account) {
            None => if required == KycLevel::Unverified { Ok(()) } else { Err(KycDenied) },
            Some(rec) => if rec.expires_at < now || rank(rec.level) < rank(required) { Err(KycDenied) } else { Ok(()) },
        }
    }
}

/// A sanctioned account has no record and gets none until it is removed from the list:
/// sanctioning removes its record, only `remove_from_sanction_list` takes it off the list
/// (every other call keeps the list, or adds to it), and while it is listed `set_kyc` on it
/// is refused (for any attestor that may submit) and `require_at_least` refuses it for
/// every level.
pub proof fn lemma_sanction_blocks(s: Kyc, account: AccountId, origin: Origin, now: BlockNumber, record: KycRecord, required: KycLevel)
    requires
        s.wf(),
        s.sanction_list@.contains_key(account),
        origin is Signed && s.attestors@.contains_key(origin->Signed_0),
    ensures
        !s.kyc_records@.contains_key(account),
        s.set_kyc_error(origin, now, account, record) == Some(KycError::AccountSanctioned),
        s.requirement_error(account, required, now) == Some(KycError::AccountSanctioned),
{
}

/// Fixed weights of the KYC calls: each costs 10 000 picoseconds of reference time.
#[derive(Clone, Copy, Debug)]
pub struct SubstrateWeight;

impl SubstrateWeight {
    pub fn set_kyc() -> (w: Weight)
        ensures
            w == (Weight { ref_time: 10_000, proof_size: 0 }),
    {
        Weight::from_parts(10_000, 0)
    }

    pub fn revoke_kyc() -> (w: Weight)
        ensures
            w == (Weight { ref_time: 10_000, proof_size: 0 }),
    {
        Weight::from_parts(10_000, 0)
    }

    pub fn add_attestor() -> (w: Weight)
        ensures
            w == (Weight { ref_time: 10_000, proof_size: 0 }),
    {
        Weight::from_parts(10_000, 0)
    }

    pub fn remove_attestor() -> (w: Weight)
        ensures
            w == (Weight { ref_time: 10_000, proof_size: 0 }),
    {
        Weight::from_parts(10_000, 0)
    }

    pub fn add_to_sanction_list() -> (w: Weight)
        ensures
            w == (Weight { ref_time: 10_000, proof_size: 0 }),
    {
        Weight::from_parts(10_000, 0)
    }

    pub fn remove_from_sanction_list() -> (w: Weight)
        ensures
            w == (Weight { ref_time: 10_000, proof_size: 0 }),
    {
        Weight::from_parts(10_000, 0)
    }
}

/// The KYC levels in their declared order, lowest first.
pub open spec fn kyc_levels_in_order() -> Seq<KycLevel> {
    seq![KycLevel::Unverified, KycLevel::Basic, KycLevel::Enhanced, KycLevel::Institutional]
}

/// A requirement is met by a level at or above it in the declared order, and only by
/// such a level: for an unsanctioned account with an unexpired record at the `i`-th level,
/// requiring the `j`-th level is refused with `KycBelowRequiredLevel` exactly when `i < j`
/// (`require_at_least`, and the KYC gate of share mints and transfers, follow it).
pub proof fn lemma_requirement_follows_level_order(s: Kyc, account: AccountId, now: BlockNumber, i: int, j: int)
    requires
        0 <= i < 4,
        0 <= j < 4,
        !s.sanction_list@.contains_key(account),
        s.kyc_records@.contains_key(account),
        s.kyc_records@[account].expires_at >= now,
        s.kyc_records@[account].level == kyc_levels_in_order()[i],
    ensures
        s.requirement_error(account, kyc_levels_in_order()[j], now)
            == if i >= j { None } else { Some(KycError::KycBelowRequiredLevel) },
{
    let l = kyc_levels_in_order();
    assert(l[0] == KycLevel::Unverified && l[1] == KycLevel::Basic && l[2] == KycLevel::Enhanced
        && l[3] == KycLevel::Institutional);
}

} // verus!
