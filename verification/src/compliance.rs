//! Compliance: admins record each account's KYC level, signed callers check a payment
//! against the policy of a jurisdiction, and every action lands in a bounded audit
//! trail that drops its oldest entry when full.

use vstd::prelude::*;
use crate::common::{AccountId, BlockNumber, Hash32, Origin, OriginRule, sat_add};
use crate::crypto::{blake2_256, blake2_256_of, digest, lemma_digest};
use crate::scale::{enc_bytes, push_bytes};
use crate::table::Table;

verus! {

/// KYC level of an account, ordered as declared.
#[derive(Clone, Copy, Debug, PartialEq, Eq, Structural, PartialOrd, Ord)]
pub enum KYCLevel {
    /// No verification.
    Unverified,
    Basic,
    Enhanced,
    BusinessVerified,
    GovernmentVerified,
}

impl Default for KYCLevel {
    fn default() -> (r: Self)
        ensures
            r == KYCLevel::Unverified,
    {
        KYCLevel::Unverified
    }
}

/// Rank of a level in the declared order.
pub open spec fn level_rank(l: KYCLevel) -> u8 {
    match l {
        KYCLevel::Unverified => 0,
        KYCLevel::Basic => 1,
        KYCLevel::Enhanced => 2,
        KYCLevel::BusinessVerified => 3,
        KYCLevel::GovernmentVerified => 4,
    }
}

/// Rank of a level in the declared order.
pub fn level_rank_of(l: KYCLevel) -> (r: u8)
    ensures
        r == level_rank(l),
{
    match l {
        KYCLevel::Unverified => 0,
        KYCLevel::Basic => 1,
        KYCLevel::Enhanced => 2,
        KYCLevel::BusinessVerified => 3,
        KYCLevel::GovernmentVerified => 4,
    }
}

/// Outcome of a compliance check.
#[derive(Clone, Copy, Debug, PartialEq, Eq, Structural)]
pub enum ComplianceResult {
    Approved,
    Rejected,
}

/// The rules of a jurisdiction.
#[derive(Debug)]
pub struct CompliancePolicy {
    pub jurisdiction: Vec<u8>,
    pub min_kyc_level: KYCLevel,
    /// Largest single payment; zero means no limit.
    pub max_single_tx: u128,
    pub max_daily: u128,
    pub aml_required: bool,
    pub updated_by: AccountId,
    pub updated_at: BlockNumber,
}

/// One entry of the audit trail.
#[derive(Debug)]
pub struct AuditEntry {
    pub account: AccountId,
    pub event_type: Vec<u8>,
    pub result: Option<ComplianceResult>,
    pub block: BlockNumber,
}

/// Events of the compliance pallet.
#[derive(Debug)]
pub enum ComplianceEvent {
    KYCStatusSet { account: AccountId, level: KYCLevel },
    ComplianceChecked { account: AccountId, result: ComplianceResult },
    ComplianceEventLogged { account: AccountId, event_type: Vec<u8> },
    PolicyUpdated { jurisdiction_hash: Hash32 },
}

/// Errors of the compliance pallet.
#[derive(Clone, Copy, Debug, PartialEq, Eq, Structural)]
pub enum ComplianceError {
    BadOrigin,
    InsufficientKYC,
    JurisdictionNotFound,
    AMLCheckFailed,
    SingleTxLimitExceeded,
    DailyLimitExceeded,
    AuditTrailFull,
    PolicyStorageFull,
}

/// Constants of the compliance pallet.
#[derive(Clone, Copy, Debug)]
pub struct ComplianceConfig {
    /// Who may set KYC levels.
    pub admin_origin: OriginRule,
    pub max_jurisdiction_len: u32,
    pub max_event_type_len: u32,
    /// Most audit entries kept.
    pub max_audit_entries: u32,
    pub max_policies: u32,
}

/// The compliance storage.
pub struct Compliance {
    pub config: ComplianceConfig,
    /// KYC level by account (missing means unverified).
    pub kyc_status_map: Table<AccountId, KYCLevel>,
    /// Policies by jurisdiction hash.
    pub compliance_policies: Table<Hash32, CompliancePolicy>,
    pub policy_keys: Vec<Hash32>,
    /// The most recent audit entries, oldest first.
    pub audit_trail: Vec<AuditEntry>,
    /// Audit entries ever appended, saturating.
    pub audit_count: u64,
    /// Deposited events, oldest first.
    pub events: Vec<ComplianceEvent>,
}

/// The bytes of `kyc_update`.
pub open spec fn kyc_update_tag() -> Seq<u8> {
    seq![107u8, 121, 99, 95, 117, 112, 100, 97, 116, 101]
}

/// The bytes of `compliance_check`.
pub open spec fn compliance_check_tag() -> Seq<u8> {
    seq![99u8, 111, 109, 112, 108, 105, 97, 110, 99, 101, 95, 99, 104, 101, 99, 107]
}

/// The key of a jurisdiction's policy: the BLAKE2-256 digest of its encoding.
pub open spec fn jurisdiction_hash_of(jurisdiction: Seq<u8>) -> Hash32 {
    digest(blake2_256_of(enc_bytes(jurisdiction)))
}

/// `new` is the trail `old` after appending an entry with the given fields: the entry
/// goes last, and when the trail was full its oldest entry is dropped; with room for no
/// entry at all the trail stays as it is.
pub open spec fn appended(old: Seq<AuditEntry>, new: Seq<AuditEntry>, max: u32, account: AccountId, event_type: Seq<u8>, result: Option<ComplianceResult>, block: BlockNumber) -> bool {
    if max == 0 {
        new == old
    } else {
        &&& new.len() >= 1
        &&& new.drop_last() == (if old.len() < max { old } else { old.drop_first() })
        &&& new.last().account == account
        &&& new.last().event_type@ == event_type
        &&& new.last().result == result
        &&& new.last().block == block
    }
}

/// The policy key of a jurisdiction.
pub fn jurisdiction_hash(jurisdiction: &[u8]) -> (h: Hash32)
    requires
        jurisdiction@.len() <= u32::MAX,
    ensures
        h == jurisdiction_hash_of(jurisdiction@),
{
    let mut buf: Vec<u8> = Vec::new();
    push_bytes(&mut buf, jurisdiction);
    let h = blake2_256(buf.as_slice());
    proof {
        lemma_digest(h);
    }
    h
}

/// Whether a check passes a policy: the level meets the minimum, AML passed where
/// required, and the amount within the single-payment limit (zero: none).
pub open spec fn passes(p: CompliancePolicy, level: KYCLevel, amount: u128, aml_passed: bool) -> bool {
    &&& level_rank(level) >= level_rank(p.min_kyc_level)
    &&& (!p.aml_required || aml_passed)
    &&& (p.max_single_tx == 0 || amount <= p.max_single_tx)
}

impl Compliance {
    /// Tables well formed and the trail within its bound.
    pub open spec fn wf(&self) -> bool {
        &&& self.kyc_status_map.wf()
        &&& self.compliance_policies.wf()
        &&& self.audit_trail@.len() <= self.config.max_audit_entries
    }

    /// KYC level of `account`.
    pub open spec fn level_view(&self, account: AccountId) -> KYCLevel {
        if self.kyc_status_map@.contains_key(account) { self.kyc_status_map@[account] } else { KYCLevel::Unverified }
    }

    /// An empty pallet.
    pub fn new(config: ComplianceConfig) -> (s: Self)
        ensures
            s.wf(),
            s.config == config,
            s.kyc_status_map@ == Map::<AccountId, KYCLevel>::empty(),
            s.compliance_policies@ == Map::<Hash32, CompliancePolicy>::empty(),
            s.audit_trail@ == Seq::<AuditEntry>::empty(),
            s.audit_count == 0,
            s.events@ == Seq::<ComplianceEvent>::empty(),
    {
        Compliance {
            config,
            kyc_status_map: Table::new(),
            compliance_policies: Table::new(),
            policy_keys: Vec::new(),
            audit_trail: Vec::new(),
            audit_count: 0,
            events: Vec::new(),
        }
    }

    /// Append an audit entry, dropping the oldest one when the trail is full.
    fn append_audit(&mut self, entry: AuditEntry)
        requires
            old(self).wf(),
        ensures
            final(self).wf(),
            appended(old(self).audit_trail@, final(self).audit_trail@, old(self).config.max_audit_entries,
                entry.account, entry.event_type@, entry.result, entry.block),
            final(self).audit_count == sat_add(old(self).audit_count as int, 1, u64::MAX as int),
            final(self).config == old(self).config,
            final(self).kyc_status_map@ == old(self).kyc_status_map@,
            final(self).compliance_policies@ == old(self).compliance_policies@,
            final(self).events@ == old(self).events@,
    {
        let max = self.config.max_audit_entries as usize;
        let ghost fields = (entry.account, entry.event_type@, entry.result, entry.block);
        if self.audit_trail.len() < max {
            self.audit_trail.push(entry);
            assert(self.audit_trail@.drop_last() =~= old(self).audit_trail@);
        } else if self.audit_trail.len() > 0 {
            let _ = self.audit_trail.remove(0);
            self.audit_trail.push(entry);
            assert(self.audit_trail@.drop_last() =~= old(self).audit_trail@.drop_first());
        }
        self.audit_count = self.audit_count.saturating_add(1);
    }

    /// Set the KYC level of an account (admin origin only); audited as `kyc_update`.
    pub fn set_kyc_status(&mut self, origin: Origin, now: BlockNumber, account: AccountId, level: KYCLevel) -> (r: Result<(), ComplianceError>)
        requires
            old(self).wf(),
            old(self).config.max_event_type_len >= 10,
        ensures
            final(self).wf(),
            !old(self).config.admin_origin.allows(origin) ==> r == Err::<(), ComplianceError>(ComplianceError::BadOrigin) && *final(self) == *old(self),
            old(self).config.admin_origin.allows(origin) ==> {
                &&& r is Ok
                &&& final(self).kyc_status_map@ == old(self).kyc_status_map@.insert(account, level)
                &&& appended(old(self).audit_trail@, final(self).audit_trail@, old(self).config.max_audit_entries,
                    account, kyc_update_tag(), None, now)
                &&& final(self).audit_count == sat_add(old(self).audit_count as int, 1, u64::MAX as int)
                &&& final(self).compliance_policies@ == old(self).compliance_policies@
                &&& final(self).config == old(self).config
                &&& final(self).events@ == old(self).events@.push(ComplianceEvent::KYCStatusSet { account, level })
            },
    {
        match self.config.admin_origin.ensure_origin(&origin) {
            Ok(()) => {},
            Err(_) => return Err(ComplianceError::BadOrigin),
        }
        self.kyc_status_map.insert(account, level);
        let event_type = vec![107u8, 121, 99, 95, 117, 112, 100, 97, 116, 101];
        assert(event_type@ =~= kyc_update_tag());
        self.append_audit(AuditEntry { account, event_type, result: None, block: now });
        self.events.push(ComplianceEvent::KYCStatusSet { account, level });
        Ok(())
    }

    /// The error `check_compliance` reports, if any.
    pub open spec fn check_error(&self, origin: Origin, jurisdiction: Seq<u8>) -> Option<ComplianceError> {
        if !(origin is Signed) {
            Some(ComplianceError::BadOrigin)
        } else if !self.compliance_policies@.contains_key(jurisdiction_hash_of(jurisdiction)) {
            Some(ComplianceError::JurisdictionNotFound)
        } else {
            None
        }
    }

    /// Check a payment of `amount` by `account` against the policy of a jurisdiction
    /// (any signed origin); the verdict is audited as `compliance_check` and announced.
    pub fn check_compliance(&mut self, origin: Origin, now: BlockNumber, account: AccountId, jurisdiction: Vec<u8>, amount: u128, aml_passed: bool) -> (r: Result<(), ComplianceError>)
        requires
            old(self).wf(),
            old(self).config.max_event_type_len >= 16,
            jurisdiction@.len() <= old(self).config.max_jurisdiction_len,
        ensures
            final(self).wf(),
            match old(self).check_error(origin, jurisdiction@) {
                Some(e) => r == Err::<(), ComplianceError>(e) && *final(self) == *old(self),
                None => {
                    let p = old(self).compliance_policies@[jurisdiction_hash_of(jurisdiction@)];
                    let result = if passes(p, old(self).level_view(account), amount, aml_passed) {
                        ComplianceResult::Approved
                    } else {
                        ComplianceResult::Rejected
                    };
                    &&& r is Ok
                    &&& appended(old(self).audit_trail@, final(self).audit_trail@, old(self).config.max_audit_entries,
                        account, compliance_check_tag(), Some(result), now)
                    &&& final(self).audit_count == sat_add(old(self).audit_count as int, 1, u64::MAX as int)
                    &&& final(self).kyc_status_map@ == old(self).kyc_status_map@
                    &&& final(self).compliance_policies@ == old(self).compliance_policies@
                    &&& final(self).config == old(self).config
                    &&& final(self).events@ == old(self).events@.push(ComplianceEvent::ComplianceChecked { account, result })
                },
            },
    {
        match origin {
            Origin::Signed(_) => {},
            _ => return Err(ComplianceError::BadOrigin),
        }
        let level = match self.kyc_status_map.get(&account) {
            Some(l) => *l,
            None => KYCLevel::Unverified,
        };
        let h = jurisdiction_hash(jurisdiction.as_slice());
        let (min_level, aml_required, max_single_tx) = match self.compliance_policies.get(&h) {
            Some(p) => (p.min_kyc_level, p.aml_required, p.max_single_tx),
            None => return Err(ComplianceError::JurisdictionNotFound),
        };
        let kyc_ok = level_rank_of(level) >= level_rank_of(min_level);
        let aml_ok = !aml_required || aml_passed;
        let limits_ok = max_single_tx == 0 || amount <= max_single_tx;
        let result = if kyc_ok && aml_ok && limits_ok { ComplianceResult::Approved } else { ComplianceResult::Rejected };
        let event_type = vec![99u8, 111, 109, 112, 108, 105, 97, 110, 99, 101, 95, 99, 104, 101, 99, 107];
        assert(event_type@ =~= compliance_check_tag());
        self.append_audit(AuditEntry { account, event_type, result: Some(result), block: now });
        self.events.push(ComplianceEvent::ComplianceChecked { account, result });
        Ok(())
    }

    /// Record a compliance event about an account (any signed origin) in the audit
    /// trail, and announce it.
    pub fn log_compliance_event(&mut self, origin: Origin, now: BlockNumber, account: AccountId, event_type: Vec<u8>) -> (r: Result<(), ComplianceError>)
        requires
            old(self).wf(),
            event_type@.len() <= old(self).config.max_event_type_len,
        ensures
            final(self).wf(),
            !(origin is Signed) ==> r == Err::<(), ComplianceError>(ComplianceError::BadOrigin) && *final(self) == *old(self),
            origin is Signed ==> {
                &&& r is Ok
                &&& appended(old(self).audit_trail@, final(self).audit_trail@, old(self).config.max_audit_entries,
                    account, event_type@, None, now)
                &&& final(self).audit_count == sat_add(old(self).audit_count as int, 1, u64::MAX as int)
                &&& final(self).kyc_status_map@ == old(self).kyc_status_map@
                &&& final(self).compliance_policies@ == old(self).compliance_policies@
                &&& final(self).config == old(self).config
                &&& final(self).events@.len() == old(self).events@.len() + 1
                &&& final(self).events@.drop_last() == old(self).events@
                &&& final(self).events@.last() matches ComplianceEvent::ComplianceEventLogged { account: a, event_type: t }
                    && a == account && t@ == event_type@
            },
    {
        match origin {
            Origin::Signed(_) => {},
            _ => return Err(ComplianceError::BadOrigin),
        }
        let logged = event_type.clone();
        assert(logged@ =~= event_type@);
        self.append_audit(AuditEntry { account, event_type: logged, result: None, block: now });
        self.events.push(ComplianceEvent::ComplianceEventLogged { account, event_type });
        assert(self.events@.drop_last() =~= old(self).events@);
        Ok(())
    }
}

/// The KYC levels in their declared order, lowest first.
pub open spec fn kyc_levels_in_order() -> Seq<KYCLevel> {
    seq![KYCLevel::Unverified, KYCLevel::Basic, KYCLevel::Enhanced, KYCLevel::BusinessVerified,
        KYCLevel::GovernmentVerified]
}

/// A policy's KYC minimum follows the declared order of the levels: the `i`-th level
/// passes a policy whose minimum is the `j`-th only if `i >= j`, and, when the AML and
/// amount limits are met, it does pass whenever `i >= j`. So a check at a level below the
/// minimum is always `Rejected` (`check_compliance` approves exactly when `passes`).
pub proof fn lemma_policy_follows_level_order(p: CompliancePolicy, amount: u128, aml_passed: bool, i: int, j: int)
    requires
        0 <= i < 5,
        0 <= j < 5,
        p.min_kyc_level == kyc_levels_in_order()[j],
    ensures
        passes(p, kyc_levels_in_order()[i], amount, aml_passed) ==> i >= j,
        i >= j && (!p.aml_required || aml_passed) && (p.max_single_tx == 0 || amount <= p.max_single_tx)
            ==> passes(p, kyc_levels_in_order()[i], amount, aml_passed),
{
    let l = kyc_levels_in_order();
    assert(l[0] == KYCLevel::Unverified && l[1] == KYCLevel::Basic && l[2] == KYCLevel::Enhanced
        && l[3] == KYCLevel::BusinessVerified && l[4] == KYCLevel::GovernmentVerified);
}

} // verus!
