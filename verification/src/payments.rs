//! Payment intents and escrows: a sender announces a payment, then executes it as a
//! transfer; a depositor locks funds in escrow and releases them to a beneficiary before
//! the escrow expires.

use vstd::prelude::*;
use crate::common::{AccountId, Balance, BlockNumber, Hash32, Origin, ensure_signed};
use crate::crypto::{blake2_256, blake2_256_of, digest, lemma_digest};
use crate::ledger::{Ledger, BalanceError, apply_transfer, apply_unreserve, can_transfer, transfer_error};
use crate::scale::{enc_u64, push_u64};
use crate::table::Table;

verus! {

/// Who pays whom.
#[derive(Clone, Copy, Debug, PartialEq, Eq, Structural)]
pub enum FlowType {
    P2AI,
    B2AI,
    G2AI,
    AI2AI,
}

/// Compliance tier of a payment.
#[derive(Clone, Copy, Debug, PartialEq, Eq, Structural)]
pub enum ComplianceLevel {
    Basic,
    Business,
    Government,
}

/// Lifecycle of a payment intent.
#[derive(Clone, Copy, Debug, PartialEq, Eq, Structural)]
pub enum PaymentStatus {
    Pending,
    Authorized,
    Executing,
    Settled,
    Failed,
    Refunded,
}

/// An announced payment.
#[derive(Debug)]
pub struct PaymentIntent {
    pub id: Hash32,
    pub flow_type: FlowType,
    pub sender: AccountId,
    pub receiver: AccountId,
    pub amount: Balance,
    pub service_id: Vec<u8>,
    pub mandate_ref: Option<Hash32>,
    pub channel_id: Option<Hash32>,
    pub compliance_level: ComplianceLevel,
    pub status: PaymentStatus,
    pub created_at: BlockNumber,
}

/// Funds locked for a beneficiary.
#[derive(Clone, Copy, Debug)]
pub struct EscrowInfo {
    pub id: Hash32,
    pub depositor: AccountId,
    pub beneficiary: AccountId,
    pub amount: Balance,
    pub conditions_hash: Hash32,
    pub released: bool,
    pub created_at: BlockNumber,
    pub expires_at: BlockNumber,
}

/// Events of the payments pallet.
#[derive(Debug)]
pub enum PaymentsEvent {
    IntentCreated { id: Hash32, sender: AccountId, receiver: AccountId, amount: Balance, flow_type: FlowType },
    PaymentExecuted { id: Hash32, sender: AccountId, receiver: AccountId, amount: Balance },
    PaymentFailed { id: Hash32, reason: Vec<u8> },
    EscrowCreated { id: Hash32, depositor: AccountId, beneficiary: AccountId, amount: Balance, expires_at: BlockNumber },
    EscrowReleased { id: Hash32, beneficiary: AccountId, amount: Balance },
    EscrowRefunded { id: Hash32, depositor: AccountId, amount: Balance },
}

/// Errors of the payments pallet.
#[derive(Clone, Copy, Debug, PartialEq, Eq, Structural)]
pub enum PaymentsError {
    BadOrigin,
    IntentNotFound,
    InvalidPaymentStatus,
    EscrowNotFound,
    EscrowAlreadyReleased,
    NotAuthorized,
    ZeroAmount,
    NonceOverflow,
    ZeroDuration,
    EscrowExpired,
    EscrowNotExpired,
    InsufficientBalance,
    EmptyServiceId,
    /// A currency transfer failed.
    Balance(BalanceError),
}

/// Constants of the payments pallet.
#[derive(Clone, Copy, Debug)]
pub struct PaymentsConfig {
    /// Longest service id.
    pub max_service_id_length: u32,
}

/// The payments storage.
pub struct Payments {
    pub config: PaymentsConfig,
    /// Announced payments by id.
    pub payment_intents: Table<Hash32, PaymentIntent>,
    /// Copies of the settled payments by id.
    pub payments: Table<Hash32, PaymentIntent>,
    /// Escrows by id.
    pub escrow_accounts: Table<Hash32, EscrowInfo>,
    /// Counter that makes ids unique.
    pub payment_nonce: u64,
    /// Deposited events, oldest first.
    pub events: Vec<PaymentsEvent>,
}

/// The id of the `nonce`-th object created by `who`: the BLAKE2-256 digest of the
/// encoded pair `(who, nonce)`.
pub open spec fn payment_id_of(who: AccountId, nonce: u64) -> Hash32 {
    digest(blake2_256_of(enc_u64(who) + enc_u64(nonce)))
}

/// The reason a failed payment reports: the bytes of `transfer_failed`.
pub open spec fn transfer_failed_reason() -> Seq<u8> {
    seq![116u8, 114, 97, 110, 115, 102, 101, 114, 95, 102, 97, 105, 108, 101, 100]
}

/// Two intents agree in every field.
pub open spec fn same_intent(a: PaymentIntent, b: PaymentIntent) -> bool {
    &&& a.id == b.id
    &&& a.flow_type == b.flow_type
    &&& a.sender == b.sender
    &&& a.receiver == b.receiver
    &&& a.amount == b.amount
    &&& a.service_id@ == b.service_id@
    &&& a.mandate_ref == b.mandate_ref
    &&& a.channel_id == b.channel_id
    &&& a.compliance_level == b.compliance_level
    &&& a.status == b.status
    &&& a.created_at == b.created_at
}

/// `a` is `b` with another status.
pub open spec fn with_status(a: PaymentIntent, b: PaymentIntent, status: PaymentStatus) -> bool {
    &&& a.id == b.id
    &&& a.flow_type == b.flow_type
    &&& a.sender == b.sender
    &&& a.receiver == b.receiver
    &&& a.amount == b.amount
    &&& a.service_id@ == b.service_id@
    &&& a.mandate_ref == b.mandate_ref
    &&& a.channel_id == b.channel_id
    &&& a.compliance_level == b.compliance_level
    &&& a.status == status
    &&& a.created_at == b.created_at
}

/// Compute the id of the `nonce`-th object created by `who`.
pub fn generate_id(who: AccountId, nonce: u64) -> (id: Hash32)
    ensures
        id == payment_id_of(who, nonce),
{
    let mut buf: Vec<u8> = Vec::new();
    push_u64(&mut buf, who);
    push_u64(&mut buf, nonce);
    assert(buf@ =~= enc_u64(who) + enc_u64(nonce));
    let h = blake2_256(buf.as_slice());
    proof {
        lemma_digest(h);
    }
    h
}

/// The bytes of `transfer_failed`.
fn transfer_failed() -> (v: Vec<u8>)
    ensures
        v@ == transfer_failed_reason(),
{
    let v = vec![116u8, 114, 97, 110, 115, 102, 101, 114, 95, 102, 97, 105, 108, 101, 100];
    assert(v@ =~= transfer_failed_reason());
    v
}

/// A copy of an intent with another status.
fn restatus(i: &PaymentIntent, status: PaymentStatus) -> (r: PaymentIntent)
    ensures
        with_status(r, *i, status),
{
    let service_id = i.service_id.clone();
    assert(service_id@ =~= i.service_id@);
    PaymentIntent {
        id: i.id,
        flow_type: i.flow_type,
        sender: i.sender,
        receiver: i.receiver,
        amount: i.amount,
        service_id,
        mandate_ref: i.mandate_ref,
        channel_id: i.channel_id,
        compliance_level: i.compliance_level,
        status,
        created_at: i.created_at,
    }
}

impl Payments {
    /// All tables are well formed.
    pub open spec fn wf(&self) -> bool {
        &&& self.payment_intents.wf()
        &&& self.payments.wf()
        &&& self.escrow_accounts.wf()
    }

    /// Everything but the intents and events is as in `other`.
    pub open spec fn same_but_intents(&self, other: &Self) -> bool {
        &&& self.config == other.config
        &&& self.payments@ == other.payments@
        &&& self.escrow_accounts@ == other.escrow_accounts@
        &&& self.payment_nonce == other.payment_nonce
    }

    /// An empty pallet.
    pub fn new(config: PaymentsConfig) -> (s: Self)
        ensures
            s.wf(),
            s.config == config,
            s.payment_intents@ == Map::<Hash32, PaymentIntent>::empty(),
            s.payments@ == Map::<Hash32, PaymentIntent>::empty(),
            s.escrow_accounts@ == Map::<Hash32, EscrowInfo>::empty(),
            s.payment_nonce == 0,
            s.events@ == Seq::<PaymentsEvent>::empty(),
    {
        Payments {
            config,
            payment_intents: Table::new(),
            payments: Table::new(),
            escrow_accounts: Table::new(),
            payment_nonce: 0,
            events: Vec::new(),
        }
    }

    /// The error `create_intent` reports, if any.
    pub open spec fn create_intent_error(&self, origin: Origin, amount: Balance, service_id: Seq<u8>) -> Option<PaymentsError> {
        if !(origin is Signed) {
            Some(PaymentsError::BadOrigin)
        } else if amount == 0 {
            Some(PaymentsError::ZeroAmount)
        } else if service_id.len() == 0 {
            Some(PaymentsError::EmptyServiceId)
        } else if self.payment_nonce == u64::MAX {
            Some(PaymentsError::NonceOverflow)
        } else {
            None
        }
    }

    /// Store a new pending intent under `id` (the id of the current nonce) and advance
    /// the nonce.
    pub fn record_intent(&mut self, id: Hash32, sender: AccountId, to: AccountId, amount: Balance, service_id: Vec<u8>, flow_type: FlowType, mandate_ref: Option<Hash32>, now: BlockNumber)
        requires
            old(self).wf(),
            old(self).payment_nonce < u64::MAX,
        ensures
            final(self).wf(),
            final(self).payment_intents@.contains_key(id),
            final(self).payment_intents@ == old(self).payment_intents@.insert(id, final(self).payment_intents@[id]),
            ({
                let i = final(self).payment_intents@[id];
                &&& i.id == id && i.flow_type == flow_type && i.sender == sender && i.receiver == to
                &&& i.amount == amount && i.service_id@ == service_id@ && i.mandate_ref == mandate_ref
                &&& i.channel_id is None && i.compliance_level == ComplianceLevel::Basic
                &&& i.status == PaymentStatus::Pending && i.created_at == now
            }),
            final(self).payment_nonce == old(self).payment_nonce + 1,
            final(self).config == old(self).config,
            final(self).payments@ == old(self).payments@,
            final(self).escrow_accounts@ == old(self).escrow_accounts@,
            final(self).events@.len() == old(self).events@.len() + 1,
            final(self).events@.drop_last() == old(self).events@,
            final(self).events@.last() == (PaymentsEvent::IntentCreated { id, sender, receiver: to, amount, flow_type }),
    {
        let ghost sid = service_id@;
        self.payment_intents.insert(id, PaymentIntent {
            id,
            flow_type,
            sender,
            receiver: to,
            amount,
            service_id,
            mandate_ref,
            channel_id: None,
            compliance_level: ComplianceLevel::Basic,
            status: PaymentStatus::Pending,
            created_at: now,
        });
        self.payment_nonce = self.payment_nonce + 1;
        self.events.push(PaymentsEvent::IntentCreated { id, sender, receiver: to, amount, flow_type });
        assert(self.events@.drop_last() =~= old(self).events@);
    }

    /// Announce a payment of `amount` to `to` for a service (signed origin): the intent
    /// is stored as pending under the id of the caller and the current nonce.
    pub fn create_intent(&mut self, origin: Origin, now: BlockNumber, to: AccountId, amount: Balance, service_id: Vec<u8>, flow_type: FlowType, mandate_ref: Option<Hash32>) -> (r: Result<(), PaymentsError>)
        requires
            old(self).wf(),
            service_id@.len() <= old(self).config.max_service_id_length,
        ensures
            final(self).wf(),
            match old(self).create_intent_error(origin, amount, service_id@) {
                Some(e) => r == Err::<(), PaymentsError>(e) && *final(self) == *old(self),
                None => {
                    let sender = origin->Signed_0;
                    let id = payment_id_of(sender, old(self).payment_nonce);
                    let i = final(self).payment_intents@[id];
                    &&& r is Ok
                    &&& final(self).payment_intents@.contains_key(id)
                    &&& final(self).payment_intents@ == old(self).payment_intents@.insert(id, i)
                    &&& i.id == id && i.flow_type == flow_type && i.sender == sender && i.receiver == to
                    &&& i.amount == amount && i.service_id@ == service_id@ && i.mandate_ref == mandate_ref
                    &&& i.channel_id is None && i.compliance_level == ComplianceLevel::Basic
                    &&& i.status == PaymentStatus::Pending && i.created_at == now
                    &&& final(self).payment_nonce == old(self).payment_nonce + 1
                    &&& final(self).config == old(self).config
                    &&& final(self).payments@ == old(self).payments@
                    &&& final(self).escrow_accounts@ == old(self).escrow_accounts@
                    &&& final(self).events@ == old(self).events@.push(PaymentsEvent::IntentCreated { id, sender, receiver: to, amount, flow_type })
                },
            },
    {
        let sender = match ensure_signed(&origin) {
            Ok(w) => w,
            Err(_) => return Err(PaymentsError::BadOrigin),
        };
        if amount == 0 {
            return Err(PaymentsError::ZeroAmount);
        }
        if service_id.len() == 0 {
            return Err(PaymentsError::EmptyServiceId);
        }
        if self.payment_nonce == u64::MAX {
            return Err(PaymentsError::NonceOverflow);
        }
        let id = generate_id(sender, self.payment_nonce);
        self.record_intent(id, sender, to, amount, service_id, flow_type, mandate_ref, now);
        assert(self.events@ =~= old(self).events@.push(PaymentsEvent::IntentCreated { id, sender, receiver: to, amount, flow_type }));
        Ok(())
    }

    /// The error `execute_payment` reports, if any.
    pub open spec fn execute_error(&self, origin: Origin, payment_id: Hash32) -> Option<PaymentsError> {
        if !(origin is Signed) {
            Some(PaymentsError::BadOrigin)
        } else if !self.payment_intents@.contains_key(payment_id) {
            Some(PaymentsError::IntentNotFound)
        } else if origin->Signed_0 != self.payment_intents@[payment_id].sender {
            Some(PaymentsError::NotAuthorized)
        } else if !(self.payment_intents@[payment_id].status == PaymentStatus::Pending
            || self.payment_intents@[payment_id].status == PaymentStatus::Authorized) {
            Some(PaymentsError::InvalidPaymentStatus)
        } else {
            None
        }
    }

    /// Execute a pending or authorized intent (its sender only): the amount moves from
    /// sender to receiver, the sender kept alive. On success the intent is settled and
    /// copied to the settled payments; if the transfer fails the intent is marked failed
    /// and the call still succeeds.
    pub fn execute_payment(&mut self, ledger: &mut Ledger, origin: Origin, payment_id: Hash32) -> (r: Result<(), PaymentsError>)
        requires
            old(self).wf(),
            old(ledger).wf(),
        ensures
            final(self).wf(),
            final(ledger).wf(),
            final(ledger).ed() == old(ledger).ed(),
            match old(self).execute_error(origin, payment_id) {
                Some(e) => r == Err::<(), PaymentsError>(e) && *final(self) == *old(self) && *final(ledger) == *old(ledger),
                None => {
                    let i = old(self).payment_intents@[payment_id];
                    let n = final(self).payment_intents@[payment_id];
                    &&& r is Ok
                    &&& final(self).payment_intents@.contains_key(payment_id)
                    &&& final(self).payment_intents@ == old(self).payment_intents@.insert(payment_id, n)
                    &&& final(self).config == old(self).config
                    &&& final(self).escrow_accounts@ == old(self).escrow_accounts@
                    &&& final(self).payment_nonce == old(self).payment_nonce
                    &&& final(self).events@.len() == old(self).events@.len() + 1
                    &&& final(self).events@.drop_last() == old(self).events@
                    &&& if can_transfer(old(ledger)@, old(ledger).ed(), i.sender, i.receiver, i.amount, true) {
                        &&& final(ledger)@ == apply_transfer(old(ledger)@, old(ledger).ed(), i.sender, i.receiver, i.amount)
                        &&& with_status(n, i, PaymentStatus::Settled)
                        &&& final(self).payments@.contains_key(payment_id)
                        &&& final(self).payments@ == old(self).payments@.insert(payment_id, final(self).payments@[payment_id])
                        &&& same_intent(final(self).payments@[payment_id], n)
                        &&& final(self).events@.last() == (PaymentsEvent::PaymentExecuted {
                            id: payment_id, sender: i.sender, receiver: i.receiver, amount: i.amount })
                    } else {
                        &&& *final(ledger) == *old(ledger)
                        &&& with_status(n, i, PaymentStatus::Failed)
                        &&& final(self).payments@ == old(self).payments@
                        &&& final(self).events@.last() matches PaymentsEvent::PaymentFailed { id, reason }
                            && id == payment_id && reason@ == transfer_failed_reason()
                    }
                },
            },
    {
        let caller = match ensure_signed(&origin) {
            Ok(w) => w,
            Err(_) => return Err(PaymentsError::BadOrigin),
        };
        let (sender, receiver, amount, status) = match self.payment_intents.get(&payment_id) {
            Some(i) => (i.sender, i.receiver, i.amount, i.status),
            None => return Err(PaymentsError::IntentNotFound),
        };
        if caller != sender {
            return Err(PaymentsError::NotAuthorized);
        }
        if !(status == PaymentStatus::Pending || status == PaymentStatus::Authorized) {
            return Err(PaymentsError::InvalidPaymentStatus);
        }
        let pos_intent = self.payment_intents.take(&payment_id);
        let (pos, intent) = match pos_intent {
            Some(t) => t,
            None => return Err(PaymentsError::IntentNotFound),
        };
        match ledger.transfer(sender, receiver, amount, true) {
            Ok(()) => {
                let settled = restatus(&intent, PaymentStatus::Settled);
                let copy = restatus(&intent, PaymentStatus::Settled);
                self.payment_intents.put_back(pos, payment_id, settled);
                self.payments.insert(payment_id, copy);
                self.events.push(PaymentsEvent::PaymentExecuted { id: payment_id, sender, receiver, amount });
            },
            Err(_) => {
                let failed = restatus(&intent, PaymentStatus::Failed);
                self.payment_intents.put_back(pos, payment_id, failed);
                let reason = transfer_failed();
                self.events.push(PaymentsEvent::PaymentFailed { id: payment_id, reason });
            },
        }
        assert(self.events@.drop_last() =~= old(self).events@);
        Ok(())
    }

    /// The error `create_escrow` reports, if any.
    pub open spec fn create_escrow_error(&self, ledger: &Ledger, origin: Origin, amount: Balance, duration_blocks: BlockNumber) -> Option<PaymentsError> {
        if !(origin is Signed) {
            Some(PaymentsError::BadOrigin)
        } else if amount == 0 {
            Some(PaymentsError::ZeroAmount)
        } else if duration_blocks == 0 {
            Some(PaymentsError::ZeroDuration)
        } else if !(amount <= ledger.free_of(origin->Signed_0)
            && ledger.free_of(origin->Signed_0) - amount >= ledger.ed()
            && ledger.reserved_of(origin->Signed_0) + amount <= u128::MAX) {
            Some(PaymentsError::InsufficientBalance)
        } else if self.payment_nonce == u64::MAX {
            Some(PaymentsError::NonceOverflow)
        } else {
            None
        }
    }

    /// Lock `amount` of the caller's funds for `beneficiary` until `duration_blocks` from
    /// now; the escrow is stored under the id of the caller and the current nonce.
    pub fn create_escrow(&mut self, ledger: &mut Ledger, origin: Origin, now: BlockNumber, beneficiary: AccountId, amount: Balance, conditions_hash: Hash32, duration_blocks: BlockNumber) -> (r: Result<(), PaymentsError>)
        requires
            old(self).wf(),
            old(ledger).wf(),
            now + duration_blocks <= u64::MAX,
        ensures
            final(self).wf(),
            final(ledger).wf(),
            final(ledger).ed() == old(ledger).ed(),
            match old(self).create_escrow_error(old(ledger), origin, amount, duration_blocks) {
                Some(e) => r == Err::<(), PaymentsError>(e) && *final(self) == *old(self) && *final(ledger) == *old(ledger),
                None => {
                    let depositor = origin->Signed_0;
                    let id = payment_id_of(depositor, old(self).payment_nonce);
                    let expires_at = (now + duration_blocks) as BlockNumber;
                    &&& r is Ok
                    &&& final(ledger)@ == old(ledger)@.insert(depositor, crate::ledger::AccountData {
                        free: (old(ledger).free_of(depositor) - amount) as Balance,
                        reserved: (old(ledger).reserved_of(depositor) + amount) as Balance,
                    })
                    &&& final(self).escrow_accounts@ == old(self).escrow_accounts@.insert(id, EscrowInfo {
                        id, depositor, beneficiary, amount, conditions_hash, released: false, created_at: now, expires_at,
                    })
                    &&& final(self).payment_nonce == old(self).payment_nonce + 1
                    &&& final(self).config == old(self).config
                    &&& final(self).payment_intents@ == old(self).payment_intents@
                    &&& final(self).payments@ == old(self).payments@
                    &&& final(self).events@ == old(self).events@.push(PaymentsEvent::EscrowCreated { id, depositor, beneficiary, amount, expires_at })
                },
            },
    {
        let depositor = match ensure_signed(&origin) {
            Ok(w) => w,
            Err(_) => return Err(PaymentsError::BadOrigin),
        };
        if amount == 0 {
            return Err(PaymentsError::ZeroAmount);
        }
        if duration_blocks == 0 {
            return Err(PaymentsError::ZeroDuration);
        }
        let free = ledger.free_balance(depositor);
        let reserved = ledger.reserved_balance(depositor);
        if !(amount <= free && free - amount >= ledger.existential_deposit() && reserved <= u128::MAX - amount) {
            return Err(PaymentsError::InsufficientBalance);
        }
        if self.payment_nonce == u64::MAX {
            return Err(PaymentsError::NonceOverflow);
        }
        match ledger.reserve(depositor, amount) {
            Ok(()) => {},
            Err(_) => return Err(PaymentsError::InsufficientBalance),
        }
        let id = generate_id(depositor, self.payment_nonce);
        let expires_at = now + duration_blocks;
        self.escrow_accounts.insert(id, EscrowInfo {
            id,
            depositor,
            beneficiary,
            amount,
            conditions_hash,
            released: false,
            created_at: now,
            expires_at,
        });
        self.payment_nonce = self.payment_nonce + 1;
        self.events.push(PaymentsEvent::EscrowCreated { id, depositor, beneficiary, amount, expires_at });
        Ok(())
    }

    /// The error `release_escrow` reports before moving funds, if any.
    pub open spec fn release_error(&self, origin: Origin, now: BlockNumber, escrow_id: Hash32) -> Option<PaymentsError> {
        if !(origin is Signed) {
            Some(PaymentsError::BadOrigin)
        } else if !self.escrow_accounts@.contains_key(escrow_id) {
            Some(PaymentsError::EscrowNotFound)
        } else if origin->Signed_0 != self.escrow_accounts@[escrow_id].depositor {
            Some(PaymentsError::NotAuthorized)
        } else if self.escrow_accounts@[escrow_id].released {
            Some(PaymentsError::EscrowAlreadyReleased)
        } else if now > self.escrow_accounts@[escrow_id].expires_at {
            Some(PaymentsError::EscrowExpired)
        } else {
            None
        }
    }

    /// Release an escrow (its depositor only, before it expires): the amount is
    /// unreserved and transferred to the beneficiary, and the escrow marked released; if
    /// the transfer fails nothing changes.
    pub fn release_escrow(&mut self, ledger: &mut Ledger, origin: Origin, now: BlockNumber, escrow_id: Hash32) -> (r: Result<(), PaymentsError>)
        requires
            old(self).wf(),
            old(ledger).wf(),
        ensures
            final(self).wf(),
            final(ledger).wf(),
            final(ledger).ed() == old(ledger).ed(),
            match old(self).release_error(origin, now, escrow_id) {
                Some(e) => r == Err::<(), PaymentsError>(e) && *final(self) == *old(self) && *final(ledger) == *old(ledger),
                None => {
                    let e = old(self).escrow_accounts@[escrow_id];
                    let m1 = apply_unreserve(old(ledger)@, e.depositor, e.amount);
                    if !can_transfer(m1, old(ledger).ed(), e.depositor, e.beneficiary, e.amount, false) {
                        &&& r == Err::<(), PaymentsError>(PaymentsError::Balance(transfer_error(m1, old(ledger).ed(), e.depositor, e.beneficiary, e.amount, false)))
                        &&& *final(self) == *old(self) && *final(ledger) == *old(ledger)
                    } else {
                        &&& r is Ok
                        &&& final(ledger)@ == apply_transfer(m1, old(ledger).ed(), e.depositor, e.beneficiary, e.amount)
                        &&& final(self).escrow_accounts@ == old(self).escrow_accounts@.insert(escrow_id, EscrowInfo { released: true, ..e })
                        &&& final(self).config == old(self).config
                        &&& final(self).payment_intents@ == old(self).payment_intents@
                        &&& final(self).payments@ == old(self).payments@
                        &&& final(self).payment_nonce == old(self).payment_nonce
                        &&& final(self).events@ == old(self).events@.push(PaymentsEvent::EscrowReleased {
                            id: escrow_id, beneficiary: e.beneficiary, amount: e.amount })
                    }
                },
            },
    {
        let caller = match ensure_signed(&origin) {
            Ok(w) => w,
            Err(_) => return Err(PaymentsError::BadOrigin),
        };
        let e = match self.escrow_accounts.get(&escrow_id) {
            Some(e) => *e,
            None => return Err(PaymentsError::EscrowNotFound),
        };
        if caller != e.depositor {
            return Err(PaymentsError::NotAuthorized);
        }
        if e.released {
            return Err(PaymentsError::EscrowAlreadyReleased);
        }
        if now > e.expires_at {
            return Err(PaymentsError::EscrowExpired);
        }
        let mut scratch = ledger.copy();
        let _ = scratch.unreserve(e.depositor, e.amount);
        match scratch.transfer(e.depositor, e.beneficiary, e.amount, false) {
            Ok(()) => {},
            Err(err) => return Err(PaymentsError::Balance(err)),
        }
        *ledger = scratch;
        self.escrow_accounts.insert(escrow_id, EscrowInfo { released: true, ..e });
        self.events.push(PaymentsEvent::EscrowReleased { id: escrow_id, beneficiary: e.beneficiary, amount: e.amount });
        Ok(())
    }

    /// The error `refund_payment` reports, if any.
    pub open spec fn refund_error(&self, origin: Origin, payment_id: Hash32) -> Option<PaymentsError> {
        if !(origin is Signed) {
            Some(PaymentsError::BadOrigin)
        } else if !self.payment_intents@.contains_key(payment_id) {
            Some(PaymentsError::IntentNotFound)
        } else if origin->Signed_0 != self.payment_intents@[payment_id].sender
            && origin->Signed_0 != self.payment_intents@[payment_id].receiver {
            Some(PaymentsError::NotAuthorized)
        } else if self.payment_intents@[payment_id].status == PaymentStatus::Settled
            || self.payment_intents@[payment_id].status == PaymentStatus::Refunded {
            Some(PaymentsError::InvalidPaymentStatus)
        } else {
            None
        }
    }

    /// Mark an unsettled intent refunded (its sender or receiver only); no funds move.
    pub fn refund_payment(&mut self, origin: Origin, payment_id: Hash32, reason: Vec<u8>) -> (r: Result<(), PaymentsError>)
        requires
            old(self).wf(),
            reason@.len() <= 128,
        ensures
            final(self).wf(),
            match old(self).refund_error(origin, payment_id) {
                Some(e) => r == Err::<(), PaymentsError>(e) && *final(self) == *old(self),
                None => {
                    let i = old(self).payment_intents@[payment_id];
                    &&& r is Ok
                    &&& final(self).payment_intents@.contains_key(payment_id)
                    &&& final(self).payment_intents@ == old(self).payment_intents@.insert(payment_id, final(self).payment_intents@[payment_id])
                    &&& with_status(final(self).payment_intents@[payment_id], i, PaymentStatus::Refunded)
                    &&& final(self).same_but_intents(old(self))
                    &&& final(self).events@ == old(self).events@.push(PaymentsEvent::EscrowRefunded {
                        id: payment_id, depositor: i.sender, amount: i.amount })
                },
            },
    {
        let caller = match ensure_signed(&origin) {
            Ok(w) => w,
            Err(_) => return Err(PaymentsError::BadOrigin),
        };
        let (sender, receiver, amount, status) = match self.payment_intents.get(&payment_id) {
            Some(i) => (i.sender, i.receiver, i.amount, i.status),
            None => return Err(PaymentsError::IntentNotFound),
        };
        if caller != sender && caller != receiver {
            return Err(PaymentsError::NotAuthorized);
        }
        if status == PaymentStatus::Settled || status == PaymentStatus::Refunded {
            return Err(PaymentsError::InvalidPaymentStatus);
        }
        let (pos, intent) = match self.payment_intents.take(&payment_id) {
            Some(t) => t,
            None => return Err(PaymentsError::IntentNotFound),
        };
        let refunded = restatus(&intent, PaymentStatus::Refunded);
        self.payment_intents.put_back(pos, payment_id, refunded);
        self.events.push(PaymentsEvent::EscrowRefunded { id: payment_id, depositor: sender, amount });
        Ok(())
    }
}

/// A payment settles at most once: once executed successfully, executing it again is
/// refused with `InvalidPaymentStatus`, and refunding it too.
pub proof fn lemma_settled_payment_is_final(s0: Payments, s1: Payments, origin: Origin, payment_id: Hash32)
    requires
        s0.execute_error(origin, payment_id) is None,
        s1.payment_intents@.contains_key(payment_id),
        with_status(s1.payment_intents@[payment_id], s0.payment_intents@[payment_id], PaymentStatus::Settled),
    ensures
        s1.execute_error(origin, payment_id) == Some(PaymentsError::InvalidPaymentStatus),
        s1.refund_error(origin, payment_id) == Some(PaymentsError::InvalidPaymentStatus),
{
}

/// Every intent that is neither settled nor refunded, pending ones included, can be
/// refunded by its sender or its receiver: the refund is not refused, and it marks the
/// intent `Refunded`.
pub proof fn lemma_unsettled_intent_refundable(s: Payments, who: AccountId, payment_id: Hash32)
    requires
        s.payment_intents@.contains_key(payment_id),
        who == s.payment_intents@[payment_id].sender || who == s.payment_intents@[payment_id].receiver,
        s.payment_intents@[payment_id].status != PaymentStatus::Settled,
        s.payment_intents@[payment_id].status != PaymentStatus::Refunded,
    ensures
        s.refund_error(Origin::Signed(who), payment_id) is None,
{
}

} // verus!
