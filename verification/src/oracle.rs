//! Quorum price oracle: whitelisted updaters propose rates for a fixed catalogue of
//! asset pairs, and a rate becomes active once `quorum` distinct updaters agree on the
//! same value within the staleness window. Stale proposals are pruned on every proposal.

use vstd::prelude::*;
use crate::weights::Weight;
use crate::common::{AccountId, BlockNumber, Origin, ensure_root, ensure_signed, sat_sub};
use crate::table::{KeyEq, Table};

verus! {

/// An asset pair priced by the oracle, quoted in EUR micro-units.
#[derive(Clone, Copy, Debug, PartialEq, Eq, Structural)]
pub enum AssetPair {
    PlimEur,
    PeurEur,
    BtcEur,
    EthEur,
}

impl KeyEq for AssetPair {
    fn key_eq(&self, other: &Self) -> (r: bool) {
        *self == *other
    }
}

impl KeyEq for (AssetPair, AccountId) {
    fn key_eq(&self, other: &Self) -> (r: bool) {
        self.0 == other.0 && self.1 == other.1
    }
}

/// A rate that reached quorum.
#[derive(Clone, Debug)]
pub struct OracleRate {
    /// The agreed rate, scaled by 1_000_000.
    pub rate_micros: u64,
    /// Block at which quorum was reached.
    pub updated_at: BlockNumber,
    /// The updaters that agreed, in ascending order.
    pub quorum_attesters: Vec<AccountId>,
}

/// One updater's proposal awaiting quorum.
#[derive(Clone, Copy, Debug, PartialEq, Eq, Structural)]
pub struct PendingRate {
    pub rate_micros: u64,
    pub proposed_at: BlockNumber,
}

/// Events of the oracle.
#[derive(Clone, Debug)]
pub enum OracleEvent {
    RateProposed { pair: AssetPair, by: AccountId, rate_micros: u64 },
    RateUpdated { pair: AssetPair, rate_micros: u64, attesters: Vec<AccountId> },
    UpdaterAdded { updater: AccountId },
    UpdaterRemoved { updater: AccountId },
    QuorumChanged { new_quorum: u32 },
}

/// Errors of the oracle.
#[derive(Clone, Copy, Debug, PartialEq, Eq, Structural)]
pub enum OracleError {
    BadOrigin,
    NotUpdater,
    RateNotSet,
    StaleRate,
    BadQuorum,
    AlreadyUpdater,
    UpdatersFull,
    UnknownUpdater,
}

/// Constants of the oracle.
#[derive(Clone, Copy, Debug)]
pub struct OracleConfig {
    /// Most whitelisted updaters.
    pub max_updaters: u32,
    /// Blocks after which a proposal or an active rate is stale.
    pub staleness_window: BlockNumber,
}

/// The oracle storage.
pub struct Oracle {
    pub config: OracleConfig,
    /// Active rates by pair.
    pub rates: Table<AssetPair, OracleRate>,
    /// Pending proposals by (pair, updater).
    pub pending_rates: Table<(AssetPair, AccountId), PendingRate>,
    /// The updater whitelist.
    pub updaters: Table<AccountId, ()>,
    /// Agreeing updaters needed to activate a rate.
    pub quorum: u32,
    /// Deposited events, oldest first.
    pub events: Vec<OracleEvent>,
}

/// Blocks elapsed from `at` to `now` (zero when `at` is later).
pub open spec fn age(now: BlockNumber, at: BlockNumber) -> int {
    sat_sub(now as int, at as int)
}

/// The pending proposals with the stale ones of `pair` pruned.
pub open spec fn pruned(m: Map<(AssetPair, AccountId), PendingRate>, pair: AssetPair, now: BlockNumber, window: BlockNumber) -> Map<(AssetPair, AccountId), PendingRate> {
    m.remove_keys(Set::new(|k: (AssetPair, AccountId)| k.0 == pair && m.contains_key(k) && age(now, m[k].proposed_at) > window))
}

/// The updaters whose fresh proposal for `pair` is `rate`.
pub open spec fn agreeing(m: Map<(AssetPair, AccountId), PendingRate>, pair: AssetPair, rate: u64, now: BlockNumber, window: BlockNumber) -> Set<AccountId> {
    Set::new(|a: AccountId| m.contains_key((pair, a)) && m[(pair, a)].rate_micros == rate
        && age(now, m[(pair, a)].proposed_at) <= window)
}

/// The proposals of `pair` by the given accounts removed.
pub open spec fn without_pair_of(m: Map<(AssetPair, AccountId), PendingRate>, pair: AssetPair, accounts: Set<AccountId>) -> Map<(AssetPair, AccountId), PendingRate> {
    m.remove_keys(Set::new(|k: (AssetPair, AccountId)| k.0 == pair && accounts.contains(k.1)))
}

/// Strictly ascending.
pub open spec fn ascending(s: Seq<AccountId>) -> bool {
    forall|i: int, j: int| 0 <= i < j < s.len() ==> s[i] < s[j]
}

/// The updater set a genesis list yields: each account is added unless the set is full.
pub open spec fn genesis_updaters(us: Seq<AccountId>, max: u32) -> Set<AccountId>
    decreases us.len(),
{
    if us.len() == 0 {
        Set::empty()
    } else {
        let s = genesis_updaters(us.drop_last(), max);
        if s.len() < max || s.contains(us.last()) {
            s.insert(us.last())
        } else {
            s
        }
    }
}

/// Insert `x` into an ascending vector, keeping it ascending and without repeats.
fn insert_sorted(v: &mut Vec<AccountId>, x: AccountId)
    requires
        ascending(old(v)@),
    ensures
        ascending(final(v)@),
        forall|a: AccountId| final(v)@.contains(a) <==> old(v)@.contains(a) || a == x,
{
    let mut p: usize = 0;
    while p < v.len() && v[p] < x
        invariant
            0 <= p <= v@.len(),
            *v == *old(v),
            forall|i: int| 0 <= i < p ==> v@[i] < x,
        decreases v@.len() - p,
    {
        p = p + 1;
    }
    if p < v.len() && v[p] == x {
        assert(v@.contains(x)) by {
            assert(v@[p as int] == x);
        }
        return;
    }
    let ghost before = v@;
    v.insert(p, x);
    proof {
        assert forall|i: int| p < i < before.len() + 1 implies v@[i] > x by {
            assert(before[p as int] > x);
            if i > p + 1 {
                assert(before[p as int] < before[i - 1]);
            }
        }
        assert forall|a: AccountId| #![trigger v@.contains(a)] #![trigger old(v)@.contains(a)] v@.contains(a) <==> old(v)@.contains(a) || a == x by {
            if v@.contains(a) {
                let i = choose|i: int| 0 <= i < v@.len() && v@[i] == a;
                if i < p {
                    assert(before[i] == a);
                } else if i > p {
                    assert(before[i - 1] == a);
                }
            }
            if before.contains(a) {
                let i = choose|i: int| 0 <= i < before.len() && before[i] == a;
                if i < p {
                    assert(v@[i] == a);
                } else {
                    assert(v@[i + 1] == a);
                }
            }
            if a == x {
                assert(v@[p as int] == x);
            }
        }
        assert(before == old(v)@);
    }
}

impl Oracle {
    /// Tables well formed, the whitelist within its bound, and every pending proposal
    /// made by a current updater.
    pub open spec fn wf(&self) -> bool {
        &&& self.rates.wf()
        &&& self.pending_rates.wf()
        &&& self.updaters.wf()
        &&& self.updaters@.dom().len() <= self.config.max_updaters
        &&& forall|k: (AssetPair, AccountId)| #[trigger] self.pending_rates@.contains_key(k) ==> self.updaters@.contains_key(k.1)
    }

    /// The oracle at genesis: the initial updaters (as far as they fit) and quorum.
    pub fn genesis(config: OracleConfig, initial_updaters: &Vec<AccountId>, initial_quorum: u32) -> (s: Self)
        ensures
            s.wf(),
            s.config == config,
            s.updaters@.dom() == genesis_updaters(initial_updaters@, config.max_updaters),
            s.quorum == initial_quorum,
            s.rates@ == Map::<AssetPair, OracleRate>::empty(),
            s.pending_rates@ == Map::<(AssetPair, AccountId), PendingRate>::empty(),
            s.events@ == Seq::<OracleEvent>::empty(),
    {
        let mut updaters: Table<AccountId, ()> = Table::new();
        let mut i: usize = 0;
        while i < initial_updaters.len()
            invariant
                updaters.wf(),
                0 <= i <= initial_updaters@.len(),
                updaters@.dom() == genesis_updaters(initial_updaters@.take(i as int), config.max_updaters),
                updaters@.dom().len() <= config.max_updaters,
            decreases initial_updaters@.len() - i,
        {
            let u = initial_updaters[i];
            proof {
                assert(initial_updaters@.take(i + 1).drop_last() =~= initial_updaters@.take(i as int));
                updaters.lemma_view();
            }
            let n = updaters.len();
            if n < config.max_updaters as usize || updaters.contains_key(&u) {
                updaters.insert(u, ());
                proof {
                    assert(updaters@.dom() =~= genesis_updaters(initial_updaters@.take(i as int), config.max_updaters).insert(u));
                    updaters.lemma_view();
                }
            }
            i = i + 1;
        }
        assert(initial_updaters@.take(initial_updaters@.len() as int) =~= initial_updaters@);
        Oracle {
            config,
            rates: Table::new(),
            pending_rates: Table::new(),
            updaters,
            quorum: initial_quorum,
            events: Vec::new(),
        }
    }

    /// The accounts whose proposal for `pair` is stale at `now`.
    fn stale_accounts(&self, pair: AssetPair, now: BlockNumber) -> (v: Vec<AccountId>)
        requires
            self.wf(),
        ensures
            forall|a: AccountId| v@.contains(a) <==> self.pending_rates@.contains_key((pair, a))
                && age(now, self.pending_rates@[(pair, a)].proposed_at) > self.config.staleness_window,
    {
        let ghost e = self.pending_rates.entries_seq();
        proof {
            self.pending_rates.lemma_view();
        }
        let window = self.config.staleness_window;
        let len = self.pending_rates.len();
        let mut v: Vec<AccountId> = Vec::new();
        let mut i: usize = 0;
        while i < len
            invariant
                self.wf(),
                e == self.pending_rates.entries_seq(),
                len == e.len(),
                window == self.config.staleness_window,
                0 <= i <= len,
                forall|j: int| 0 <= j < e.len() ==> #[trigger] self.pending_rates@.contains_key(e[j].0)
                    && self.pending_rates@[e[j].0] == e[j].1,
                forall|a: AccountId| v@.contains(a) <==> exists|j: int| 0 <= j < i && #[trigger] e[j].0 == (pair, a)
                    && age(now, e[j].1.proposed_at) > window,
            decreases len - i,
        {
            let k = *self.pending_rates.key_at(i);
            let p = *self.pending_rates.value_at(i);
            let ghost before = v@;
            if k.0 == pair && now.saturating_sub(p.proposed_at) > window {
                v.push(k.1);
            }
            proof {
                assert forall|a: AccountId| v@.contains(a) <==> exists|j: int| 0 <= j < i + 1 && #[trigger] e[j].0 == (pair, a)
                    && age(now, e[j].1.proposed_at) > window by {
                    if v@.contains(a) && !before.contains(a) {
                        assert(v@.last() == a) by {
                            let t = choose|t: int| 0 <= t < v@.len() && v@[t] == a;
                            if t < before.len() {
                                assert(before[t] == a);
                            }
                        }
                        assert(e[i as int].0 == (pair, a));
                    }
                    if before.contains(a) {
                        let t = choose|t: int| 0 <= t < before.len() && before[t] == a;
                        assert(v@[t] == a);
                    }
                    if exists|j: int| 0 <= j < i + 1 && #[trigger] e[j].0 == (pair, a) && age(now, e[j].1.proposed_at) > window {
                        let j = choose|j: int| 0 <= j < i + 1 && #[trigger] e[j].0 == (pair, a) && age(now, e[j].1.proposed_at) > window;
                        if j == i {
                            assert(v@.last() == a);
                            assert(v@.contains(a));
                        }
                    }
                }
            }
            i = i + 1;
        }
        proof {
            assert forall|a: AccountId| v@.contains(a) <==> self.pending_rates@.contains_key((pair, a))
                && age(now, self.pending_rates@[(pair, a)].proposed_at) > window by {
                if self.pending_rates@.contains_key((pair, a)) {
                    let j = choose|j: int| 0 <= j < e.len() && #[trigger] e[j].0 == (pair, a);
                    assert(self.pending_rates@[e[j].0] == e[j].1);
                }
                if v@.contains(a) {
                    let j = choose|j: int| 0 <= j < i && #[trigger] e[j].0 == (pair, a) && age(now, e[j].1.proposed_at) > window;
                    assert(self.pending_rates@[e[j].0] == e[j].1);
                }
            }
        }
        v
    }

    /// The updaters whose fresh proposal for `pair` is `rate`, ascending.
    fn agreeing_accounts(&self, pair: AssetPair, rate: u64, now: BlockNumber) -> (v: Vec<AccountId>)
        requires
            self.wf(),
        ensures
            ascending(v@),
            forall|a: AccountId| v@.contains(a) <==> agreeing(self.pending_rates@, pair, rate, now, self.config.staleness_window).contains(a),
    {
        let ghost e = self.pending_rates.entries_seq();
        proof {
            self.pending_rates.lemma_view();
        }
        let window = self.config.staleness_window;
        let len = self.pending_rates.len();
        let mut v: Vec<AccountId> = Vec::new();
        let mut i: usize = 0;
        while i < len
            invariant
                self.wf(),
                e == self.pending_rates.entries_seq(),
                len == e.len(),
                window == self.config.staleness_window,
                0 <= i <= len,
                ascending(v@),
                forall|j: int| 0 <= j < e.len() ==> #[trigger] self.pending_rates@.contains_key(e[j].0)
                    && self.pending_rates@[e[j].0] == e[j].1,
                forall|a: AccountId| v@.contains(a) <==> exists|j: int| 0 <= j < i && #[trigger] e[j].0 == (pair, a)
                    && e[j].1.rate_micros == rate && age(now, e[j].1.proposed_at) <= window,
            decreases len - i,
        {
            let k = *self.pending_rates.key_at(i);
            let p = *self.pending_rates.value_at(i);
            let ghost before = v@;
            if k.0 == pair && p.rate_micros == rate && now.saturating_sub(p.proposed_at) <= window {
                insert_sorted(&mut v, k.1);
            }
            proof {
                assert forall|a: AccountId| v@.contains(a) <==> exists|j: int| 0 <= j < i + 1 && #[trigger] e[j].0 == (pair, a)
                    && e[j].1.rate_micros == rate && age(now, e[j].1.proposed_at) <= window by {
                    if v@.contains(a) && !before.contains(a) {
                        assert(e[i as int].0 == (pair, a));
                    }
                    if exists|j: int| 0 <= j < i + 1 && #[trigger] e[j].0 == (pair, a) && e[j].1.rate_micros == rate && age(now, e[j].1.proposed_at) <= window {
                        let j = choose|j: int| 0 <= j < i + 1 && #[trigger] e[j].0 == (pair, a) && e[j].1.rate_micros == rate && age(now, e[j].1.proposed_at) <= window;
                        if j < i {
                            assert(before.contains(a));
                        }
                    }
                }
            }
            i = i + 1;
        }
        proof {
            assert forall|a: AccountId| v@.contains(a) <==> agreeing(self.pending_rates@, pair, rate, now, window).contains(a) by {
                if agreeing(self.pending_rates@, pair, rate, now, window).contains(a) {
                    let j = choose|j: int| 0 <= j < e.len() && #[trigger] e[j].0 == (pair, a);
                    assert(self.pending_rates@[e[j].0] == e[j].1);
                }
                if v@.contains(a) {
                    let j = choose|j: int| 0 <= j < i && #[trigger] e[j].0 == (pair, a) && e[j].1.rate_micros == rate && age(now, e[j].1.proposed_at) <= window;
                    assert(self.pending_rates@[e[j].0] == e[j].1);
                }
            }
        }
        v
    }

    /// Remove the proposals of `pair` made by the given accounts.
    fn remove_pending_of(&mut self, pair: AssetPair, accounts: &Vec<AccountId>)
        requires
            old(self).wf(),
        ensures
            final(self).wf(),
            final(self).pending_rates@ == without_pair_of(old(self).pending_rates@, pair, accounts@.to_set()),
            final(self).config == old(self).config,
            final(self).rates@ == old(self).rates@,
            final(self).updaters@ == old(self).updaters@,
            final(self).quorum == old(self).quorum,
            final(self).events@ == old(self).events@,
    {
        let mut j: usize = 0;
        while j < accounts.len()
            invariant
                self.wf(),
                0 <= j <= accounts@.len(),
                self.pending_rates@ == without_pair_of(old(self).pending_rates@, pair, accounts@.take(j as int).to_set()),
                self.config == old(self).config,
                self.rates@ == old(self).rates@,
                self.updaters@ == old(self).updaters@,
                self.quorum == old(self).quorum,
                self.events@ == old(self).events@,
            decreases accounts@.len() - j,
        {
            let a = accounts[j];
            let _ = self.pending_rates.remove(&(pair, a));
            proof {
                assert(accounts@.take(j + 1) =~= accounts@.take(j as int).push(a));
                accounts@.take(j as int).lemma_push_to_set_commute(a);
                assert(accounts@.take(j + 1).to_set() =~= accounts@.take(j as int).to_set().insert(a));
                assert(self.pending_rates@ =~= without_pair_of(old(self).pending_rates@, pair, accounts@.take(j + 1).to_set()));
            }
            j = j + 1;
        }
        assert(accounts@.take(accounts@.len() as int) =~= accounts@);
    }

    /// The pending proposals once `who` proposed `rate` for `pair` at `now`.
    pub open spec fn proposal_pending(&self, who: AccountId, pair: AssetPair, rate: u64, now: BlockNumber) -> Map<(AssetPair, AccountId), PendingRate> {
        pruned(self.pending_rates@, pair, now, self.config.staleness_window).insert(
            (pair, who), PendingRate { rate_micros: rate, proposed_at: now })
    }

    /// The error `propose_rate` reports, if any.
    pub open spec fn propose_error(&self, origin: Origin) -> Option<OracleError> {
        if !(origin is Signed) {
            Some(OracleError::BadOrigin)
        } else if !self.updaters@.contains_key(origin->Signed_0) {
            Some(OracleError::NotUpdater)
        } else {
            None
        }
    }

    /// Propose a rate for `pair` (updaters only). Stale proposals of the pair are pruned
    /// and the caller's proposal recorded; if `quorum` (when not zero) updaters now agree
    /// on `rate_micros`, it becomes the active rate with the agreeing updaters, in
    /// ascending order, as attesters, and their proposals for the pair are cleared.
    #[verifier::rlimit(40)]
    pub fn propose_rate(&mut self, origin: Origin, now: BlockNumber, pair: AssetPair, rate_micros: u64) -> (r: Result<(), OracleError>)
        requires
            old(self).wf(),
        ensures
            final(self).wf(),
            match old(self).propose_error(origin) {
                Some(e) => r == Err::<(), OracleError>(e) && *final(self) == *old(self),
                None => {
                    let who = origin->Signed_0;
                    let p1 = old(self).proposal_pending(who, pair, rate_micros, now);
                    let agree = agreeing(p1, pair, rate_micros, now, old(self).config.staleness_window);
                    let proposed = old(self).events@.push(OracleEvent::RateProposed { pair, by: who, rate_micros });
                    &&& r is Ok
                    &&& final(self).config == old(self).config
                    &&& final(self).updaters@ == old(self).updaters@
                    &&& final(self).quorum == old(self).quorum
                    &&& agree.finite()
                    &&& if old(self).quorum > 0 && agree.len() >= old(self).quorum {
                        let att = final(self).rates@[pair].quorum_attesters@;
                        &&& final(self).rates@.contains_key(pair)
                        &&& final(self).rates@ == old(self).rates@.insert(pair, final(self).rates@[pair])
                        &&& final(self).rates@[pair].rate_micros == rate_micros
                        &&& final(self).rates@[pair].updated_at == now
                        &&& ascending(att)
                        &&& att.to_set() == agree
                        &&& final(self).pending_rates@ == without_pair_of(p1, pair, agree)
                        &&& final(self).events@.len() == proposed.len() + 1
                        &&& final(self).events@.drop_last() == proposed
                        &&& final(self).events@.last() matches OracleEvent::RateUpdated { pair: p, rate_micros: m, attesters }
                            && p == pair && m == rate_micros && attesters@ == att
                    } else {
                        &&& final(self).rates@ == old(self).rates@
                        &&& final(self).pending_rates@ == p1
                        &&& final(self).events@ == proposed
                    }
                },
            },
    {
        let who = match ensure_signed(&origin) {
            Ok(w) => w,
            Err(_) => return Err(OracleError::BadOrigin),
        };
        if !self.updaters.contains_key(&who) {
            return Err(OracleError::NotUpdater);
        }
        let ghost window = self.config.staleness_window;
        let stale = self.stale_accounts(pair, now);
        self.remove_pending_of(pair, &stale);
        assert(self.pending_rates@ =~= pruned(old(self).pending_rates@, pair, now, window));
        self.pending_rates.insert((pair, who), PendingRate { rate_micros, proposed_at: now });
        self.events.push(OracleEvent::RateProposed { pair, by: who, rate_micros });
        let ghost p1 = self.pending_rates@;
        let ghost agree = agreeing(p1, pair, rate_micros, now, window);
        let attesters = self.agreeing_accounts(pair, rate_micros, now);
        proof {
            assert(attesters@.to_set() =~= agree);
            assert(attesters@.no_duplicates()) by {
                assert forall|i: int, j: int| 0 <= i < attesters@.len() && 0 <= j < attesters@.len() && i != j
                    implies attesters@[i] != attesters@[j] by {
                    if i < j {
                        assert(attesters@[i] < attesters@[j]);
                    } else {
                        assert(attesters@[j] < attesters@[i]);
                    }
                }
            }
            attesters@.unique_seq_to_set();
        }
        let q = self.quorum as usize;
        if q > 0 && attesters.len() >= q {
            let bounded = attesters.clone();
            assert(bounded@ =~= attesters@);
            self.rates.insert(pair, OracleRate { rate_micros, updated_at: now, quorum_attesters: bounded });
            self.remove_pending_of(pair, &attesters);
            self.events.push(OracleEvent::RateUpdated { pair, rate_micros, attesters });
        }
        Ok(())
    }

    /// The error `add_updater` reports, if any.
    pub open spec fn add_updater_error(&self, origin: Origin, new_updater: AccountId) -> Option<OracleError> {
        if !(origin is Root) {
            Some(OracleError::BadOrigin)
        } else if self.updaters@.contains_key(new_updater) {
            Some(OracleError::AlreadyUpdater)
        } else if self.updaters@.dom().len() >= self.config.max_updaters {
            Some(OracleError::UpdatersFull)
        } else {
            None
        }
    }

    /// Whitelist an updater (root only).
    pub fn add_updater(&mut self, origin: Origin, new_updater: AccountId) -> (r: Result<(), OracleError>)
        requires
            old(self).wf(),
        ensures
            final(self).wf(),
            match old(self).add_updater_error(origin, new_updater) {
                Some(e) => r == Err::<(), OracleError>(e) && *final(self) == *old(self),
                None => {
                    &&& r is Ok
                    &&& final(self).updaters@ == old(self).updaters@.insert(new_updater, ())
                    &&& final(self).config == old(self).config
                    &&& final(self).rates@ == old(self).rates@
                    &&& final(self).pending_rates@ == old(self).pending_rates@
                    &&& final(self).quorum == old(self).quorum
                    &&& final(self).events@ == old(self).events@.push(OracleEvent::UpdaterAdded { updater: new_updater })
                },
            },
    {
        match ensure_root(&origin) {
            Ok(()) => {},
            Err(_) => return Err(OracleError::BadOrigin),
        }
        if self.updaters.contains_key(&new_updater) {
            return Err(OracleError::AlreadyUpdater);
        }
        if self.updaters.len() >= self.config.max_updaters as usize {
            return Err(OracleError::UpdatersFull);
        }
        self.updaters.insert(new_updater, ());
        proof {
            self.updaters.lemma_view();
            old(self).updaters.lemma_view();
        }
        self.events.push(OracleEvent::UpdaterAdded { updater: new_updater });
        Ok(())
    }

    /// The error `remove_updater` reports, if any.
    pub open spec fn remove_updater_error(&self, origin: Origin, updater: AccountId) -> Option<OracleError> {
        if !(origin is Root) {
            Some(OracleError::BadOrigin)
        } else if !self.updaters@.contains_key(updater) {
            Some(OracleError::UnknownUpdater)
        } else {
            None
        }
    }

    /// Remove an updater (root only), with its pending proposals for every pair.
    pub fn remove_updater(&mut self, origin: Origin, updater: AccountId) -> (r: Result<(), OracleError>)
        requires
            old(self).wf(),
        ensures
            final(self).wf(),
            match old(self).remove_updater_error(origin, updater) {
                Some(e) => r == Err::<(), OracleError>(e) && *final(self) == *old(self),
                None => {
                    &&& r is Ok
                    &&& final(self).updaters@ == old(self).updaters@.remove(updater)
                    &&& final(self).pending_rates@ == old(self).pending_rates@.remove_keys(
                        Set::new(|k: (AssetPair, AccountId)| k.1 == updater))
                    &&& final(self).config == old(self).config
                    &&& final(self).rates@ == old(self).rates@
                    &&& final(self).quorum == old(self).quorum
                    &&& final(self).events@ == old(self).events@.push(OracleEvent::UpdaterRemoved { updater })
                },
            },
    {
        match ensure_root(&origin) {
            Ok(()) => {},
            Err(_) => return Err(OracleError::BadOrigin),
        }
        if !self.updaters.contains_key(&updater) {
            return Err(OracleError::UnknownUpdater);
        }
        let _ = self.pending_rates.remove(&(AssetPair::PlimEur, updater));
        let _ = self.pending_rates.remove(&(AssetPair::PeurEur, updater));
        let _ = self.pending_rates.remove(&(AssetPair::BtcEur, updater));
        let _ = self.pending_rates.remove(&(AssetPair::EthEur, updater));
        proof {
            assert(self.pending_rates@ =~= old(self).pending_rates@.remove_keys(
                Set::new(|k: (AssetPair, AccountId)| k.1 == updater))) by {
                assert forall|k: (AssetPair, AccountId)| k.1 == updater implies !self.pending_rates@.contains_key(k) by {
                    match k.0 {
                        AssetPair::PlimEur => {},
                        AssetPair::PeurEur => {},
                        AssetPair::BtcEur => {},
                        AssetPair::EthEur => {},
                    }
                }
            }
        }
        let _ = self.updaters.remove(&updater);
        proof {
            self.updaters.lemma_view();
            old(self).updaters.lemma_view();
        }
        self.events.push(OracleEvent::UpdaterRemoved { updater });
        Ok(())
    }

    /// The error `set_quorum` reports, if any.
    pub open spec fn set_quorum_error(&self, origin: Origin, new_quorum: u32) -> Option<OracleError> {
        if !(origin is Root) {
            Some(OracleError::BadOrigin)
        } else if !(1 <= new_quorum && new_quorum <= self.updaters@.dom().len()) {
            Some(OracleError::BadQuorum)
        } else {
            None
        }
    }

    /// Set the quorum (root only); it must lie between 1 and the number of updaters.
    pub fn set_quorum(&mut self, origin: Origin, new_quorum: u32) -> (r: Result<(), OracleError>)
        requires
            old(self).wf(),
        ensures
            final(self).wf(),
            match old(self).set_quorum_error(origin, new_quorum) {
                Some(e) => r == Err::<(), OracleError>(e) && *final(self) == *old(self),
                None => {
                    &&& r is Ok
                    &&& final(self).quorum == new_quorum
                    &&& final(self).config == old(self).config
                    &&& final(self).updaters@ == old(self).updaters@
                    &&& final(self).rates@ == old(self).rates@
                    &&& final(self).pending_rates@ == old(self).pending_rates@
                    &&& final(self).events@ == old(self).events@.push(OracleEvent::QuorumChanged { new_quorum })
                },
            },
    {
        match ensure_root(&origin) {
            Ok(()) => {},
            Err(_) => return Err(OracleError::BadOrigin),
        }
        let n = self.updaters.len();
        if !(1 <= new_quorum && new_quorum as usize <= n) {
            return Err(OracleError::BadQuorum);
        }
        self.quorum = new_quorum;
        self.events.push(OracleEvent::QuorumChanged { new_quorum });
        Ok(())
    }

    /// The active rate of `pair` at block `now`, if set and not older than the window.
    pub fn get_rate(&self, pair: AssetPair, now: BlockNumber) -> (r: Result<u64, OracleError>)
        requires
            self.wf(),
        ensures
            !self.rates@.contains_key(pair) ==> r == Err::<u64, OracleError>(OracleError::RateNotSet),
            self.rates@.contains_key(pair) ==> r == (if age(now, self.rates@[pair].updated_at) > self.config.staleness_window {
                Err::<u64, OracleError>(OracleError::StaleRate)
            } else {
                Ok::<u64, OracleError>(self.rates@[pair].rate_micros)
            }),
    {
        match self.rates.get(&pair) {
            None => Err(OracleError::RateNotSet),
            Some(rate) => {
                if now.saturating_sub(rate.updated_at) > self.config.staleness_window {
                    Err(OracleError::StaleRate)
                } else {
                    Ok(rate.rate_micros)
                }
            },
        }
    }

    /// Whether `pair` has a rate no older than the window at `block`.
    pub fn is_fresh(&self, pair: AssetPair, block: BlockNumber) -> (b: bool)
        requires
            self.wf(),
        ensures
            b == (self.rates@.contains_key(pair) && age(block, self.rates@[pair].updated_at) <= self.config.staleness_window),
    {
        match self.rates.get(&pair) {
            None => false,
            Some(rate) => block.saturating_sub(rate.updated_at) <= self.config.staleness_window,
        }
    }
}

/// Fixed weights of the oracle calls: each costs 10 000 picoseconds of reference time.
#[derive(Clone, Copy, Debug)]
pub struct SubstrateWeight;

impl SubstrateWeight {
    pub fn propose_rate() -> (w: Weight)
        ensures
            w == (Weight { ref_time: 10_000, proof_size: 0 }),
    {
        Weight::from_parts(10_000, 0)
    }

    pub fn add_updater() -> (w: Weight)
        ensures
            w == (Weight { ref_time: 10_000, proof_size: 0 }),
    {
        Weight::from_parts(10_000, 0)
    }

    pub fn remove_updater() -> (w: Weight)
        ensures
            w == (Weight { ref_time: 10_000, proof_size: 0 }),
    {
        Weight::from_parts(10_000, 0)
    }

    pub fn set_quorum() -> (w: Weight)
        ensures
            w == (Weight { ref_time: 10_000, proof_size: 0 }),
    {
        Weight::from_parts(10_000, 0)
    }
}

} // verus!
