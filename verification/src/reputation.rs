//! Reputation scores: every account starts at 500; signals raise or lower the score
//! within 0..=1000, and each change is kept in a bounded per-account history that
//! drops its oldest entry when full.

use vstd::prelude::*;
use crate::common::{AccountId, BlockNumber, Origin, OriginRule, sat_add, sat_sub};
use crate::table::Table;

verus! {

/// Score of an account without history.
pub const INITIAL_SCORE: u32 = 500;

/// Highest score.
pub const MAX_SCORE: u32 = 1000;

/// Lowest score.
pub const MIN_SCORE: u32 = 0;

/// Something that happened to an account.
#[derive(Clone, Copy, Debug, PartialEq, Eq, Structural)]
pub enum ReputationSignal {
    PaymentOk,
    GoodSla,
    Dispute,
    Violation,
}

/// The size of a signal's effect and whether it raises the score.
pub open spec fn signal_delta(s: ReputationSignal) -> (u32, bool) {
    match s {
        ReputationSignal::PaymentOk => (10, true),
        ReputationSignal::GoodSla => (5, true),
        ReputationSignal::Dispute => (20, false),
        ReputationSignal::Violation => (50, false),
    }
}

impl ReputationSignal {
    /// The size of the signal's effect and whether it raises the score.
    pub fn delta(&self) -> (d: (u32, bool))
        ensures
            d == signal_delta(*self),
    {
        match self {
            ReputationSignal::PaymentOk => (10, true),
            ReputationSignal::GoodSla => (5, true),
            ReputationSignal::Dispute => (20, false),
            ReputationSignal::Violation => (50, false),
        }
    }
}

/// One change of a score.
#[derive(Clone, Copy, Debug, PartialEq, Eq, Structural)]
pub struct ReputationEntry {
    pub signal: ReputationSignal,
    pub score_after: u32,
    pub block: BlockNumber,
}

/// Events of the reputation pallet.
#[derive(Clone, Copy, Debug)]
pub enum ReputationEvent {
    ReputationUpdated { account: AccountId, signal: ReputationSignal, new_score: u32 },
    ReputationQueried { account: AccountId, score: u32 },
}

/// Errors of the reputation pallet.
#[derive(Clone, Copy, Debug, PartialEq, Eq, Structural)]
pub enum ReputationError {
    BadOrigin,
    ScoreOverflow,
}

/// Constants of the reputation pallet.
#[derive(Clone, Copy, Debug)]
pub struct ReputationConfig {
    /// Who may report signals.
    pub reputation_origin: OriginRule,
    /// Most history entries kept per account.
    pub max_history_per_account: u32,
}

/// The reputation storage.
pub struct Reputation {
    pub config: ReputationConfig,
    /// Scores by account (missing: the initial score).
    pub reputation_scores: Table<AccountId, u32>,
    /// Recent changes by account, oldest first (missing means none).
    pub reputation_history: Table<AccountId, Vec<ReputationEntry>>,
    /// Deposited events, oldest first.
    pub events: Vec<ReputationEvent>,
}

/// The score after a signal: raised up to 1000 or lowered down to 0.
pub open spec fn score_after(current: u32, s: ReputationSignal) -> u32 {
    let (d, positive) = signal_delta(s);
    if positive {
        let up = sat_add(current as int, d as int, u32::MAX as int);
        if up < MAX_SCORE { up as u32 } else { MAX_SCORE }
    } else {
        sat_sub(current as int, d as int) as u32
    }
}

/// A history with `e` appended: when full, the oldest entry is dropped; with room for
/// no entry at all it stays as it is.
pub open spec fn history_after(h: Seq<ReputationEntry>, e: ReputationEntry, max: u32) -> Seq<ReputationEntry> {
    if h.len() < max {
        h.push(e)
    } else if h.len() == 0 {
        h
    } else {
        h.drop_first().push(e)
    }
}

impl Reputation {
    /// Tables well formed, stored scores within range and histories within their bound.
    pub open spec fn wf(&self) -> bool {
        &&& self.reputation_scores.wf()
        &&& self.reputation_history.wf()
        &&& forall|a: AccountId| #[trigger] self.reputation_scores@.contains_key(a) ==> self.reputation_scores@[a] <= MAX_SCORE
        &&& forall|a: AccountId| #[trigger] self.reputation_history@.contains_key(a)
            ==> self.reputation_history@[a]@.len() <= self.config.max_history_per_account
    }

    /// The score of an account.
    pub open spec fn score_of(&self, account: AccountId) -> u32 {
        if self.reputation_scores@.contains_key(account) { self.reputation_scores@[account] } else { INITIAL_SCORE }
    }

    /// The history of an account.
    pub open spec fn history_of(&self, account: AccountId) -> Seq<ReputationEntry> {
        if self.reputation_history@.contains_key(account) { self.reputation_history@[account]@ } else { Seq::empty() }
    }

    /// An empty pallet.
    pub fn new(config: ReputationConfig) -> (s: Self)
        ensures
            s.wf(),
            s.config == config,
            s.reputation_scores@ == Map::<AccountId, u32>::empty(),
            s.reputation_history@ == Map::<AccountId, Vec<ReputationEntry>>::empty(),
            s.events@ == Seq::<ReputationEvent>::empty(),
    {
        Reputation { config, reputation_scores: Table::new(), reputation_history: Table::new(), events: Vec::new() }
    }

    /// The score of an account: the initial score until a signal was applied.
    pub fn get_score(&self, account: AccountId) -> (score: u32)
        requires
            self.wf(),
        ensures
            score == self.score_of(account),
    {
        match self.reputation_scores.get(&account) {
            Some(s) => *s,
            None => INITIAL_SCORE,
        }
    }

    /// Apply a signal to an account at block `now`: its score moves, and the change is
    /// appended to its history. Returns the new score.
    fn apply_signal(&mut self, account: AccountId, signal: ReputationSignal, now: BlockNumber) -> (new_score: u32)
        requires
            old(self).wf(),
        ensures
            final(self).wf(),
            new_score == score_after(old(self).score_of(account), signal),
            final(self).reputation_scores@ == old(self).reputation_scores@.insert(account, new_score),
            final(self).history_of(account) == history_after(old(self).history_of(account),
                ReputationEntry { signal, score_after: new_score, block: now }, old(self).config.max_history_per_account),
            final(self).reputation_history@.remove(account) == old(self).reputation_history@.remove(account),
            final(self).config == old(self).config,
            final(self).events@ == old(self).events@,
    {
        let current = self.get_score(account);
        let (delta, positive) = signal.delta();
        let new_score = if positive {
            let up = current.saturating_add(delta);
            if up < MAX_SCORE { up } else { MAX_SCORE }
        } else {
            current.saturating_sub(delta)
        };
        self.reputation_scores.insert(account, new_score);
        let entry = ReputationEntry { signal, score_after: new_score, block: now };
        let mut history = match self.reputation_history.remove(&account) {
            Some(h) => h,
            None => Vec::new(),
        };
        let ghost before = history@;
        assert(before == old(self).history_of(account));
        let max = self.config.max_history_per_account as usize;
        if history.len() < max {
            history.push(entry);
        } else if history.len() > 0 {
            let _ = history.remove(0);
            history.push(entry);
            assert(history@ =~= before.drop_first().push(entry));
        }
        self.reputation_history.insert(account, history);
        new_score
    }

    /// Report a signal about an account (the reputation origin only).
    pub fn update_reputation(&mut self, origin: Origin, now: BlockNumber, account: AccountId, signal: ReputationSignal) -> (r: Result<(), ReputationError>)
        requires
            old(self).wf(),
        ensures
            final(self).wf(),
            !old(self).config.reputation_origin.allows(origin) ==> r == Err::<(), ReputationError>(ReputationError::BadOrigin) && *final(self) == *old(self),
            old(self).config.reputation_origin.allows(origin) ==> {
                let new_score = score_after(old(self).score_of(account), signal);
                &&& r is Ok
                &&& final(self).reputation_scores@ == old(self).reputation_scores@.insert(account, new_score)
                &&& final(self).history_of(account) == history_after(old(self).history_of(account),
                    ReputationEntry { signal, score_after: new_score, block: now }, old(self).config.max_history_per_account)
                &&& final(self).reputation_history@.remove(account) == old(self).reputation_history@.remove(account)
                &&& final(self).config == old(self).config
                &&& final(self).events@ == old(self).events@.push(ReputationEvent::ReputationUpdated { account, signal, new_score })
            },
    {
        match self.config.reputation_origin.ensure_origin(&origin) {
            Ok(()) => {},
            Err(_) => return Err(ReputationError::BadOrigin),
        }
        let new_score = self.apply_signal(account, signal, now);
        self.events.push(ReputationEvent::ReputationUpdated { account, signal, new_score });
        Ok(())
    }

    /// Announce the score of an account (any signed origin).
    pub fn query_reputation(&mut self, origin: Origin, account: AccountId) -> (r: Result<(), ReputationError>)
        requires
            old(self).wf(),
        ensures
            final(self).wf(),
            !(origin is Signed) ==> r == Err::<(), ReputationError>(ReputationError::BadOrigin) && *final(self) == *old(self),
            origin is Signed ==> {
                &&& r is Ok
                &&& final(self).reputation_scores@ == old(self).reputation_scores@
                &&& final(self).reputation_history@ == old(self).reputation_history@
                &&& final(self).config == old(self).config
                &&& final(self).events@ == old(self).events@.push(ReputationEvent::ReputationQueried {
                    account, score: old(self).score_of(account) })
            },
    {
        match origin {
            Origin::Signed(_) => {},
            _ => return Err(ReputationError::BadOrigin),
        }
        let score = self.get_score(account);
        self.events.push(ReputationEvent::ReputationQueried { account, score });
        Ok(())
    }
}

/// Scores stay in range: whatever signal is applied to whatever score in range, the new
/// score is again between `MIN_SCORE` and `MAX_SCORE`; a positive signal never lowers a
/// score and a negative one never raises it.
pub proof fn lemma_score_in_range(current: u32, s: ReputationSignal)
    requires
        current <= MAX_SCORE,
    ensures
        MIN_SCORE <= score_after(current, s) <= MAX_SCORE,
        signal_delta(s).1 ==> score_after(current, s) >= current,
        !signal_delta(s).1 ==> score_after(current, s) <= current,
{
}

/// Each signal moves a score by its published weight, clamped to `0..=1000`: a successful
/// payment adds 10, a good SLA 5, a dispute takes 20 and a violation 50, whatever the
/// score.
pub proof fn lemma_signal_weights(current: u32)
    ensures
        score_after(current, ReputationSignal::PaymentOk) == if current + 10 < 1000 { current + 10 } else { 1000 },
        score_after(current, ReputationSignal::GoodSla) == if current + 5 < 1000 { current + 5 } else { 1000 },
        score_after(current, ReputationSignal::Dispute) == if current >= 20 { current - 20 } else { 0 },
        score_after(current, ReputationSignal::Violation) == if current >= 50 { current - 50 } else { 0 },
{
}

} // verus!
