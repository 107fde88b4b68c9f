//! The native currency: free and reserved balances per account.
//!
//! This is the balance book that the pallets move funds in: plain transfers,
//! reserving and unreserving, and crediting an existing account.

use vstd::prelude::*;
use crate::common::{AccountId, Balance};
use crate::table::Table;

verus! {

/// Free and reserved funds of one account.
#[derive(Clone, Copy, Debug, PartialEq, Eq, Structural)]
pub struct AccountData {
    pub free: Balance,
    pub reserved: Balance,
}

/// Why a balance operation failed.
#[derive(Clone, Copy, Debug, PartialEq, Eq, Structural)]
pub enum BalanceError {
    /// The source does not hold enough free funds.
    InsufficientBalance,
    /// The source would drop below the existential deposit while it must stay alive.
    Expendability,
    /// The destination would hold less than the existential deposit.
    BelowMinimum,
    /// A balance would exceed the largest representable amount.
    Overflow,
    /// The account does not exist.
    DeadAccount,
}

/// Free funds of `a` in the account records `m`.
pub open spec fn free_in(m: Map<AccountId, AccountData>, a: AccountId) -> Balance {
    if m.contains_key(a) {
        m[a].free
    } else {
        0
    }
}

/// Reserved funds of `a` in the account records `m`.
pub open spec fn reserved_in(m: Map<AccountId, AccountData>, a: AccountId) -> Balance {
    if m.contains_key(a) {
        m[a].reserved
    } else {
        0
    }
}

/// Whether moving `amount` of free funds from `from` to `to` succeeds in `m`.
pub open spec fn can_transfer(m: Map<AccountId, AccountData>, ed: Balance, from: AccountId, to: AccountId, amount: Balance, keep_alive: bool) -> bool {
    amount == 0 || from == to || (
        amount <= free_in(m, from)
        && (!keep_alive || free_in(m, from) - amount >= ed)
        && free_in(m, to) + amount >= ed
        && free_in(m, to) + amount <= u128::MAX)
}

/// The error of a transfer that `can_transfer` rejects.
pub open spec fn transfer_error(m: Map<AccountId, AccountData>, ed: Balance, from: AccountId, to: AccountId, amount: Balance, keep_alive: bool) -> BalanceError {
    if amount > free_in(m, from) {
        BalanceError::InsufficientBalance
    } else if keep_alive && free_in(m, from) - amount < ed {
        BalanceError::Expendability
    } else if free_in(m, to) + amount > u128::MAX {
        BalanceError::Overflow
    } else {
        BalanceError::BelowMinimum
    }
}

/// Free funds of `from` after giving away `amount`: what is left below the existential
/// deposit of an account without reserves is dust and disappears.
pub open spec fn left_after(m: Map<AccountId, AccountData>, ed: Balance, from: AccountId, amount: Balance) -> Balance {
    let left = (free_in(m, from) - amount) as Balance;
    if left < ed && reserved_in(m, from) == 0 {
        0
    } else {
        left
    }
}

/// The account records after a successful transfer.
pub open spec fn apply_transfer(m: Map<AccountId, AccountData>, ed: Balance, from: AccountId, to: AccountId, amount: Balance) -> Map<AccountId, AccountData> {
    if amount == 0 || from == to {
        m
    } else {
        m.insert(from, AccountData { free: left_after(m, ed, from, amount), reserved: reserved_in(m, from) })
         .insert(to, AccountData { free: (free_in(m, to) + amount) as Balance, reserved: reserved_in(m, to) })
    }
}

/// Whether `amount` of the free funds of `who` can be reserved: the free funds that stay
/// cover the existential deposit and the reserve does not overflow.
pub open spec fn can_reserve(m: Map<AccountId, AccountData>, ed: Balance, who: AccountId, amount: Balance) -> bool {
    amount == 0 || (amount <= free_in(m, who) && free_in(m, who) - amount >= ed
        && reserved_in(m, who) + amount <= u128::MAX)
}

/// The account records after reserving `amount` of the free funds of `who`.
pub open spec fn apply_reserve(m: Map<AccountId, AccountData>, who: AccountId, amount: Balance) -> Map<AccountId, AccountData> {
    if amount == 0 {
        m
    } else {
        m.insert(who, AccountData {
            free: (free_in(m, who) - amount) as Balance,
            reserved: (reserved_in(m, who) + amount) as Balance,
        })
    }
}

/// The account records after moving up to `amount` of the reserved funds of `who` back
/// to its free funds (which saturate at the largest balance).
pub open spec fn apply_unreserve(m: Map<AccountId, AccountData>, who: AccountId, amount: Balance) -> Map<AccountId, AccountData> {
    let moved = if amount <= reserved_in(m, who) { amount } else { reserved_in(m, who) };
    m.insert(who, AccountData {
        free: crate::common::sat_add(free_in(m, who) as int, moved as int, u128::MAX as int) as Balance,
        reserved: (reserved_in(m, who) - moved) as Balance,
    })
}

/// All accounts and the existential deposit.
pub struct Ledger {
    accounts: Table<AccountId, AccountData>,
    existential: Balance,
}

impl Ledger {
    /// The ledger is well formed.
    pub closed spec fn wf(&self) -> bool {
        self.accounts.wf()
    }

    /// The smallest free balance an account must keep to stay alive.
    pub closed spec fn ed(&self) -> Balance {
        self.existential
    }

    /// The existential deposit.
    pub fn existential_deposit(&self) -> (e: Balance)
        ensures
            e == self.ed(),
    {
        self.existential
    }

    /// The account records.
    pub closed spec fn view(&self) -> Map<AccountId, AccountData> {
        self.accounts@
    }

    /// Free funds of `a` (zero for an unknown account).
    pub open spec fn free_of(&self, a: AccountId) -> Balance {
        free_in(self@, a)
    }

    /// Reserved funds of `a` (zero for an unknown account).
    pub open spec fn reserved_of(&self, a: AccountId) -> Balance {
        reserved_in(self@, a)
    }

    /// Whether `a` holds any funds.
    pub open spec fn exists_account(&self, a: AccountId) -> bool {
        self.free_of(a) + self.reserved_of(a) > 0
    }

    /// A ledger with no accounts.
    pub fn new(existential_deposit: Balance) -> (l: Self)
        ensures
            l.wf(),
            l.ed() == existential_deposit,
            l@ == Map::<AccountId, AccountData>::empty(),
    {
        Ledger { accounts: Table::new(), existential: existential_deposit }
    }

    /// An independent copy of the ledger.
    pub fn copy(&self) -> (l: Self)
        requires
            self.wf(),
        ensures
            l.wf(),
            l@ == self@,
            l.ed() == self.ed(),
    {
        Ledger { accounts: self.accounts.copy(), existential: self.existential }
    }

    /// Set the free funds of `who` (genesis endowment).
    pub fn endow(&mut self, who: AccountId, free: Balance)
        requires
            old(self).wf(),
        ensures
            final(self).wf(),
            final(self).ed() == old(self).ed(),
            final(self)@ == old(self)@.insert(who, AccountData { free, reserved: old(self).reserved_of(who) }),
    {
        let reserved = self.reserved_balance(who);
        self.accounts.insert(who, AccountData { free, reserved });
    }

    /// Free funds of `who`.
    pub fn free_balance(&self, who: AccountId) -> (b: Balance)
        requires
            self.wf(),
        ensures
            b == self.free_of(who),
    {
        match self.accounts.get(&who) {
            Some(d) => d.free,
            None => 0,
        }
    }

    /// Reserved funds of `who`.
    pub fn reserved_balance(&self, who: AccountId) -> (b: Balance)
        requires
            self.wf(),
        ensures
            b == self.reserved_of(who),
    {
        match self.accounts.get(&who) {
            Some(d) => d.reserved,
            None => 0,
        }
    }

    /// Move `amount` of free funds from `from` to `to`. With `keep_alive`, `from` must keep at
    /// least the existential deposit; otherwise its dust is dropped.
    pub fn transfer(&mut self, from: AccountId, to: AccountId, amount: Balance, keep_alive: bool) -> (r: Result<(), BalanceError>)
        requires
            old(self).wf(),
        ensures
            final(self).wf(),
            final(self).ed() == old(self).ed(),
            r is Ok <==> can_transfer(old(self)@, old(self).ed(), from, to, amount, keep_alive),
            r is Ok ==> final(self)@ == apply_transfer(old(self)@, old(self).ed(), from, to, amount),
            r matches Err(e) ==> e == transfer_error(old(self)@, old(self).ed(), from, to, amount, keep_alive) && *final(self) == *old(self),
    {
        if amount == 0 || from == to {
            return Ok(());
        }
        let ed = self.existential;
        let from_free = self.free_balance(from);
        let from_reserved = self.reserved_balance(from);
        let to_free = self.free_balance(to);
        let to_reserved = self.reserved_balance(to);
        if amount > from_free {
            return Err(BalanceError::InsufficientBalance);
        }
        let left = from_free - amount;
        if keep_alive && left < ed {
            return Err(BalanceError::Expendability);
        }
        if to_free as u128 > u128::MAX - amount {
            return Err(BalanceError::Overflow);
        }
        let new_to = to_free + amount;
        if new_to < ed {
            return Err(BalanceError::BelowMinimum);
        }
        let new_from = if left < ed && from_reserved == 0 {
            0
        } else {
            left
        };
        self.accounts.insert(from, AccountData { free: new_from, reserved: from_reserved });
        self.accounts.insert(to, AccountData { free: new_to, reserved: to_reserved });
        Ok(())
    }

    /// Move `amount` from the free to the reserved funds of `who`; the free funds that stay
    /// must cover the existential deposit.
    pub fn reserve(&mut self, who: AccountId, amount: Balance) -> (r: Result<(), BalanceError>)
        requires
            old(self).wf(),
        ensures
            final(self).wf(),
            r is Ok <==> can_reserve(old(self)@, old(self).ed(), who, amount),
            final(self).ed() == old(self).ed(),
            r is Ok ==> final(self)@ == apply_reserve(old(self)@, who, amount),
            r is Ok && amount == 0 ==> *final(self) == *old(self),
            r matches Err(e) ==> *final(self) == *old(self) && e == (if amount > old(self).free_of(who) {
                BalanceError::InsufficientBalance
            } else if old(self).free_of(who) - amount < old(self).ed() {
                BalanceError::Expendability
            } else {
                BalanceError::Overflow
            }),
    {
        if amount == 0 {
            return Ok(());
        }
        let free = self.free_balance(who);
        let reserved = self.reserved_balance(who);
        if amount > free {
            return Err(BalanceError::InsufficientBalance);
        }
        if free - amount < self.existential {
            return Err(BalanceError::Expendability);
        }
        if reserved > u128::MAX - amount {
            return Err(BalanceError::Overflow);
        }
        self.accounts.insert(who, AccountData { free: free - amount, reserved: reserved + amount });
        Ok(())
    }

    /// Move up to `amount` of the reserved funds of `who` back to its free funds (which
    /// saturate at the largest balance); returns the part of `amount` that could not be
    /// unreserved.
    pub fn unreserve(&mut self, who: AccountId, amount: Balance) -> (rest: Balance)
        requires
            old(self).wf(),
        ensures
            final(self).wf(),
            ({
                let moved = if amount <= old(self).reserved_of(who) { amount } else { old(self).reserved_of(who) };
                &&& rest == amount - moved
                &&& final(self).ed() == old(self).ed()
                &&& final(self)@ == apply_unreserve(old(self)@, who, amount)
            }),
    {
        let free = self.free_balance(who);
        let reserved = self.reserved_balance(who);
        let moved = if amount <= reserved { amount } else { reserved };
        self.accounts.insert(who, AccountData { free: free.saturating_add(moved), reserved: reserved - moved });
        amount - moved
    }

    /// Credit `amount` to an account that already holds funds.
    pub fn deposit_into_existing(&mut self, who: AccountId, amount: Balance) -> (r: Result<(), BalanceError>)
        requires
            old(self).wf(),
        ensures
            final(self).wf(),
            r is Ok <==> old(self).exists_account(who) && old(self).free_of(who) + amount <= u128::MAX,
            final(self).ed() == old(self).ed(),
            r is Ok ==> final(self)@ == old(self)@.insert(who, AccountData {
                free: (old(self).free_of(who) + amount) as Balance,
                reserved: old(self).reserved_of(who),
            }),
            r matches Err(e) ==> *final(self) == *old(self) && e == (if !old(self).exists_account(who) {
                BalanceError::DeadAccount
            } else {
                BalanceError::Overflow
            }),
    {
        let free = self.free_balance(who);
        let reserved = self.reserved_balance(who);
        if free == 0 && reserved == 0 {
            return Err(BalanceError::DeadAccount);
        }
        if free > u128::MAX - amount {
            return Err(BalanceError::Overflow);
        }
        self.accounts.insert(who, AccountData { free: free + amount, reserved });
        Ok(())
    }
}

} // verus!
