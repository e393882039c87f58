//! Account balances: a free part that can be spent and a reserved part that is
//! held in escrow.
use vstd::prelude::*;
use vstd::hash_map::HashMapWithView;

use crate::{AccountId, Balance};

verus! {

broadcast use vstd::std_specs::hash::group_hash_axioms;

/// The balances of one account.
#[derive(Clone, Copy, Debug, PartialEq, Eq, Structural)]
pub struct AccountData {
    pub free: Balance,
    pub reserved: Balance,
}

/// Why the ledger refused an operation.
#[derive(Clone, Copy, Debug, PartialEq, Eq, Structural)]
pub enum LedgerError {
    /// The free balance does not cover the amount.
    InsufficientBalance,
    /// The receiving account's total would not fit in a `Balance`.
    Overflow,
}

/// The free balance of `who` (0 for an account never seen).
pub open spec fn free_of(m: Map<AccountId, AccountData>, who: AccountId) -> Balance {
    if m.contains_key(who) {
        m[who].free
    } else {
        0
    }
}

/// The reserved balance of `who` (0 for an account never seen).
pub open spec fn reserved_of(m: Map<AccountId, AccountData>, who: AccountId) -> Balance {
    if m.contains_key(who) {
        m[who].reserved
    } else {
        0
    }
}

/// Every account's free and reserved parts together fit in a `Balance`.
pub open spec fn accounts_bounded(m: Map<AccountId, AccountData>) -> bool {
    forall|a: AccountId| #[trigger]
        m.contains_key(a) ==> m[a].free + m[a].reserved <= Balance::MAX
}

/// The balances after `amount` of `who`'s free balance is moved to its reserve.
pub open spec fn after_reserve(m: Map<AccountId, AccountData>, who: AccountId, amount: Balance) -> Map<
    AccountId,
    AccountData,
> {
    m.insert(
        who,
        AccountData {
            free: (free_of(m, who) - amount) as Balance,
            reserved: (reserved_of(m, who) + amount) as Balance,
        },
    )
}

/// How much of `amount` can be taken back from `who`'s reserve.
pub open spec fn unreservable(m: Map<AccountId, AccountData>, who: AccountId, amount: Balance) -> Balance {
    if amount <= reserved_of(m, who) {
        amount
    } else {
        reserved_of(m, who)
    }
}

/// The balances after up to `amount` of `who`'s reserve is returned to its free balance.
pub open spec fn after_unreserve(m: Map<AccountId, AccountData>, who: AccountId, amount: Balance) -> Map<
    AccountId,
    AccountData,
> {
    if m.contains_key(who) {
        let back = unreservable(m, who, amount);
        m.insert(
            who,
            AccountData {
                free: (free_of(m, who) + back) as Balance,
                reserved: (reserved_of(m, who) - back) as Balance,
            },
        )
    } else {
        m
    }
}

/// The balances after `amount` moves from `from`'s free balance to `to`'s.
pub open spec fn after_transfer(
    m: Map<AccountId, AccountData>,
    from: AccountId,
    to: AccountId,
    amount: Balance,
) -> Map<AccountId, AccountData> {
    if from == to {
        m
    } else {
        m.insert(
            from,
            AccountData { free: (free_of(m, from) - amount) as Balance, reserved: reserved_of(m, from) },
        ).insert(to, AccountData { free: (free_of(m, to) + amount) as Balance, reserved: reserved_of(m, to) })
    }
}

/// Whether a transfer of `amount` from `from` to `to` would overflow `to`'s account.
pub open spec fn transfer_overflows(
    m: Map<AccountId, AccountData>,
    from: AccountId,
    to: AccountId,
    amount: Balance,
) -> bool {
    from != to && free_of(m, to) + reserved_of(m, to) + amount > Balance::MAX
}

/// The balances of all accounts.
pub struct Ledger {
    accounts: HashMapWithView<AccountId, AccountData>,
}

impl View for Ledger {
    type V = Map<AccountId, AccountData>;

    closed spec fn view(&self) -> Map<AccountId, AccountData> {
        self.accounts@
    }
}

impl Ledger {
    /// Well-formed: no account's total overflows.
    pub open spec fn wf(&self) -> bool {
        accounts_bounded(self@)
    }

    /// A ledger with no accounts.
    pub fn new() -> (r: Ledger)
        ensures
            r@ == Map::<AccountId, AccountData>::empty(),
            r.wf(),
    {
        Ledger { accounts: HashMapWithView::new() }
    }

    /// Sets the free balance of `who`, keeping its reserve.
    pub fn make_free_balance_be(&mut self, who: AccountId, amount: Balance)
        requires
            old(self).wf(),
            reserved_of(old(self)@, who) + amount <= Balance::MAX,
        ensures
            final(self)@ == old(self)@.insert(
                who,
                AccountData { free: amount, reserved: reserved_of(old(self)@, who) },
            ),
            final(self).wf(),
    {
        let reserved = self.reserved_balance(who);
        self.accounts.insert(who, AccountData { free: amount, reserved });
    }

    /// The free balance of `who`.
    pub fn free_balance(&self, who: AccountId) -> (r: Balance)
        ensures
            r == free_of(self@, who),
    {
        match self.accounts.get(&who) {
            Some(d) => d.free,
            None => 0,
        }
    }

    /// The reserved balance of `who`.
    pub fn reserved_balance(&self, who: AccountId) -> (r: Balance)
        ensures
            r == reserved_of(self@, who),
    {
        match self.accounts.get(&who) {
            Some(d) => d.reserved,
            None => 0,
        }
    }

    /// Moves `amount` of `who`'s free balance to its reserve; fails, changing
    /// nothing, when the free balance is smaller than `amount`.
    pub fn reserve(&mut self, who: AccountId, amount: Balance) -> (r: Result<(), LedgerError>)
        requires
            old(self).wf(),
        ensures
            final(self).wf(),
            amount <= free_of(old(self)@, who) ==> r is Ok && final(self)@ == after_reserve(
                old(self)@,
                who,
                amount,
            ),
            amount > free_of(old(self)@, who) ==> r == Err::<(), LedgerError>(
                LedgerError::InsufficientBalance,
            ) && final(self)@ == old(self)@,
    {
        let free = self.free_balance(who);
        let reserved = self.reserved_balance(who);
        if amount > free {
            return Err(LedgerError::InsufficientBalance);
        }
        self.accounts.insert(who, AccountData { free: free - amount, reserved: reserved + amount });
        Ok(())
    }

    /// Returns up to `amount` of `who`'s reserve to its free balance, and gives
    /// back the part of `amount` that was not reserved.
    pub fn unreserve(&mut self, who: AccountId, amount: Balance) -> (r: Balance)
        requires
            old(self).wf(),
        ensures
            final(self).wf(),
            final(self)@ == after_unreserve(old(self)@, who, amount),
            r == amount - unreservable(old(self)@, who, amount),
    {
        match self.accounts.get(&who) {
            Some(d) => {
                let back = if amount <= d.reserved {
                    amount
                } else {
                    d.reserved
                };
                let data = AccountData { free: d.free + back, reserved: d.reserved - back };
                self.accounts.insert(who, data);
                amount - back
            },
            None => amount,
        }
    }

    /// Moves `amount` from the free balance of `from` to that of `to`. Fails,
    /// changing nothing, when `from`'s free balance is short, or when `to`'s
    /// total would overflow.
    pub fn transfer(&mut self, from: AccountId, to: AccountId, amount: Balance) -> (r: Result<
        (),
        LedgerError,
    >)
        requires
            old(self).wf(),
        ensures
            final(self).wf(),
            amount > free_of(old(self)@, from) ==> r == Err::<(), LedgerError>(
                LedgerError::InsufficientBalance,
            ),
            amount <= free_of(old(self)@, from) && transfer_overflows(old(self)@, from, to, amount)
                ==> r == Err::<(), LedgerError>(LedgerError::Overflow),
            amount <= free_of(old(self)@, from) && !transfer_overflows(old(self)@, from, to, amount)
                ==> r is Ok,
            r is Ok ==> final(self)@ == after_transfer(old(self)@, from, to, amount),
            r is Err ==> final(self)@ == old(self)@,
    {
        let from_free = self.free_balance(from);
        if amount > from_free {
            return Err(LedgerError::InsufficientBalance);
        }
        if from == to {
            return Ok(());
        }
        let from_reserved = self.reserved_balance(from);
        let to_free = self.free_balance(to);
        let to_reserved = self.reserved_balance(to);
        if to_reserved > Balance::MAX - to_free || amount > Balance::MAX - to_free - to_reserved {
            return Err(LedgerError::Overflow);
        }
        self.accounts.insert(from, AccountData { free: from_free - amount, reserved: from_reserved });
        self.accounts.insert(to, AccountData { free: to_free + amount, reserved: to_reserved });
        Ok(())
    }
}

} // verus!
