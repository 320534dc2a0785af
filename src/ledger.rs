use vstd::prelude::*;
use std::collections::HashMap;
use crate::types::{AccountId, Balance, Error};

verus! {

broadcast use vstd::std_specs::hash::group_hash_axioms;

/// The funds of one account: what it may spend, and what is held back.
#[derive(Clone, Copy, Debug, PartialEq, Eq, Structural)]
pub struct AccountBalance {
    pub free: Balance,
    pub reserved: Balance,
}

/// Free and reserved balances of every account.
pub struct Ledger {
    pub accounts: HashMap<AccountId, AccountBalance>,
}

/// The balance of `a` in `m`; an account never seen holds nothing.
pub open spec fn balance_in(m: Map<AccountId, AccountBalance>, a: AccountId) -> AccountBalance {
    if m.contains_key(a) {
        m[a]
    } else {
        AccountBalance { free: 0, reserved: 0 }
    }
}

/// Whether `a` can move `amount` from free to reserved.
pub open spec fn can_reserve(m: Map<AccountId, AccountBalance>, a: AccountId, amount: Balance) -> bool {
    balance_in(m, a).free >= amount
}

/// The balances after `amount` of `a`'s free funds are reserved.
pub open spec fn reserved_map(m: Map<AccountId, AccountBalance>, a: AccountId, amount: Balance) -> Map<
    AccountId,
    AccountBalance,
> {
    let b = balance_in(m, a);
    m.insert(
        a,
        AccountBalance { free: (b.free - amount) as u64, reserved: (b.reserved + amount) as u64 },
    )
}

/// What an unreserve of `amount` can actually release from `a`: no more than is held.
pub open spec fn releasable(m: Map<AccountId, AccountBalance>, a: AccountId, amount: Balance) -> u64 {
    let held = balance_in(m, a).reserved;
    if amount <= held {
        amount
    } else {
        held
    }
}

/// The balances after up to `amount` of `a`'s reserved funds are released.
pub open spec fn unreserved_map(m: Map<AccountId, AccountBalance>, a: AccountId, amount: Balance) -> Map<
    AccountId,
    AccountBalance,
> {
    let b = balance_in(m, a);
    let moved = releasable(m, a, amount);
    m.insert(
        a,
        AccountBalance { free: (b.free + moved) as u64, reserved: (b.reserved - moved) as u64 },
    )
}

/// The free balance of `b` after `amount` is credited, capped so that free
/// and reserved together stay within a balance.
pub open spec fn credited(b: AccountBalance, amount: Balance) -> u64 {
    if b.free + b.reserved + amount <= u64::MAX {
        (b.free + amount) as u64
    } else {
        (u64::MAX - b.reserved) as u64
    }
}

/// No account holds more than a balance can express.
pub open spec fn balances_fit(m: Map<AccountId, AccountBalance>) -> bool {
    forall|a: AccountId|
        m.contains_key(a) ==> #[trigger] m[a].free + m[a].reserved <= u64::MAX
}

impl Ledger {
    /// The balance of every account seen so far.
    pub open spec fn view(&self) -> Map<AccountId, AccountBalance> {
        self.accounts@
    }

    /// Every account's funds fit in a balance.
    pub open spec fn wf(&self) -> bool {
        balances_fit(self@)
    }

    pub open spec fn free_of(&self, a: AccountId) -> Balance {
        balance_in(self@, a).free
    }

    pub open spec fn reserved_of(&self, a: AccountId) -> Balance {
        balance_in(self@, a).reserved
    }

    /// A ledger in which no account holds anything.
    pub fn new() -> (r: Ledger)
        ensures
            r.wf(),
            r@ == Map::<AccountId, AccountBalance>::empty(),
    {
        Ledger { accounts: HashMap::new() }
    }

    /// The balance of `a`.
    pub fn balance(&self, a: AccountId) -> (r: AccountBalance)
        ensures
            r == balance_in(self@, a),
    {
        match self.accounts.get(&a) {
            Some(b) => *b,
            None => AccountBalance { free: 0, reserved: 0 },
        }
    }

    /// Credits `amount` to the free balance of `a`, clamped so that the
    /// account's total still fits in a balance.
    pub fn deposit(&mut self, a: AccountId, amount: Balance)
        requires
            old(self).wf(),
        ensures
            final(self).wf(),
            final(self)@ == old(self)@.insert(
                a,
                AccountBalance {
                    free: credited(balance_in(old(self)@, a), amount),
                    reserved: balance_in(old(self)@, a).reserved,
                },
            ),
    {
        let b = self.balance(a);
        let room = u64::MAX - b.free - b.reserved;
        let add = if amount <= room { amount } else { room };
        self.accounts.insert(a, AccountBalance { free: b.free + add, reserved: b.reserved });
    }

    /// Moves `amount` of `a`'s free funds to its reserve; fails, changing
    /// nothing, when the free funds do not cover it.
    pub fn reserve(&mut self, a: AccountId, amount: Balance) -> (r: Result<(), Error>)
        requires
            old(self).wf(),
        ensures
            final(self).wf(),
            r is Ok <==> can_reserve(old(self)@, a, amount),
            r is Ok ==> final(self)@ == reserved_map(old(self)@, a, amount),
            r is Err ==> r == Err::<(), Error>(Error::InsufficientFunds) && final(self)@ == old(self)@,
    {
        let b = self.balance(a);
        if b.free < amount {
            return Err(Error::InsufficientFunds);
        }
        self.accounts.insert(
            a,
            AccountBalance { free: b.free - amount, reserved: b.reserved + amount },
        );
        Ok(())
    }

    /// Moves up to `amount` of `a`'s reserve back to its free funds, and
    /// returns the part of `amount` that was not held.
    pub fn unreserve(&mut self, a: AccountId, amount: Balance) -> (r: Balance)
        requires
            old(self).wf(),
        ensures
            final(self).wf(),
            final(self)@ == unreserved_map(old(self)@, a, amount),
            r == amount - releasable(old(self)@, a, amount),
    {
        let b = self.balance(a);
        let moved = if amount <= b.reserved { amount } else { b.reserved };
        self.accounts.insert(
            a,
            AccountBalance { free: b.free + moved, reserved: b.reserved - moved },
        );
        amount - moved
    }
}

} // verus!
