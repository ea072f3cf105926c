use vstd::prelude::*;

use std::collections::HashMap;

verus! {

broadcast use vstd::std_specs::hash::group_hash_axioms;

/// In-memory model of a fungible token: a table from address identifier to
/// balance.
///
/// The pool treats the reference asset and the pool-share token as opaque
/// capabilities offering `transfer`, `mint`, `burn` and `balance`. This type
/// gives those capabilities exact contracts: an address without an entry
/// holds zero, balances never go negative, and an operation that would
/// overdraw or overflow a balance is ruled out by its precondition, as the
/// token primitive would abort the enclosing operation.
pub struct TokenLedger {
    balances: HashMap<u32, i128>,
}

impl TokenLedger {
    /// Balance held by an address; an address without an entry holds zero.
    pub closed spec fn balance_of(self, addr: u32) -> int {
        if self.balances@.contains_key(addr) {
            self.balances@[addr] as int
        } else {
            0
        }
    }

    /// No address holds a negative balance.
    pub open spec fn wf(self) -> bool {
        forall|a: u32| self.balance_of(a) >= 0
    }

    /// Minting must not overflow the recipient's balance.
    pub open spec fn can_mint(self, to: u32, amount: int) -> bool {
        0 <= amount && self.balance_of(to) + amount <= i128::MAX
    }

    /// Burning must not overdraw the holder's balance.
    pub open spec fn can_burn(self, from: u32, amount: int) -> bool {
        0 <= amount <= self.balance_of(from)
    }

    /// A transfer must not overdraw the sender nor overflow the recipient.
    pub open spec fn can_transfer(self, from: u32, to: u32, amount: int) -> bool {
        0 <= amount <= self.balance_of(from)
            && (from == to || self.balance_of(to) + amount <= i128::MAX)
    }

    /// An empty ledger: every address holds zero.
    pub fn new() -> (l: TokenLedger)
        ensures
            l.wf(),
            forall|a: u32| l.balance_of(a) == 0,
    {
        TokenLedger { balances: HashMap::new() }
    }

    /// Reads the balance of an address.
    pub fn balance(&self, addr: u32) -> (r: i128)
        ensures
            r == self.balance_of(addr),
    {
        match self.balances.get(&addr) {
            Some(b) => *b,
            None => 0,
        }
    }

    /// Creates `amount` new units on `to`'s balance.
    pub fn mint(&mut self, to: u32, amount: i128)
        requires
            old(self).wf(),
            old(self).can_mint(to, amount as int),
        ensures
            final(self).wf(),
            final(self).balance_of(to) == old(self).balance_of(to) + amount,
            forall|a: u32| a != to ==> final(self).balance_of(a) == old(self).balance_of(a),
    {
        let b = self.balance(to);
        self.balances.insert(to, b + amount);
        proof {
            assert forall|a: u32| self.balance_of(a) >= 0 by {
                assert(old(self).balance_of(a) >= 0);
            }
        }
    }

    /// Destroys `amount` units of `from`'s balance.
    pub fn burn(&mut self, from: u32, amount: i128)
        requires
            old(self).wf(),
            old(self).can_burn(from, amount as int),
        ensures
            final(self).wf(),
            final(self).balance_of(from) == old(self).balance_of(from) - amount,
            forall|a: u32| a != from ==> final(self).balance_of(a) == old(self).balance_of(a),
    {
        let b = self.balance(from);
        self.balances.insert(from, b - amount);
        proof {
            assert forall|a: u32| self.balance_of(a) >= 0 by {
                assert(old(self).balance_of(a) >= 0);
            }
        }
    }

    /// Moves `amount` units from `from` to `to`. A transfer of an address to
    /// itself leaves every balance as it was.
    pub fn transfer(&mut self, from: u32, to: u32, amount: i128)
        requires
            old(self).wf(),
            old(self).can_transfer(from, to, amount as int),
        ensures
            final(self).wf(),
            forall|a: u32|
                final(self).balance_of(a) == old(self).balance_of(a)
                    + (if a == to { amount as int } else { 0 })
                    - (if a == from { amount as int } else { 0 }),
    {
        if from != to {
            let bf = self.balance(from);
            let bt = self.balance(to);
            self.balances.insert(from, bf - amount);
            self.balances.insert(to, bt + amount);
        }
        proof {
            assert forall|a: u32| self.balance_of(a) >= 0 by {
                assert(old(self).balance_of(a) >= 0);
            }
        }
    }
}

} // verus!
