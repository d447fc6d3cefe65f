//! The fungible-token ledger: balances, total supply and allowances.
use vstd::prelude::*;

use crate::table::{lemma_pair_key_injective, pair_key, pair_key_spec, AmountTable};
use crate::Address;

verus! {

/// Why a ledger operation was refused. A refused operation changes nothing.
#[derive(Debug, Clone, Copy, PartialEq, Eq, Structural)]
pub enum TokenError {
    /// The spender's allowance is below the amount.
    InsufficientAllowance,
    /// The sender's balance is below the amount.
    InsufficientBalance,
    /// The total supply would exceed what a `u128` holds.
    SupplyOverflow,
}

/// A token ledger. Absent accounts and allowances hold zero.
pub struct SyndicateToken {
    total_supply: u128,
    balances: AmountTable,
    allowances: AmountTable,
    name: String,
    symbol: String,
    decimals: u8,
}

impl SyndicateToken {
    /// The ledger is consistent: the balances add up to the total supply.
    pub closed spec fn wf(&self) -> bool {
        &&& self.balances.wf()
        &&& self.allowances.wf()
        &&& self.balances.total() == self.total_supply
    }

    /// The balance of `owner`.
    pub closed spec fn spec_balance(&self, owner: Address) -> nat {
        self.balances.value(owner as u128)
    }

    /// The sum of every balance entry.
    pub closed spec fn spec_balance_sum(&self) -> nat {
        self.balances.total()
    }

    /// What `spender` may still move out of `owner`'s balance.
    pub closed spec fn spec_allowance(&self, owner: Address, spender: Address) -> nat {
        self.allowances.value(pair_key_spec(owner, spender))
    }

    pub closed spec fn spec_total_supply(&self) -> nat {
        self.total_supply as nat
    }

    pub closed spec fn spec_name(&self) -> Seq<char> {
        self.name@
    }

    pub closed spec fn spec_symbol(&self) -> Seq<char> {
        self.symbol@
    }

    pub closed spec fn spec_decimals(&self) -> u8 {
        self.decimals
    }

    /// Name, symbol and decimals agree between `self` and `next`.
    pub open spec fn same_metadata(&self, next: &Self) -> bool {
        &&& next.spec_name() == self.spec_name()
        &&& next.spec_symbol() == self.spec_symbol()
        &&& next.spec_decimals() == self.spec_decimals()
    }

    /// `next` holds the same allowances as `self`.
    pub open spec fn same_allowances(&self, next: &Self) -> bool {
        forall|o: Address, s: Address| #[trigger]
            next.spec_allowance(o, s) == self.spec_allowance(o, s)
    }

    /// `next` has the same metadata, supply and balances as `self`.
    pub open spec fn same_balances(&self, next: &Self) -> bool {
        &&& self.same_metadata(next)
        &&& next.spec_total_supply() == self.spec_total_supply()
        &&& forall|x: Address| #[trigger] next.spec_balance(x) == self.spec_balance(x)
    }

    /// `next` is `self` with `amount` moved from `from` to `to`, and the
    /// supply unchanged. Moving to oneself leaves every balance as it was.
    pub open spec fn moved(&self, next: &Self, from: Address, to: Address, amount: nat) -> bool {
        &&& self.same_metadata(next)
        &&& next.spec_total_supply() == self.spec_total_supply()
        &&& forall|x: Address| #[trigger]
            next.spec_balance(x) == self.spec_balance(x) - (if x == from {
                amount as int
            } else {
                0
            }) + (if x == to {
                amount as int
            } else {
                0
            })
    }

    /// A ledger with no supply, no balances and empty metadata.
    pub fn new() -> (r: SyndicateToken)
        ensures
            r.wf(),
            r.spec_total_supply() == 0,
            forall|a: Address| #[trigger] r.spec_balance(a) == 0,
            forall|o: Address, s: Address| #[trigger] r.spec_allowance(o, s) == 0,
            r.spec_name().len() == 0,
            r.spec_symbol().len() == 0,
            r.spec_decimals() == 0,
    {
        SyndicateToken {
            total_supply: 0,
            balances: AmountTable::new(),
            allowances: AmountTable::new(),
            name: String::new(),
            symbol: String::new(),
            decimals: 0,
        }
    }

    /// Sets the metadata and the supply, and credits the whole supply to
    /// `recipient`. Every other balance and every allowance is zero after.
    pub fn init(
        &mut self,
        name: String,
        symbol: String,
        decimals: u8,
        initial_supply: u128,
        recipient: Address,
    )
        ensures
            final(self).wf(),
            final(self).spec_name() == name@,
            final(self).spec_symbol() == symbol@,
            final(self).spec_decimals() == decimals,
            final(self).spec_total_supply() == initial_supply,
            final(self).spec_balance(recipient) == initial_supply,
            forall|a: Address| a != recipient ==> #[trigger] final(self).spec_balance(a) == 0,
            forall|o: Address, s: Address| #[trigger] final(self).spec_allowance(o, s) == 0,
    {
        self.name = name;
        self.symbol = symbol;
        self.decimals = decimals;
        self.total_supply = initial_supply;
        self.balances = AmountTable::singleton(recipient as u128, initial_supply);
        self.allowances = AmountTable::new();
    }

    pub fn name(&self) -> (r: String)
        ensures
            r@ == self.spec_name(),
    {
        self.name.clone()
    }

    pub fn symbol(&self) -> (r: String)
        ensures
            r@ == self.spec_symbol(),
    {
        self.symbol.clone()
    }

    pub fn decimals(&self) -> (r: u8)
        ensures
            r == self.spec_decimals(),
    {
        self.decimals
    }

    pub fn total_supply(&self) -> (r: u128)
        ensures
            r == self.spec_total_supply(),
    {
        self.total_supply
    }

    pub fn balance_of(&self, owner: Address) -> (r: u128)
        requires
            self.wf(),
        ensures
            r == self.spec_balance(owner),
    {
        self.balances.get(owner as u128)
    }

    pub fn allowance(&self, owner: Address, spender: Address) -> (r: u128)
        requires
            self.wf(),
        ensures
            r == self.spec_allowance(owner, spender),
    {
        self.allowances.get(pair_key(owner, spender))
    }

    /// Moves `amount` from `from` to `to`. A zero amount is a no-op that
    /// returns `false`; an amount above `from`'s balance is refused.
    fn transfer_internal(&mut self, from: Address, to: Address, amount: u128) -> (r: Result<
        bool,
        TokenError,
    >)
        requires
            old(self).wf(),
        ensures
            final(self).wf(),
            final(self).same_allowances(&*old(self)),
            amount == 0 ==> r == Ok::<bool, TokenError>(false) && *final(self) == *old(self),
            amount > 0 && old(self).spec_balance(from) < amount ==> r == Err::<bool, TokenError>(
                TokenError::InsufficientBalance,
            ) && *final(self) == *old(self),
            amount > 0 && old(self).spec_balance(from) >= amount ==> r == Ok::<bool, TokenError>(
                true,
            ) && old(self).moved(&*final(self), from, to, amount as nat),
    {
        if amount == 0 {
            return Ok(false);
        }
        let from_balance = self.balances.get(from as u128);
        if from_balance < amount {
            return Err(TokenError::InsufficientBalance);
        }
        let ghost before = *self;
        self.balances.set(from as u128, from_balance - amount);
        let to_balance = self.balances.get(to as u128);
        proof {
            self.balances.lemma_value_le_total(to as u128);
        }
        self.balances.set(to as u128, to_balance + amount);
        proof {
            assert forall|x: Address| #[trigger]
                self.spec_balance(x) == before.spec_balance(x) - (if x == from {
                    amount as int
                } else {
                    0
                }) + (if x == to {
                    amount as int
                } else {
                    0
                }) by {}
        }
        Ok(true)
    }

    /// Moves `amount` from `caller` to `recipient`.
    pub fn transfer(&mut self, caller: Address, recipient: Address, amount: u128) -> (r: Result<
        bool,
        TokenError,
    >)
        requires
            old(self).wf(),
        ensures
            final(self).wf(),
            final(self).same_allowances(&*old(self)),
            amount == 0 ==> r == Ok::<bool, TokenError>(false) && *final(self) == *old(self),
            amount > 0 && old(self).spec_balance(caller) < amount ==> r == Err::<
                bool,
                TokenError,
            >(TokenError::InsufficientBalance) && *final(self) == *old(self),
            amount > 0 && old(self).spec_balance(caller) >= amount ==> r == Ok::<bool, TokenError>(
                true,
            ) && old(self).moved(&*final(self), caller, recipient, amount as nat),
    {
        self.transfer_internal(caller, recipient, amount)
    }

    /// Sets what `spender` may move out of `caller`'s balance to `amount`,
    /// replacing the earlier allowance.
    pub fn approve(&mut self, caller: Address, spender: Address, amount: u128) -> (r: bool)
        requires
            old(self).wf(),
        ensures
            r,
            final(self).wf(),
            final(self).spec_allowance(caller, spender) == amount,
            forall|o: Address, s: Address|
                (o, s) != (caller, spender) ==> #[trigger] final(self).spec_allowance(o, s)
                    == old(self).spec_allowance(o, s),
            old(self).same_balances(&*final(self)),
    {
        let ghost before = *self;
        self.allowances.set(pair_key(caller, spender), amount);
        proof {
            assert forall|o: Address, s: Address| (o, s) != (caller, spender) implies #[trigger]
                self.spec_allowance(o, s) == before.spec_allowance(o, s) by {
                if pair_key_spec(o, s) == pair_key_spec(caller, spender) {
                    lemma_pair_key_injective(o, s, caller, spender);
                }
            }
        }
        true
    }

    /// Moves `amount` from `owner` to `recipient` on behalf of `caller`,
    /// spending that much of `owner`'s allowance to `caller`.
    pub fn transfer_from(
        &mut self,
        caller: Address,
        owner: Address,
        recipient: Address,
        amount: u128,
    ) -> (r: Result<bool, TokenError>)
        requires
            old(self).wf(),
        ensures
            final(self).wf(),
            old(self).spec_allowance(owner, caller) < amount ==> r == Err::<bool, TokenError>(
                TokenError::InsufficientAllowance,
            ) && *final(self) == *old(self),
            amount == 0 ==> r == Ok::<bool, TokenError>(false) && *final(self) == *old(self),
            old(self).spec_allowance(owner, caller) >= amount && amount > 0 && old(
                self,
            ).spec_balance(owner) < amount ==> r == Err::<bool, TokenError>(
                TokenError::InsufficientBalance,
            ) && *final(self) == *old(self),
            old(self).spec_allowance(owner, caller) >= amount && amount > 0 && old(
                self,
            ).spec_balance(owner) >= amount ==> {
                &&& r == Ok::<bool, TokenError>(true)
                &&& old(self).moved(&*final(self), owner, recipient, amount as nat)
                &&& final(self).spec_allowance(owner, caller) == old(self).spec_allowance(
                    owner,
                    caller,
                ) - amount
                &&& forall|o: Address, s: Address|
                    (o, s) != (owner, caller) ==> #[trigger] final(self).spec_allowance(o, s)
                        == old(self).spec_allowance(o, s)
            },
    {
        let key = pair_key(owner, caller);
        let current_allowance = self.allowances.get(key);
        if current_allowance < amount {
            return Err(TokenError::InsufficientAllowance);
        }
        if amount == 0 {
            return Ok(false);
        }
        if self.balances.get(owner as u128) < amount {
            return Err(TokenError::InsufficientBalance);
        }
        let ghost before = *self;
        self.allowances.set(key, current_allowance - amount);
        proof {
            assert forall|o: Address, s: Address| (o, s) != (owner, caller) implies #[trigger]
                self.spec_allowance(o, s) == before.spec_allowance(o, s) by {
                if pair_key_spec(o, s) == pair_key_spec(owner, caller) {
                    lemma_pair_key_injective(o, s, owner, caller);
                }
            }
            assert(before.same_balances(&*self));
        }
        let ghost mid = *self;
        let r = self.transfer_internal(owner, recipient, amount);
        proof {
            assert(mid.moved(&*self, owner, recipient, amount as nat));
            assert forall|x: Address| #[trigger]
                self.spec_balance(x) == before.spec_balance(x) - (if x == owner {
                    amount as int
                } else {
                    0
                }) + (if x == recipient {
                    amount as int
                } else {
                    0
                }) by {
                assert(self.spec_balance(x) == mid.spec_balance(x) - (if x == owner {
                    amount as int
                } else {
                    0
                }) + (if x == recipient {
                    amount as int
                } else {
                    0
                }));
                assert(mid.spec_balance(x) == before.spec_balance(x));
            }
            assert forall|o: Address, s: Address| #[trigger]
                self.spec_allowance(o, s) == mid.spec_allowance(o, s) by {}
        }
        r
    }

    /// Creates `amount` new tokens and credits them to `recipient`. Refused
    /// where the total supply would not fit in a `u128`.
    pub fn mint(&mut self, recipient: Address, amount: u128) -> (r: Result<(), TokenError>)
        requires
            old(self).wf(),
        ensures
            final(self).wf(),
            final(self).same_allowances(&*old(self)),
            old(self).spec_total_supply() + amount > u128::MAX ==> r == Err::<(), TokenError>(
                TokenError::SupplyOverflow,
            ) && *final(self) == *old(self),
            old(self).spec_total_supply() + amount <= u128::MAX ==> {
                &&& r == Ok::<(), TokenError>(())
                &&& old(self).same_metadata(&*final(self))
                &&& final(self).spec_total_supply() == old(self).spec_total_supply() + amount
                &&& forall|x: Address| #[trigger]
                    final(self).spec_balance(x) == old(self).spec_balance(x) + (if x == recipient {
                        amount as int
                    } else {
                        0
                    })
            },
    {
        if amount > u128::MAX - self.total_supply {
            return Err(TokenError::SupplyOverflow);
        }
        let recipient_balance = self.balances.get(recipient as u128);
        proof {
            self.balances.lemma_value_le_total(recipient as u128);
        }
        self.total_supply = self.total_supply + amount;
        self.balances.set(recipient as u128, recipient_balance + amount);
        Ok(())
    }

    /// The sum of all balance entries equals the total supply, in every
    /// state that the ledger's operations reach.
    pub proof fn lemma_conservation(&self)
        requires
            self.wf(),
        ensures
            self.spec_balance_sum() == self.spec_total_supply(),
    {
    }
}

} // verus!
