//! The abstract state of the token and what each operation does to it.
use vstd::prelude::*;

use crate::address::Address;
use crate::error::PSP22Error;
use crate::events::{Approval, Event, Transfer};
use crate::table::{amount_of, map_sum};
use crate::u256::{u256_from_nat, u256_max};

verus! {

/// The abstract state of the token.
#[verifier::ext_equal]
pub struct CoinView {
    /// The total supply.
    pub supply: nat,
    /// What each account holds; an absent account holds nothing.
    pub balances: Map<Address, nat>,
    /// What each spender may move of each owner's tokens, keyed `(owner, spender)`.
    pub allowances: Map<(Address, Address), nat>,
    pub name: Seq<char>,
    pub symbol: Seq<char>,
    pub decimals: u8,
    /// The events emitted so far and not yet taken.
    pub events: Seq<Event>,
}

/// The event for `value` tokens moved from `from` to `to`.
pub open spec fn transfer_event(from: Option<Address>, to: Option<Address>, value: nat) -> Event {
    Event::Transfer(Transfer { from, to, value: u256_from_nat(value) })
}

/// The event for `spender` now being allowed `value` tokens of `owner`.
pub open spec fn approval_event(owner: Address, spender: Address, value: nat) -> Event {
    Event::Approval(Approval { owner, spender, value: u256_from_nat(value) })
}

impl CoinView {
    /// What `a` holds.
    pub open spec fn balance(self, a: Address) -> nat {
        amount_of(self.balances, a)
    }

    /// What `spender` may move of `owner`'s tokens.
    pub open spec fn allowance(self, owner: Address, spender: Address) -> nat {
        amount_of(self.allowances, (owner, spender))
    }

    /// The supply fits in 256 bits and is the sum of the finitely many balances.
    pub open spec fn consistent(self) -> bool {
        &&& self.balances.dom().finite()
        &&& self.supply == map_sum(self.balances)
        &&& self.supply <= u256_max()
    }

    /// The state with `balances` in place of the balances and `e` emitted.
    pub open spec fn set_balances(self, balances: Map<Address, nat>, e: Event) -> CoinView {
        CoinView { balances, events: self.events.push(e), ..self }
    }

    /// The state with the allowance of `(owner, spender)` set to `value` and its event emitted.
    pub open spec fn set_allowance(self, owner: Address, spender: Address, value: nat) -> CoinView {
        CoinView {
            allowances: self.allowances.insert((owner, spender), value),
            events: self.events.push(approval_event(owner, spender, value)),
            ..self
        }
    }

    /// Moving `value` tokens from `from` to `to`.
    pub open spec fn transfer_spec(self, from: Address, to: Address, value: nat) -> (
        Result<(), PSP22Error>,
        CoinView,
    ) {
        if from == to || value == 0 {
            (Ok(()), self)
        } else if self.balance(from) < value {
            (Err(PSP22Error::InsufficientBalance), self)
        } else if self.balance(to) + value > u256_max() {
            (Err(PSP22Error::Overflow), self)
        } else {
            (
                Ok(()),
                self.set_balances(
                    self.balances.insert(from, (self.balance(from) - value) as nat).insert(
                        to,
                        self.balance(to) + value,
                    ),
                    transfer_event(Some(from), Some(to), value),
                ),
            )
        }
    }

    /// `caller` moving `value` tokens of `from` to `to`, spending allowance
    /// where `caller` is not `from`.
    pub open spec fn transfer_from_spec(
        self,
        caller: Address,
        from: Address,
        to: Address,
        value: nat,
    ) -> (Result<(), PSP22Error>, CoinView) {
        if from == to || value == 0 {
            (Ok(()), self)
        } else if caller != from {
            let a = self.allowance(from, caller);
            if a < value {
                (Err(PSP22Error::InsufficientAllowance), self)
            } else {
                self.set_allowance(from, caller, (a - value) as nat).transfer_spec(from, to, value)
            }
        } else {
            self.transfer_spec(from, to, value)
        }
    }

    /// `owner` allowing `spender` to move `value` of its tokens.
    pub open spec fn approve_spec(self, owner: Address, spender: Address, value: nat) -> (
        Result<(), PSP22Error>,
        CoinView,
    ) {
        if owner == spender {
            (Ok(()), self)
        } else {
            (Ok(()), self.set_allowance(owner, spender, value))
        }
    }

    /// `owner` raising the allowance of `spender` by `delta`.
    pub open spec fn increase_allowance_spec(
        self,
        owner: Address,
        spender: Address,
        delta: nat,
    ) -> (Result<(), PSP22Error>, CoinView) {
        if owner == spender || delta == 0 {
            (Ok(()), self)
        } else if self.allowance(owner, spender) + delta > u256_max() {
            (Err(PSP22Error::Overflow), self)
        } else {
            (Ok(()), self.set_allowance(owner, spender, self.allowance(owner, spender) + delta))
        }
    }

    /// `owner` lowering the allowance of `spender` by `delta`.
    pub open spec fn decrease_allowance_spec(
        self,
        owner: Address,
        spender: Address,
        delta: nat,
    ) -> (Result<(), PSP22Error>, CoinView) {
        if owner == spender || delta == 0 {
            (Ok(()), self)
        } else if self.allowance(owner, spender) < delta {
            (Err(PSP22Error::InsufficientAllowance), self)
        } else {
            (
                Ok(()),
                self.set_allowance(
                    owner,
                    spender,
                    (self.allowance(owner, spender) - delta) as nat,
                ),
            )
        }
    }

    /// Creating `value` new tokens on the account of `caller`.
    pub open spec fn mint_spec(self, caller: Address, value: nat) -> (
        Result<(), PSP22Error>,
        CoinView,
    ) {
        if value == 0 {
            (Ok(()), self)
        } else if self.balance(caller) + value > u256_max() {
            (Err(PSP22Error::Overflow), self)
        } else if self.supply + value > u256_max() {
            (Err(PSP22Error::Overflow), self)
        } else {
            (
                Ok(()),
                CoinView {
                    supply: self.supply + value,
                    ..self.set_balances(
                        self.balances.insert(caller, self.balance(caller) + value),
                        transfer_event(None, Some(caller), value),
                    )
                },
            )
        }
    }

    /// Destroying `value` tokens of the account of `caller`.
    pub open spec fn burn_spec(self, caller: Address, value: nat) -> (
        Result<(), PSP22Error>,
        CoinView,
    ) {
        if value == 0 {
            (Ok(()), self)
        } else if self.balance(caller) < value {
            (Err(PSP22Error::InsufficientBalance), self)
        } else {
            (
                Ok(()),
                CoinView {
                    supply: (self.supply - value) as nat,
                    ..self.set_balances(
                        self.balances.insert(caller, (self.balance(caller) - value) as nat),
                        transfer_event(Some(caller), None, value),
                    )
                },
            )
        }
    }
}

} // verus!
