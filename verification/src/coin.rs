//! The token: a PSP22 ledger with metadata, minting and burning.
//!
//! The host hands each operation the caller's address and takes the emitted
//! events from the token with `take_events`.
use vstd::prelude::*;
use vstd::string::StringExecFns;

use crate::address::Address;
use crate::error::PSP22Error;
use crate::events::{Approval, Event, Transfer};
use crate::laws::{
    lemma_approve_outcome, lemma_burn_keeps_consistency, lemma_burn_outcome,
    lemma_decrease_allowance_outcome, lemma_increase_allowance_outcome,
    lemma_mint_keeps_consistency, lemma_mint_outcome, lemma_transfer_from_outcome,
    lemma_transfer_keeps_consistency, lemma_transfer_outcome,
};
use crate::model::CoinView;
use crate::table::{lemma_map_sum_bounds, lemma_map_sum_insert, map_sum, Table};
use crate::u256::{lemma_u256_from_view, lemma_u256_range, u256_max, U256};

verus! {

/// A fungible token: total supply, balances, allowances, metadata and the
/// events emitted and not yet taken.
pub struct PspCoin {
    total_supply: U256,
    balances: Table<Address>,
    allowances: Table<(Address, Address)>,
    metadata: (String, String, u8),
    events: Vec<Event>,
}

impl View for PspCoin {
    type V = CoinView;

    closed spec fn view(&self) -> CoinView {
        CoinView {
            supply: self.total_supply@,
            balances: self.balances@,
            allowances: self.allowances@,
            name: self.metadata.0@,
            symbol: self.metadata.1@,
            decimals: self.metadata.2,
            events: self.events@,
        }
    }
}

impl PspCoin {
    /// The tables are well formed and the state is consistent.
    pub closed spec fn wf(&self) -> bool {
        &&& self.balances.wf()
        &&& self.allowances.wf()
        &&& self@.consistent()
    }

    /// The view of a fresh token with the given balances and supply.
    pub open spec fn fresh_view(supply: nat, balances: Map<Address, nat>) -> CoinView {
        CoinView {
            supply,
            balances,
            allowances: Map::empty(),
            name: "MemeCoin"@,
            symbol: "MEME"@,
            decimals: 18,
            events: Seq::empty(),
        }
    }

    fn fresh_metadata() -> (r: (String, String, u8))
        ensures
            r.0@ == "MemeCoin"@,
            r.1@ == "MEME"@,
            r.2 == 18,
    {
        (String::from_str("MemeCoin"), String::from_str("MEME"), 18)
    }

    /// A token with zero supply.
    pub fn new() -> (r: PspCoin)
        ensures
            r.wf(),
            r@ == PspCoin::fresh_view(0, Map::empty()),
    {
        let r = PspCoin {
            total_supply: U256::zero(),
            balances: Table::new(),
            allowances: Table::new(),
            metadata: PspCoin::fresh_metadata(),
            events: Vec::new(),
        };
        assert(r@ =~= PspCoin::fresh_view(0, Map::empty()));
        r
    }

    /// A token whose whole supply `total_supply` belongs to `caller`.
    pub fn new_with_supply(caller: Address, total_supply: U256) -> (r: PspCoin)
        ensures
            r.wf(),
            r@ == PspCoin::fresh_view(
                total_supply@,
                Map::<Address, nat>::empty().insert(caller, total_supply@),
            ),
    {
        let mut balances = Table::new();
        balances.insert(caller, total_supply);
        let r = PspCoin {
            total_supply,
            balances,
            allowances: Table::new(),
            metadata: PspCoin::fresh_metadata(),
            events: Vec::new(),
        };
        proof {
            lemma_u256_range(total_supply);
            lemma_map_sum_insert(Map::<Address, nat>::empty(), caller, total_supply@);
            assert(map_sum(Map::<Address, nat>::empty()) == 0);
        }
        assert(r@ =~= PspCoin::fresh_view(
            total_supply@,
            Map::<Address, nat>::empty().insert(caller, total_supply@),
        ));
        r
    }

    /// Moves `value` tokens from `from` to `to`.
    fn transfer_from_to(&mut self, from: Address, to: Address, value: U256) -> (r: Result<
        (),
        PSP22Error,
    >)
        requires
            old(self).wf(),
        ensures
            final(self).wf(),
            r == old(self)@.transfer_spec(from, to, value@).0,
            final(self)@ == old(self)@.transfer_spec(from, to, value@).1,
    {
        if from.same(&to) || value.is_zero() {
            return Ok(());
        }
        let from_balance = self.balances.get(&from);
        if from_balance.less_than(&value) {
            return Err(PSP22Error::InsufficientBalance);
        }
        let to_balance = self.balances.get(&to);
        let new_to_balance = match to_balance.checked_add(&value) {
            Some(sum) => sum,
            None => {
                return Err(PSP22Error::Overflow);
            },
        };
        let ghost before = self@;
        self.balances.insert(from, from_balance.sub(&value));
        self.balances.insert(to, new_to_balance);
        self.events.push(Event::Transfer(Transfer { from: Some(from), to: Some(to), value }));
        proof {
            lemma_u256_from_view(value);
            lemma_transfer_keeps_consistency(before, from, to, value@);
        }
        assert(self@ =~= before.transfer_spec(from, to, value@).1);
        Ok(())
    }

    /// The total supply.
    pub fn total_supply(&self) -> (r: U256)
        ensures
            r@ == self@.supply,
    {
        self.total_supply
    }

    /// What `owner` holds.
    pub fn balance_of(&self, owner: Address) -> (r: U256)
        requires
            self.wf(),
        ensures
            r@ == self@.balance(owner),
    {
        self.balances.get(&owner)
    }

    /// What `spender` may move of `owner`'s tokens.
    pub fn allowance(&self, owner: Address, spender: Address) -> (r: U256)
        requires
            self.wf(),
        ensures
            r@ == self@.allowance(owner, spender),
    {
        self.allowances.get(&(owner, spender))
    }

    /// `caller` moves `value` of its tokens to `to`.
    pub fn transfer(&mut self, caller: Address, to: Address, value: U256, _data: Vec<u8>) -> (r:
        Result<(), PSP22Error>)
        requires
            old(self).wf(),
        ensures
            final(self).wf(),
            r == old(self)@.transfer_spec(caller, to, value@).0,
            final(self)@ == old(self)@.transfer_spec(caller, to, value@).1,
            caller != to && value@ > 0 ==> (r is Ok <==> old(self)@.balance(caller) >= value@),
            caller != to && value@ > 0 ==> (r == Err::<(), PSP22Error>(PSP22Error::InsufficientBalance)
                <==> old(self)@.balance(caller) < value@),
            r is Ok && caller != to ==> final(self)@.balance(caller) == old(self)@.balance(caller)
                - value@ && final(self)@.balance(to) == old(self)@.balance(to) + value@,
            r is Err ==> final(self)@ == old(self)@,
            final(self)@.supply == old(self)@.supply,
    {
        proof {
            lemma_u256_range(value);
            if caller != to && value@ > 0 {
                lemma_transfer_outcome(old(self)@, caller, to, value@);
            }
        }
        self.transfer_from_to(caller, to, value)
    }

    /// `caller` moves `value` tokens of `from` to `to`; where `caller` is not
    /// `from`, this spends `caller`'s allowance on `from`.
    pub fn transfer_from(
        &mut self,
        caller: Address,
        from: Address,
        to: Address,
        value: U256,
        _data: Vec<u8>,
    ) -> (r: Result<(), PSP22Error>)
        requires
            old(self).wf(),
        ensures
            final(self).wf(),
            r == old(self)@.transfer_from_spec(caller, from, to, value@).0,
            final(self)@ == old(self)@.transfer_from_spec(caller, from, to, value@).1,
            caller != from && from != to && value@ > 0 ==> (r == Err::<(), PSP22Error>(
                PSP22Error::InsufficientAllowance,
            ) <==> old(self)@.allowance(from, caller) < value@),
            caller != from && from != to && value@ > 0 ==> (r is Ok <==> (old(self)@.allowance(
                from,
                caller,
            ) >= value@ && old(self)@.balance(from) >= value@)),
            r is Ok && caller != from && from != to ==> final(self)@.allowance(from, caller)
                == old(self)@.allowance(from, caller) - value@,
            r is Ok && from != to ==> final(self)@.balance(from) == old(self)@.balance(from)
                - value@ && final(self)@.balance(to) == old(self)@.balance(to) + value@,
            final(self)@.supply == old(self)@.supply,
    {
        proof {
            lemma_u256_range(value);
            lemma_amounts_fit(self, from, from, caller);
            if caller != from && from != to && value@ > 0 {
                lemma_transfer_from_outcome(old(self)@, caller, from, to, value@);
            }
            if caller == from && from != to && value@ > 0 {
                lemma_transfer_outcome(old(self)@, from, to, value@);
            }
        }
        if from.same(&to) || value.is_zero() {
            return Ok(());
        }
        if !caller.same(&from) {
            let allowance = self.allowances.get(&(from, caller));
            if allowance.less_than(&value) {
                return Err(PSP22Error::InsufficientAllowance);
            }
            let rest = allowance.sub(&value);
            let ghost before = self@;
            self.allowances.insert((from, caller), rest);
            self.events.push(Event::Approval(Approval { owner: from, spender: caller, value: rest }));
            proof {
                lemma_u256_from_view(rest);
            }
            assert(self@ =~= before.set_allowance(from, caller, rest@));
        }
        self.transfer_from_to(from, to, value)
    }

    /// `caller` allows `spender` to move `value` of its tokens.
    pub fn approve(&mut self, caller: Address, spender: Address, value: U256) -> (r: Result<
        (),
        PSP22Error,
    >)
        requires
            old(self).wf(),
        ensures
            final(self).wf(),
            r == old(self)@.approve_spec(caller, spender, value@).0,
            final(self)@ == old(self)@.approve_spec(caller, spender, value@).1,
            r is Ok,
            caller != spender ==> final(self)@.allowance(caller, spender) == value@,
            final(self)@.balances == old(self)@.balances,
            final(self)@.supply == old(self)@.supply,
    {
        proof {
            lemma_u256_range(value);
            if caller != spender {
                lemma_approve_outcome(old(self)@, caller, spender, value@);
            }
        }
        if caller.same(&spender) {
            return Ok(());
        }
        let ghost before = self@;
        self.allowances.insert((caller, spender), value);
        self.events.push(Event::Approval(Approval { owner: caller, spender, value }));
        proof {
            lemma_u256_from_view(value);
        }
        assert(self@ =~= before.set_allowance(caller, spender, value@));
        Ok(())
    }

    /// `caller` raises the allowance of `spender` by `delta_value`.
    pub fn increase_allowance(&mut self, caller: Address, spender: Address, delta_value: U256) -> (r:
        Result<(), PSP22Error>)
        requires
            old(self).wf(),
        ensures
            final(self).wf(),
            r == old(self)@.increase_allowance_spec(caller, spender, delta_value@).0,
            final(self)@ == old(self)@.increase_allowance_spec(caller, spender, delta_value@).1,
            caller != spender && delta_value@ > 0 ==> (r is Ok <==> old(self)@.allowance(caller, spender)
                + delta_value@ <= u256_max()),
            r is Ok && caller != spender ==> final(self)@.allowance(caller, spender) == old(
                self,
            )@.allowance(caller, spender) + delta_value@,
            r is Err ==> final(self)@ == old(self)@,
            final(self)@.balances == old(self)@.balances,
            final(self)@.supply == old(self)@.supply,
    {
        proof {
            if caller != spender && delta_value@ > 0 {
                lemma_increase_allowance_outcome(old(self)@, caller, spender, delta_value@);
            }
        }
        if caller.same(&spender) || delta_value.is_zero() {
            return Ok(());
        }
        let current = self.allowances.get(&(caller, spender));
        let new_allowance = match current.checked_add(&delta_value) {
            Some(sum) => sum,
            None => {
                return Err(PSP22Error::Overflow);
            },
        };
        let ghost before = self@;
        self.allowances.insert((caller, spender), new_allowance);
        self.events.push(
            Event::Approval(Approval { owner: caller, spender, value: new_allowance }),
        );
        proof {
            lemma_u256_from_view(new_allowance);
            lemma_u256_range(new_allowance);
        }
        assert(self@ =~= before.set_allowance(caller, spender, new_allowance@));
        Ok(())
    }

    /// `caller` lowers the allowance of `spender` by `delta_value`.
    pub fn decrease_allowance(&mut self, caller: Address, spender: Address, delta_value: U256) -> (r:
        Result<(), PSP22Error>)
        requires
            old(self).wf(),
        ensures
            final(self).wf(),
            r == old(self)@.decrease_allowance_spec(caller, spender, delta_value@).0,
            final(self)@ == old(self)@.decrease_allowance_spec(caller, spender, delta_value@).1,
            caller != spender && delta_value@ > 0 ==> (r is Ok <==> old(self)@.allowance(caller, spender)
                >= delta_value@),
            r is Ok && caller != spender ==> final(self)@.allowance(caller, spender) == old(
                self,
            )@.allowance(caller, spender) - delta_value@,
            r is Err ==> final(self)@ == old(self)@,
            final(self)@.balances == old(self)@.balances,
            final(self)@.supply == old(self)@.supply,
    {
        proof {
            lemma_amounts_fit(self, caller, caller, spender);
            if caller != spender && delta_value@ > 0 {
                lemma_decrease_allowance_outcome(old(self)@, caller, spender, delta_value@);
            }
        }
        if caller.same(&spender) || delta_value.is_zero() {
            return Ok(());
        }
        let current = self.allowances.get(&(caller, spender));
        if current.less_than(&delta_value) {
            return Err(PSP22Error::InsufficientAllowance);
        }
        let new_allowance = current.sub(&delta_value);
        let ghost before = self@;
        self.allowances.insert((caller, spender), new_allowance);
        self.events.push(
            Event::Approval(Approval { owner: caller, spender, value: new_allowance }),
        );
        proof {
            lemma_u256_from_view(new_allowance);
        }
        assert(self@ =~= before.set_allowance(caller, spender, new_allowance@));
        Ok(())
    }

    /// The token's name.
    pub fn name(&self) -> (r: Option<String>)
        ensures
            r is Some,
            r->0@ == self@.name,
    {
        Some(self.metadata.0.clone())
    }

    /// The token's symbol.
    pub fn symbol(&self) -> (r: Option<String>)
        ensures
            r is Some,
            r->0@ == self@.symbol,
    {
        Some(self.metadata.1.clone())
    }

    /// The number of decimals the token's amounts are shown with.
    pub fn decimals(&self) -> (r: u8)
        ensures
            r == self@.decimals,
    {
        self.metadata.2
    }

    /// Creates `value` new tokens on the account of `caller`.
    pub fn mint(&mut self, caller: Address, value: U256) -> (r: Result<(), PSP22Error>)
        requires
            old(self).wf(),
        ensures
            final(self).wf(),
            r == old(self)@.mint_spec(caller, value@).0,
            final(self)@ == old(self)@.mint_spec(caller, value@).1,
            value@ > 0 ==> (r is Ok <==> (old(self)@.balance(caller) + value@ <= u256_max() && old(
                self,
            )@.supply + value@ <= u256_max())),
            r is Ok ==> final(self)@.balance(caller) == old(self)@.balance(caller) + value@
                && final(self)@.supply == old(self)@.supply + value@,
            r is Err ==> final(self)@ == old(self)@,
    {
        proof {
            lemma_u256_range(value);
            if value@ > 0 {
                lemma_mint_outcome(old(self)@, caller, value@);
            }
        }
        if value.is_zero() {
            return Ok(());
        }
        let balance = self.balances.get(&caller);
        let new_balance = match balance.checked_add(&value) {
            Some(sum) => sum,
            None => {
                return Err(PSP22Error::Overflow);
            },
        };
        let new_supply = match self.total_supply.checked_add(&value) {
            Some(sum) => sum,
            None => {
                return Err(PSP22Error::Overflow);
            },
        };
        let ghost before = self@;
        self.balances.insert(caller, new_balance);
        self.total_supply = new_supply;
        self.events.push(Event::Transfer(Transfer { from: None, to: Some(caller), value }));
        proof {
            lemma_u256_from_view(value);
            lemma_u256_range(new_balance);
            lemma_u256_range(new_supply);
            lemma_mint_keeps_consistency(before, caller, value@);
        }
        assert(self@ =~= before.mint_spec(caller, value@).1);
        Ok(())
    }

    /// Destroys `value` tokens of the account of `caller`.
    pub fn burn(&mut self, caller: Address, value: U256) -> (r: Result<(), PSP22Error>)
        requires
            old(self).wf(),
        ensures
            final(self).wf(),
            r == old(self)@.burn_spec(caller, value@).0,
            final(self)@ == old(self)@.burn_spec(caller, value@).1,
            value@ > 0 ==> (r is Ok <==> old(self)@.balance(caller) >= value@),
            r is Ok ==> final(self)@.balance(caller) == old(self)@.balance(caller) - value@
                && final(self)@.supply == old(self)@.supply - value@,
            r is Err ==> final(self)@ == old(self)@,
    {
        proof {
            lemma_u256_range(value);
            if value@ > 0 {
                lemma_burn_outcome(old(self)@, caller, value@);
            }
        }
        if value.is_zero() {
            return Ok(());
        }
        let balance = self.balances.get(&caller);
        if balance.less_than(&value) {
            return Err(PSP22Error::InsufficientBalance);
        }
        let ghost before = self@;
        proof {
            lemma_burn_keeps_consistency(before, caller, value@);
        }
        self.balances.insert(caller, balance.sub(&value));
        self.total_supply = self.total_supply.sub(&value);
        self.events.push(Event::Transfer(Transfer { from: Some(caller), to: None, value }));
        proof {
            lemma_u256_from_view(value);
        }
        assert(self@ =~= before.burn_spec(caller, value@).1);
        Ok(())
    }

    /// Hands out the events emitted so far, oldest first, and forgets them.
    pub fn take_events(&mut self) -> (r: Vec<Event>)
        ensures
            r@ == old(self)@.events,
            final(self)@ == (CoinView { events: Seq::empty(), ..old(self)@ }),
            old(self).wf() ==> final(self).wf(),
    {
        let mut taken = Vec::new();
        std::mem::swap(&mut taken, &mut self.events);
        assert(self@ =~= (CoinView { events: Seq::empty(), ..old(self)@ }));
        taken
    }
}

/// In every token that the operations can produce, the total supply is the
/// sum of all balances, and no balance exceeds the supply.
pub proof fn lemma_supply_is_sum_of_balances(coin: &PspCoin, a: Address)
    requires
        coin.wf(),
    ensures
        coin@.supply == map_sum(coin@.balances),
        coin@.balance(a) <= coin@.supply,
{
    lemma_map_sum_bounds(coin@.balances, a);
}

/// Every balance and every allowance of a token fits in 256 bits.
pub proof fn lemma_amounts_fit(coin: &PspCoin, a: Address, owner: Address, spender: Address)
    ensures
        coin@.balance(a) <= u256_max(),
        coin@.allowance(owner, spender) <= u256_max(),
{
    coin.balances.lemma_amounts_fit(a);
    coin.allowances.lemma_amounts_fit((owner, spender));
}

/// A fresh token has the supply it was made with, all of it on the account
/// it was made for (nothing anywhere for `new`), no allowances, no pending
/// events, and the name "MemeCoin", symbol "MEME" and 18 decimals.
pub proof fn lemma_fresh_token(caller: Address, supply: nat, x: Address, o: Address, p: Address)
    ensures
        ({
            let z = PspCoin::fresh_view(0, Map::empty());
            &&& z.supply == 0
            &&& z.balance(x) == 0
            &&& z.allowance(o, p) == 0
            &&& z.events.len() == 0
        }),
        ({
            let f = PspCoin::fresh_view(supply, Map::<Address, nat>::empty().insert(caller, supply));
            &&& f.supply == supply
            &&& f.balance(caller) == supply
            &&& (x != caller ==> f.balance(x) == 0)
            &&& f.allowance(o, p) == 0
            &&& f.events.len() == 0
            &&& f.name == "MemeCoin"@
            &&& f.symbol == "MEME"@
            &&& f.decimals == 18
        }),
{
}

} // verus!
