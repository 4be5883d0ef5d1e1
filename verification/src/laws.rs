//! What holds of the token's operations over all states and arguments.
use vstd::prelude::*;

use crate::address::Address;
use crate::error::PSP22Error;
use crate::events::Event;
use crate::model::CoinView;
use crate::table::{
    amount_of, lemma_map_sum_bounds, lemma_map_sum_insert, lemma_map_sum_two,
};
use crate::u256::{lemma_u256_from_nat, u256_max};

verus! {

/// A transfer keeps the supply equal to the sum of the balances, and it never
/// fails for want of room: the receiver's new balance is bounded by the supply.
pub proof fn lemma_transfer_keeps_consistency(s: CoinView, from: Address, to: Address, value: nat)
    requires
        s.consistent(),
    ensures
        s.transfer_spec(from, to, value).1.consistent(),
        s.transfer_spec(from, to, value).0 != Err::<(), PSP22Error>(PSP22Error::Overflow),
{
    if !(from == to || value == 0) && s.balance(from) >= value {
        let bf = s.balance(from);
        let bt = s.balance(to);
        lemma_map_sum_two(s.balances, from, to);
        let b1 = s.balances.insert(from, (bf - value) as nat);
        lemma_map_sum_insert(s.balances, from, (bf - value) as nat);
        assert(amount_of(b1, to) == bt);
        lemma_map_sum_insert(b1, to, bt + value);
    }
}

/// A mint keeps the supply equal to the sum of the balances.
pub proof fn lemma_mint_keeps_consistency(s: CoinView, caller: Address, value: nat)
    requires
        s.consistent(),
    ensures
        s.mint_spec(caller, value).1.consistent(),
{
    lemma_map_sum_insert(s.balances, caller, s.balance(caller) + value);
}

/// A burn keeps the supply equal to the sum of the balances; the supply is
/// never smaller than the balance burnt from.
pub proof fn lemma_burn_keeps_consistency(s: CoinView, caller: Address, value: nat)
    requires
        s.consistent(),
    ensures
        s.burn_spec(caller, value).1.consistent(),
        s.balance(caller) <= s.supply,
{
    lemma_map_sum_bounds(s.balances, caller);
    if s.balance(caller) >= value {
        lemma_map_sum_insert(s.balances, caller, (s.balance(caller) - value) as nat);
    }
}

/// A request that moves nothing, or that names the same account twice, is
/// granted and changes nothing.
pub proof fn lemma_no_ops(s: CoinView, caller: Address, a: Address, b: Address, value: nat)
    ensures
        s.transfer_spec(a, a, value) == (Ok::<(), PSP22Error>(()), s),
        s.transfer_spec(a, b, 0) == (Ok::<(), PSP22Error>(()), s),
        s.transfer_from_spec(caller, a, a, value) == (Ok::<(), PSP22Error>(()), s),
        s.transfer_from_spec(caller, a, b, 0) == (Ok::<(), PSP22Error>(()), s),
        s.approve_spec(a, a, value) == (Ok::<(), PSP22Error>(()), s),
        s.increase_allowance_spec(a, a, value) == (Ok::<(), PSP22Error>(()), s),
        s.increase_allowance_spec(a, b, 0) == (Ok::<(), PSP22Error>(()), s),
        s.decrease_allowance_spec(a, a, value) == (Ok::<(), PSP22Error>(()), s),
        s.decrease_allowance_spec(a, b, 0) == (Ok::<(), PSP22Error>(()), s),
        s.mint_spec(caller, 0) == (Ok::<(), PSP22Error>(()), s),
        s.burn_spec(caller, 0) == (Ok::<(), PSP22Error>(()), s),
{
}

/// A refused transfer, approval change, mint or burn leaves the token as it was.
pub proof fn lemma_refusals_change_nothing(
    s: CoinView,
    caller: Address,
    other: Address,
    value: nat,
)
    ensures
        s.transfer_spec(caller, other, value).0 is Err ==> s.transfer_spec(caller, other, value).1
            == s,
        s.approve_spec(caller, other, value).0 is Ok,
        s.increase_allowance_spec(caller, other, value).0 is Err
            ==> s.increase_allowance_spec(caller, other, value).1 == s,
        s.decrease_allowance_spec(caller, other, value).0 is Err
            ==> s.decrease_allowance_spec(caller, other, value).1 == s,
        s.mint_spec(caller, value).0 is Err ==> s.mint_spec(caller, value).1 == s,
        s.burn_spec(caller, value).0 is Err ==> s.burn_spec(caller, value).1 == s,
{
}

/// A `transfer_from` refused for want of allowance, or made by the owner
/// itself and refused, leaves the token as it was.
pub proof fn lemma_transfer_from_refusals(
    s: CoinView,
    caller: Address,
    from: Address,
    to: Address,
    value: nat,
)
    requires
        s.transfer_from_spec(caller, from, to, value).0 is Err,
        caller == from || s.transfer_from_spec(caller, from, to, value).0 == Err::<
            (),
            PSP22Error,
        >(PSP22Error::InsufficientAllowance),
    ensures
        s.transfer_from_spec(caller, from, to, value).1 == s,
{
}

/// A granted transfer of `value > 0` between two accounts takes `value` from
/// the sender, gives it to the receiver, and leaves every other balance, the
/// supply and the allowances as they were.
pub proof fn lemma_transfer_moves_value(s: CoinView, from: Address, to: Address, value: nat, x: Address)
    requires
        s.transfer_spec(from, to, value).0 is Ok,
        from != to,
        value > 0,
    ensures
        ({
            let t = s.transfer_spec(from, to, value).1;
            &&& t.balance(from) == s.balance(from) - value
            &&& t.balance(to) == s.balance(to) + value
            &&& (x != from && x != to ==> t.balance(x) == s.balance(x))
            &&& t.supply == s.supply
            &&& t.allowances == s.allowances
        }),
{
}

/// A granted `transfer_from` by a spender other than the owner spends exactly
/// `value` of the spender's allowance and moves `value` as a transfer does.
pub proof fn lemma_transfer_from_spends_allowance(
    s: CoinView,
    caller: Address,
    from: Address,
    to: Address,
    value: nat,
)
    requires
        s.transfer_from_spec(caller, from, to, value).0 is Ok,
        caller != from,
        from != to,
        value > 0,
    ensures
        ({
            let t = s.transfer_from_spec(caller, from, to, value).1;
            &&& t.allowance(from, caller) == s.allowance(from, caller) - value
            &&& t.balance(from) == s.balance(from) - value
            &&& t.balance(to) == s.balance(to) + value
            &&& t.supply == s.supply
        }),
{
    let a = s.allowance(from, caller);
    let m = s.set_allowance(from, caller, (a - value) as nat);
    assert(m.balances == s.balances);
}

/// After `owner` approves `spender` for `value`, the allowance reads back as
/// `value`; no other allowance, no balance and not the supply changes.
pub proof fn lemma_approve_then_allowance(
    s: CoinView,
    owner: Address,
    spender: Address,
    value: nat,
    o: Address,
    p: Address,
)
    requires
        owner != spender,
    ensures
        ({
            let t = s.approve_spec(owner, spender, value).1;
            &&& t.allowance(owner, spender) == value
            &&& ((o, p) != (owner, spender) ==> t.allowance(o, p) == s.allowance(o, p))
            &&& t.balances == s.balances
            &&& t.supply == s.supply
        }),
{
}

/// Raising an allowance by `delta` and then lowering it by `delta` gives every
/// allowance back as it was, and touches no balance.
pub proof fn lemma_increase_then_decrease(
    s: CoinView,
    owner: Address,
    spender: Address,
    delta: nat,
    o: Address,
    p: Address,
)
    requires
        s.increase_allowance_spec(owner, spender, delta).0 is Ok,
    ensures
        ({
            let t = s.increase_allowance_spec(owner, spender, delta).1;
            let u = t.decrease_allowance_spec(owner, spender, delta);
            &&& u.0 is Ok
            &&& u.1.allowance(o, p) == s.allowance(o, p)
            &&& u.1.balances == s.balances
            &&& u.1.supply == s.supply
        }),
{
}

/// Minting `value` and then burning `value` from the same account gives every
/// balance and the supply back as they were.
pub proof fn lemma_mint_then_burn(s: CoinView, caller: Address, value: nat, x: Address)
    requires
        s.consistent(),
        s.mint_spec(caller, value).0 is Ok,
    ensures
        ({
            let t = s.mint_spec(caller, value).1;
            let u = t.burn_spec(caller, value);
            &&& t.consistent()
            &&& t.supply == s.supply + value
            &&& t.balance(caller) == s.balance(caller) + value
            &&& u.0 is Ok
            &&& u.1.consistent()
            &&& u.1.supply == s.supply
            &&& u.1.balance(x) == s.balance(x)
            &&& u.1.allowances == s.allowances
        }),
{
    lemma_mint_keeps_consistency(s, caller, value);
    let t = s.mint_spec(caller, value).1;
    lemma_burn_keeps_consistency(t, caller, value);
}

/// A granted burn of `value` takes `value` from the caller and from the supply.
pub proof fn lemma_burn_lowers_supply(s: CoinView, caller: Address, value: nat)
    requires
        s.consistent(),
        s.burn_spec(caller, value).0 is Ok,
    ensures
        s.burn_spec(caller, value).1.supply == s.supply - value,
        s.burn_spec(caller, value).1.balance(caller) == s.balance(caller) - value,
        s.burn_spec(caller, value).1.supply <= u256_max(),
{
    lemma_burn_keeps_consistency(s, caller, value);
}

/// `t` holds the name, symbol and decimals of `s`.
pub open spec fn same_metadata(s: CoinView, t: CoinView) -> bool {
    &&& t.name == s.name
    &&& t.symbol == s.symbol
    &&& t.decimals == s.decimals
}

/// `t` is `s` with exactly one event appended: tokens moved from `from` to `to`.
pub open spec fn emitted_transfer(
    s: Seq<Event>,
    t: Seq<Event>,
    from: Option<Address>,
    to: Option<Address>,
    value: nat,
) -> bool {
    &&& t.len() == s.len() + 1
    &&& t.drop_last() == s
    &&& (t.last() matches Event::Transfer(e) && e.from == from && e.to == to && e.value@ == value)
}

/// `e` announces that `spender` may now move `value` tokens of `owner`.
pub open spec fn is_approval(e: Event, owner: Address, spender: Address, value: nat) -> bool {
    e matches Event::Approval(a) && a.owner == owner && a.spender == spender && a.value@ == value
}

/// What a transfer of `value` from `from` to `to` answers and does, for every
/// consistent state: between two accounts and for a positive value it is
/// refused, with `InsufficientBalance` and nothing changed, exactly when
/// `from` holds less than `value`; otherwise it succeeds, moves `value` from
/// `from` to `to`, leaves every other balance, the supply, the allowances and
/// the metadata alone, and emits one transfer event.
pub proof fn lemma_transfer_outcome(s: CoinView, from: Address, to: Address, value: nat)
    requires
        s.consistent(),
        value <= u256_max(),
        from != to,
        value > 0,
    ensures
        ({
            let (r, t) = s.transfer_spec(from, to, value);
            &&& r is Ok <==> s.balance(from) >= value
            &&& r == Err::<(), PSP22Error>(PSP22Error::InsufficientBalance) <==> s.balance(from)
                < value
            &&& r is Err ==> t == s
            &&& r is Ok ==> {
                &&& t.balance(from) == s.balance(from) - value
                &&& t.balance(to) == s.balance(to) + value
                &&& forall|x: Address| x != from && x != to ==> #[trigger] t.balance(x) == s.balance(x)
                &&& t.supply == s.supply
                &&& t.allowances == s.allowances
                &&& same_metadata(s, t)
                &&& emitted_transfer(s.events, t.events, Some(from), Some(to), value)
            }
        }),
{
    lemma_transfer_keeps_consistency(s, from, to, value);
    lemma_u256_from_nat(value);
    let t = s.transfer_spec(from, to, value).1;
    if s.balance(from) >= value {
        assert(t.events.drop_last() =~= s.events);
    }
}

/// What `caller` moving `value` of `from`'s tokens to `to` answers and does,
/// for a spender other than the owner, two distinct accounts and a positive
/// value: it is refused with `InsufficientAllowance`, and nothing changes,
/// exactly when the spender's allowance is below `value`. With enough
/// allowance, the allowance drops by `value` and an approval event is emitted
/// in any case; then the transfer is refused with `InsufficientBalance`
/// exactly when `from` holds less than `value`, and otherwise succeeds,
/// moving `value` from `from` to `to` with a transfer event.
pub proof fn lemma_transfer_from_outcome(
    s: CoinView,
    caller: Address,
    from: Address,
    to: Address,
    value: nat,
)
    requires
        s.consistent(),
        value <= u256_max(),
        s.allowance(from, caller) <= u256_max(),
        caller != from,
        from != to,
        value > 0,
    ensures
        ({
            let (r, t) = s.transfer_from_spec(caller, from, to, value);
            let a = s.allowance(from, caller);
            &&& r == Err::<(), PSP22Error>(PSP22Error::InsufficientAllowance) <==> a < value
            &&& r == Err::<(), PSP22Error>(PSP22Error::InsufficientBalance) <==> (a >= value
                && s.balance(from) < value)
            &&& r is Ok <==> (a >= value && s.balance(from) >= value)
            &&& a < value ==> t == s
            &&& a >= value ==> {
                &&& t.allowance(from, caller) == a - value
                &&& forall|o: Address, p: Address|
                    (o, p) != (from, caller) ==> #[trigger] t.allowance(o, p) == s.allowance(o, p)
                &&& t.supply == s.supply
                &&& same_metadata(s, t)
                &&& t.events.len() >= s.events.len() + 1
                &&& t.events.take(s.events.len() as int) == s.events
                &&& is_approval(t.events[s.events.len() as int], from, caller, (a - value) as nat)
            }
            &&& (a >= value && s.balance(from) < value) ==> {
                &&& t.balances == s.balances
                &&& t.events.len() == s.events.len() + 1
            }
            &&& r is Ok ==> {
                &&& t.balance(from) == s.balance(from) - value
                &&& t.balance(to) == s.balance(to) + value
                &&& forall|x: Address| x != from && x != to ==> #[trigger] t.balance(x) == s.balance(x)
                &&& emitted_transfer(
                    s.events.push(t.events[s.events.len() as int]),
                    t.events,
                    Some(from),
                    Some(to),
                    value,
                )
            }
        }),
{
    let a = s.allowance(from, caller);
    lemma_u256_from_nat(value);
    if a >= value {
        lemma_u256_from_nat((a - value) as nat);
        let m = s.set_allowance(from, caller, (a - value) as nat);
        assert(m.consistent());
        lemma_transfer_keeps_consistency(m, from, to, value);
        let t = m.transfer_spec(from, to, value).1;
        assert(m.events.take(s.events.len() as int) =~= s.events);
        if s.balance(from) >= value {
            assert(t.events.drop_last() =~= m.events);
            assert(t.events.take(s.events.len() as int) =~= s.events);
            assert(s.events.push(t.events[s.events.len() as int]) =~= m.events);
        } else {
            assert(t.events.take(s.events.len() as int) =~= s.events);
        }
    }
}

/// `owner` approving `spender` (another account) for `value` always succeeds,
/// sets that one allowance to `value`, changes no balance, no other allowance,
/// not the supply nor the metadata, and emits one approval event.
pub proof fn lemma_approve_outcome(s: CoinView, owner: Address, spender: Address, value: nat)
    requires
        owner != spender,
        value <= u256_max(),
    ensures
        ({
            let (r, t) = s.approve_spec(owner, spender, value);
            &&& r is Ok
            &&& t.allowance(owner, spender) == value
            &&& forall|o: Address, p: Address|
                (o, p) != (owner, spender) ==> #[trigger] t.allowance(o, p) == s.allowance(o, p)
            &&& t.balances == s.balances
            &&& t.supply == s.supply
            &&& same_metadata(s, t)
            &&& t.events.len() == s.events.len() + 1
            &&& t.events.drop_last() == s.events
            &&& is_approval(t.events.last(), owner, spender, value)
        }),
{
    lemma_u256_from_nat(value);
    assert(s.approve_spec(owner, spender, value).1.events.drop_last() =~= s.events);
}

/// `owner` raising the allowance of `spender` (another account) by a positive
/// `delta`, from any state, including one where no allowance was ever set: it
/// is refused with `Overflow`, changing nothing, exactly when the raised
/// allowance would exceed 2^256 - 1; otherwise it succeeds, adds `delta` to
/// that one allowance and emits one approval event with the new allowance.
pub proof fn lemma_increase_allowance_outcome(
    s: CoinView,
    owner: Address,
    spender: Address,
    delta: nat,
)
    requires
        owner != spender,
        delta > 0,
    ensures
        ({
            let (r, t) = s.increase_allowance_spec(owner, spender, delta);
            let a = s.allowance(owner, spender);
            &&& r is Ok <==> a + delta <= u256_max()
            &&& r == Err::<(), PSP22Error>(PSP22Error::Overflow) <==> a + delta > u256_max()
            &&& r is Err ==> t == s
            &&& r is Ok ==> {
                &&& t.allowance(owner, spender) == a + delta
                &&& forall|o: Address, p: Address|
                    (o, p) != (owner, spender) ==> #[trigger] t.allowance(o, p) == s.allowance(o, p)
                &&& t.balances == s.balances
                &&& t.supply == s.supply
                &&& same_metadata(s, t)
                &&& t.events.len() == s.events.len() + 1
                &&& t.events.drop_last() == s.events
                &&& is_approval(t.events.last(), owner, spender, a + delta)
            }
        }),
{
    let a = s.allowance(owner, spender);
    if a + delta <= u256_max() {
        lemma_u256_from_nat(a + delta);
        assert(s.increase_allowance_spec(owner, spender, delta).1.events.drop_last() =~= s.events);
    }
}

/// `owner` lowering the allowance of `spender` (another account) by a
/// positive `delta`, whatever events are pending: it is refused with
/// `InsufficientAllowance`, changing nothing, exactly when the allowance is
/// below `delta`; otherwise it succeeds, takes `delta` off that one allowance
/// and emits one approval event with the new allowance.
pub proof fn lemma_decrease_allowance_outcome(
    s: CoinView,
    owner: Address,
    spender: Address,
    delta: nat,
)
    requires
        owner != spender,
        delta > 0,
        s.allowance(owner, spender) <= u256_max(),
    ensures
        ({
            let (r, t) = s.decrease_allowance_spec(owner, spender, delta);
            let a = s.allowance(owner, spender);
            &&& r is Ok <==> a >= delta
            &&& r == Err::<(), PSP22Error>(PSP22Error::InsufficientAllowance) <==> a < delta
            &&& r is Err ==> t == s
            &&& r is Ok ==> {
                &&& t.allowance(owner, spender) == a - delta
                &&& forall|o: Address, p: Address|
                    (o, p) != (owner, spender) ==> #[trigger] t.allowance(o, p) == s.allowance(o, p)
                &&& t.balances == s.balances
                &&& t.supply == s.supply
                &&& same_metadata(s, t)
                &&& t.events.len() == s.events.len() + 1
                &&& t.events.drop_last() == s.events
                &&& is_approval(t.events.last(), owner, spender, (a - delta) as nat)
            }
        }),
{
    let a = s.allowance(owner, spender);
    if a >= delta {
        lemma_u256_from_nat((a - delta) as nat);
        assert(s.decrease_allowance_spec(owner, spender, delta).1.events.drop_last() =~= s.events);
    }
}

/// Minting a positive `value` to `caller`, from any state: it is refused with
/// `Overflow`, changing nothing, exactly when the caller's new balance or the
/// new supply would exceed 2^256 - 1; otherwise it succeeds, adds `value` to
/// the caller's balance and to the supply, leaves every other balance, the
/// allowances and the metadata alone, and emits one transfer event from nobody.
pub proof fn lemma_mint_outcome(s: CoinView, caller: Address, value: nat)
    requires
        value > 0,
        value <= u256_max(),
    ensures
        ({
            let (r, t) = s.mint_spec(caller, value);
            let fits = s.balance(caller) + value <= u256_max() && s.supply + value <= u256_max();
            &&& r is Ok <==> fits
            &&& r == Err::<(), PSP22Error>(PSP22Error::Overflow) <==> !fits
            &&& r is Err ==> t == s
            &&& r is Ok ==> {
                &&& t.balance(caller) == s.balance(caller) + value
                &&& t.supply == s.supply + value
                &&& forall|x: Address| x != caller ==> #[trigger] t.balance(x) == s.balance(x)
                &&& t.allowances == s.allowances
                &&& same_metadata(s, t)
                &&& emitted_transfer(s.events, t.events, None, Some(caller), value)
            }
        }),
{
    lemma_u256_from_nat(value);
    if s.mint_spec(caller, value).0 is Ok {
        assert(s.mint_spec(caller, value).1.events.drop_last() =~= s.events);
    }
}

/// Burning a positive `value` of `caller`'s tokens, from any consistent
/// state: it is refused with `InsufficientBalance`, changing nothing, exactly
/// when the caller holds less than `value`; otherwise it succeeds, takes
/// `value` off the caller's balance and off the supply, leaves every other
/// balance, the allowances and the metadata alone, and emits one transfer
/// event to nobody.
pub proof fn lemma_burn_outcome(s: CoinView, caller: Address, value: nat)
    requires
        s.consistent(),
        value > 0,
        value <= u256_max(),
    ensures
        ({
            let (r, t) = s.burn_spec(caller, value);
            &&& r is Ok <==> s.balance(caller) >= value
            &&& r == Err::<(), PSP22Error>(PSP22Error::InsufficientBalance) <==> s.balance(caller)
                < value
            &&& r is Err ==> t == s
            &&& r is Ok ==> {
                &&& t.balance(caller) == s.balance(caller) - value
                &&& t.supply == s.supply - value
                &&& forall|x: Address| x != caller ==> #[trigger] t.balance(x) == s.balance(x)
                &&& t.allowances == s.allowances
                &&& same_metadata(s, t)
                &&& emitted_transfer(s.events, t.events, Some(caller), None, value)
            }
        }),
{
    lemma_burn_keeps_consistency(s, caller, value);
    lemma_u256_from_nat(value);
    if s.balance(caller) >= value {
        assert(s.burn_spec(caller, value).1.events.drop_last() =~= s.events);
    }
}

/// The owner moving its own tokens with `transfer_from` answers and does
/// exactly what `transfer` does: no allowance is consulted or spent.
pub proof fn lemma_owner_transfer_from(s: CoinView, owner: Address, to: Address, value: nat)
    ensures
        s.transfer_from_spec(owner, owner, to, value) == s.transfer_spec(owner, to, value),
        s.transfer_from_spec(owner, owner, to, value).1.allowances == s.allowances,
{
}

} // verus!
