//! The events a token operation emits.
use vstd::prelude::*;

use crate::address::Address;
use crate::u256::U256;

verus! {

/// Tokens moved: `from` is `None` for a mint, `to` is `None` for a burn.
#[derive(Clone, Copy, Debug, PartialEq, Eq)]
pub struct Transfer {
    pub from: Option<Address>,
    pub to: Option<Address>,
    pub value: U256,
}

/// `spender` may now move `value` tokens of `owner`.
#[derive(Clone, Copy, Debug, PartialEq, Eq)]
pub struct Approval {
    pub owner: Address,
    pub spender: Address,
    pub value: U256,
}

/// An event, in the order the token emitted it.
#[derive(Clone, Copy, Debug, PartialEq, Eq)]
pub enum Event {
    Transfer(Transfer),
    Approval(Approval),
}

} // verus!
