//! The errors a token operation can refuse a request with.
use vstd::prelude::*;

verus! {

/// Why a token operation refused a request.
#[derive(Clone, Copy, Debug, PartialEq, Eq, Structural)]
pub enum PSP22Error {
    /// The account holds fewer tokens than the request moves or burns.
    InsufficientBalance,
    /// The spender may move fewer tokens than the request asks for.
    InsufficientAllowance,
    /// The result would not fit in 256 bits.
    Overflow,
}

} // verus!
