//! A PSP22 fungible token ledger: balances, allowances, minting and burning,
//! with the invariant that the total supply is the sum of all balances.

pub mod address;
pub mod coin;
pub mod error;
pub mod events;
pub mod laws;
pub mod model;
pub mod table;
pub mod u256;

pub use address::Address;
pub use coin::PspCoin;
pub use error::PSP22Error;
pub use events::{Approval, Event, Transfer};
pub use u256::U256;
