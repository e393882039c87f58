//! Collectible kitties: creation with escrow, breeding, transfer and sale,
//! plus a small proof-of-existence registry.
use vstd::prelude::*;

pub mod kitties;
pub mod ledger;
pub mod poe;
pub mod randomness;

verus! {

/// Identity of an account.
pub type AccountId = u64;

/// Amounts of currency.
pub type Balance = u64;

} // verus!
