//! A fungible token ledger with verified contracts: per-holder balances whose
//! sum is the total supply, allowances that expire with the ledger height, an
//! owner that gates minting, pausing and ownership changes, and a pause switch
//! over every operation that moves balances.
pub mod types;
pub mod table;
pub mod contract;
pub mod laws;
