//! Carrying closing balances of one ledger over to another whose chart of
//! accounts differs in shape: exact amounts, their sums, and the matching of
//! accounts by their chains of ancestors.
pub mod account;
pub mod aggregate;
pub mod bindings;
pub mod convert;
pub mod fixed;
pub mod ledger;
pub mod outside;
pub mod records;
pub mod text;
