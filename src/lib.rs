//! A personal-finance ledger: accounts, categories, money transactions and
//! transfers, with derived balances, period aggregation, atomic batch writes
//! and a whole-ledger snapshot for export and import.

pub mod dates;
pub mod errors;
pub mod models;
pub mod store;
pub mod sync;
pub mod laws;
pub mod config;
pub mod nav;
