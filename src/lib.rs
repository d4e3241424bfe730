//! A local ledger of stock and option trades: the domain model, the
//! SQLite-backed store, the per-symbol profit/loss report and the
//! key-driven controller of the terminal screens.

pub mod text;
pub mod amount;
pub mod model;
pub mod report;
pub mod store;
pub mod ui;
