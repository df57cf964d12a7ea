//! An in-memory store ledger: a catalog of products with unique names and two
//! append-only logs of sales and purchases, together with fixed-width tabular
//! reports.
//!
//! - [`ledger`] is the mathematical model: the state of a store and what each
//!   operation makes of it.
//! - [`store`] is the store that runs: [`store::Store`] and its operations,
//!   each with a contract over the model.
//! - [`report`] lays out the inventory, sales and purchases reports, and
//!   [`text`] writes the numbers and cells that they are made of.
//! - [`error`] names the ways in which an operation is declined.
//! - [`laws`] proves what holds of the ledger whatever is asked of it.

pub mod error;
pub mod laws;
pub mod ledger;
mod listing;
pub mod report;
pub mod store;
pub mod text;
