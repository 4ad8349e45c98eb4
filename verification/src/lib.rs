//! A judged-competition ledger.
//!
//! The library tracks contest categories, competitor entries and judge
//! ballots.  Every mutating operation is gated by one of two external
//! membership registries; the registries themselves are collaborators of the
//! surrounding runtime, so their answers enter the library as plain values.

pub mod contract;
pub mod error;
pub mod laws;
pub mod msg;
pub mod order;
pub mod state;
