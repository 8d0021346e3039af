//! A minimal authenticated counter ledger.
//!
//! One identified principal credits a unit of reputation (a kudo) to
//! another; anyone may query the accumulated count. The ledger is a
//! mapping from principal identity to an unsigned counter, with an
//! absent key reading as zero, an authorization gate on the only
//! mutating operation, and whole-snapshot persistence through a store.

pub mod ledger;
pub mod principal;
pub mod service;
pub mod store;
