//! Bulk deletion of a contiguous key range from a sorted key-value store.
//!
//! The crate holds the decisions of a resumable scan-delete loop and leaves
//! the store calls themselves to the caller: a run is a state machine that is
//! told what the store answered and says what to ask next.

pub mod gauge;
pub mod key;
pub mod run;
pub mod report;
pub mod store;
pub mod laws;
