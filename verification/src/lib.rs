//! Stake-gated, time-limited access to a provider's resources.
//!
//! An account locks value ("stake") in escrow to unlock use of a registered
//! resource for a bounded number of blocks, optionally at a tiered price
//! point, or pays per individual use.  Networks namespace everything: each
//! network has an owner, a treasury account, a resource catalog with a
//! monotonically increasing resource counter, and per-account membership
//! records with an expiry height.
//!
//! Every state-changing operation is a sequential, atomic transaction: it
//! either performs all of its storage writes and appends exactly one event to
//! the owning component's log, or it returns an error and changes nothing.

mod table;

pub mod access;
pub mod basket;
pub mod catalog;
pub mod directory;
pub mod identity;
pub mod ledger;
pub mod membership;
