//! A verified credential-lifecycle state machine.
//!
//! The library issues, verifies, and revokes non-transferable ("soulbound")
//! credentials on behalf of a controlling authority. A credential binds a
//! recipient identity to a quest exactly once, carries an immutable issuance
//! timestamp, and can be soft-revoked but never deleted. The store, the asset
//! ledger, and the metadata registry are modelled in-process; the clock is
//! supplied by the caller.

pub mod addressing;
pub mod asset;
pub mod errors;
pub mod laws;
pub mod metadata;
pub mod model;
pub mod protocol;
pub mod records;
