//! Verified core of a portable credential scheme: an identity registry that
//! binds accounts to numeric identities, and an achievement ledger that
//! issues, escrows, verifies and splits credentials tied to those
//! identities. Host calls (who is calling, what was attached, transfers)
//! enter and leave as plain values.

pub mod account_ids;
pub mod achievement;
pub mod sbt;
pub mod text;
pub mod units;
