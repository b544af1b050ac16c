//! The identity registry: which account holds which identity, and the
//! proof hashes of the identities that were claimed.

pub mod record;
pub mod state;
pub mod registry;
pub mod laws;
