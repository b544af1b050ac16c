//! The achievement ledger: credentials, their escrow, and the two indexes
//! that list them by issuer and by owner.

pub mod escrow;
pub mod index;
pub mod laws;
pub mod record;
pub mod state;
pub mod token;
