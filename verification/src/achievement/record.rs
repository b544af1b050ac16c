//! The records the ledger stores and exchanges.

use crate::text::{bytes_of_chars, chars_of_bytes};
use vstd::prelude::*;

verus! {

/// A credential as the ledger holds it.
#[derive(Debug)]
pub struct Achievement {
    pub achievement_id: u128,
    pub achievement_type: u128,
    pub issuer: u128,
    /// Identity of the owner; 0 while the credential is unassigned.
    pub owner: u128,
    pub is_accepted: bool,
    pub verifier: u128,
    pub is_verified: bool,
    pub data_address: Vec<u8>,
    /// Escrow held for this credential, in indivisible units.
    pub balance: u128,
}

/// A credential as callers write and read it. In a request to mint,
/// `balance` is the declared balance in whole tokens; in a credential read
/// back from the ledger it is the escrow in indivisible units.
#[derive(Debug)]
pub struct IOAchievement {
    pub achievement_id: u128,
    pub achievement_type: u128,
    pub issuer: u128,
    pub owner: u128,
    pub is_accepted: bool,
    pub verifier: u128,
    pub is_verified: bool,
    pub data_address: String,
    pub balance: u128,
}

/// The mathematical content of a stored credential.
#[verifier::ext_equal]
pub struct Credential {
    pub achievement_id: u128,
    pub achievement_type: u128,
    pub issuer: u128,
    pub owner: u128,
    pub is_accepted: bool,
    pub verifier: u128,
    pub is_verified: bool,
    pub data_address: Seq<u8>,
    pub balance: u128,
}

impl View for Achievement {
    type V = Credential;

    open spec fn view(&self) -> Credential {
        Credential {
            achievement_id: self.achievement_id,
            achievement_type: self.achievement_type,
            issuer: self.issuer,
            owner: self.owner,
            is_accepted: self.is_accepted,
            verifier: self.verifier,
            is_verified: self.is_verified,
            data_address: self.data_address@,
            balance: self.balance,
        }
    }
}

impl IOAchievement {
    /// The credential that a request to mint describes, once its declared
    /// balance has been converted to `escrow` indivisible units.
    pub open spec fn stored(self, escrow: u128) -> Credential {
        Credential {
            achievement_id: self.achievement_id,
            achievement_type: self.achievement_type,
            issuer: self.issuer,
            owner: self.owner,
            is_accepted: self.is_accepted,
            verifier: self.verifier,
            is_verified: self.is_verified,
            data_address: bytes_of_chars(self.data_address@),
            balance: escrow,
        }
    }

    /// Whether this record shows `credential` field by field, the stored
    /// bytes read as characters.
    pub open spec fn shows(self, credential: Credential) -> bool {
        &&& self.achievement_id == credential.achievement_id
        &&& self.achievement_type == credential.achievement_type
        &&& self.issuer == credential.issuer
        &&& self.owner == credential.owner
        &&& self.is_accepted == credential.is_accepted
        &&& self.verifier == credential.verifier
        &&& self.is_verified == credential.is_verified
        &&& self.data_address@ == chars_of_bytes(credential.data_address)
        &&& self.balance == credential.balance
    }
}

impl Credential {
    /// The credential that a split creates for one new owner: a copy of the
    /// parent under a new id, not yet accepted or verified, holding the
    /// parent's whole escrow.
    pub open spec fn child(self, id: u128, owner: u128) -> Credential {
        Credential {
            achievement_id: id,
            achievement_type: self.achievement_type,
            issuer: self.issuer,
            owner: owner,
            is_accepted: false,
            verifier: self.verifier,
            is_verified: false,
            data_address: self.data_address,
            balance: self.balance,
        }
    }
}

/// A payment the host is asked to make out of the ledger's funds.
#[derive(Debug)]
pub struct Transfer {
    pub receiver: String,
    /// Amount in indivisible units.
    pub amount: u128,
}

/// Why the ledger rejected a call. A rejected call changes nothing.
#[derive(Clone, Copy, Debug, PartialEq, Eq, Structural)]
pub enum LedgerError {
    /// A binding was pushed by a caller other than the identity registry.
    NotRegistry,
    /// The credential id is already in use, or is named twice in one call.
    DuplicateId,
    /// The caller's identity is not the credential's issuer.
    NotIssuer,
    /// The attached deposit does not cover the declared balance.
    InsufficientDeposit,
    /// An amount does not fit the range of balances.
    Overflow,
    /// The caller has no identity in the ledger's cache.
    UnknownCaller,
    /// No credential has this id.
    UnknownAchievement,
    /// The credential already has an owner.
    OwnerFixed,
    /// The new owner has no binding in the ledger's cache.
    UnknownOwner,
    /// The caller's identity is not the credential's owner.
    NotOwner,
    /// The caller's identity is not the credential's verifier.
    NotVerifier,
    /// The credential has been verified already.
    AlreadyVerified,
    /// The identity that is due a payment has no account in the cache.
    UnboundIdentity,
    /// A split names fewer new ids than new owners.
    MissingIds,
    /// The caller may not read this list.
    NotAuthorized,
    /// The account asked about has no identity in the cache.
    UnknownUser,
    /// Nothing was ever filed under this identity.
    NoAchievements,
}

} // verus!
