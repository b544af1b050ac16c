//! The registry as a mathematical state, and what each call does to it.

use super::record::{RegistryError, SoulView, SyncMethod};
use vstd::prelude::*;
use vstd::utf8::{decode_utf8, encode_utf8, valid_utf8};

verus! {

/// The proof hash kept for a piece of text: the first 32 bytes of its
/// encoding.
pub open spec fn hash_of(text: Seq<char>) -> Seq<u8> {
    encode_utf8(text).take(32)
}

/// Where an identity stands.
pub enum IdentityState {
    /// The account has no identity.
    Unminted,
    /// The account has an identity and has not claimed it yet.
    MintedUnclaimed,
    /// The account has claimed its identity.
    Claimed,
}

/// The state of the registry.
#[verifier::ext_equal]
pub struct RegistryState {
    /// The claimed identities, by id.
    pub souls: Map<u128, SoulView>,
    /// The identity of each bound account.
    pub soul_id_of_account: Map<Seq<char>, u128>,
    /// The account of each bound identity.
    pub account_of_soul_id: Map<u128, Seq<char>>,
    /// For each bound identity, whether it still waits to be claimed.
    pub minted_not_claimed: Map<u128, bool>,
}

impl RegistryState {
    /// The registry with no identities.
    pub open spec fn empty() -> RegistryState {
        RegistryState {
            souls: Map::empty(),
            soul_id_of_account: Map::empty(),
            account_of_soul_id: Map::empty(),
            minted_not_claimed: Map::empty(),
        }
    }

    /// The invariant of the registry: the two binding maps are inverse to
    /// one another, every bound identity is either waiting to be claimed or
    /// claimed, and the claimed ones are exactly those with a stored record,
    /// which carries their id and two hashes of 32 bytes.
    pub open spec fn wf(self) -> bool {
        &&& forall|account: Seq<char>| #[trigger]
            self.soul_id_of_account.contains_key(account) ==> self.account_of_soul_id.contains_key(
                self.soul_id_of_account[account],
            ) && self.account_of_soul_id[self.soul_id_of_account[account]] == account
        &&& forall|id: u128| #[trigger]
            self.account_of_soul_id.contains_key(id) ==> self.soul_id_of_account.contains_key(
                self.account_of_soul_id[id],
            ) && self.soul_id_of_account[self.account_of_soul_id[id]] == id
        &&& forall|id: u128| #[trigger]
            self.minted_not_claimed.contains_key(id) <==> self.account_of_soul_id.contains_key(id)
        &&& forall|id: u128| #[trigger]
            self.souls.contains_key(id) <==> self.minted_not_claimed.contains_key(id)
                && !self.minted_not_claimed[id]
        &&& forall|id: u128| #[trigger]
            self.souls.contains_key(id) ==> self.souls[id].soul_id == id
                && self.souls[id].git_hash.len() == 32 && self.souls[id].email_hash.len() == 32
    }

    /// Whether `account` has claimed an identity.
    pub open spec fn has_soul(self, account: Seq<char>) -> bool {
        self.soul_id_of_account.contains_key(account) && self.souls.contains_key(
            self.soul_id_of_account[account],
        )
    }

    /// Whether `account` has an identity that waits to be claimed.
    pub open spec fn soul_is_minted_not_claimed(self, account: Seq<char>) -> bool {
        &&& self.soul_id_of_account.contains_key(account)
        &&& self.minted_not_claimed.contains_key(self.soul_id_of_account[account])
        &&& self.minted_not_claimed[self.soul_id_of_account[account]]
    }

    /// Where the identity of `account` stands.
    pub open spec fn state_of(self, account: Seq<char>) -> IdentityState {
        if self.has_soul(account) {
            IdentityState::Claimed
        } else if self.soul_is_minted_not_claimed(account) {
            IdentityState::MintedUnclaimed
        } else {
            IdentityState::Unminted
        }
    }

    // Mint.
    /// Whether the identity `new_id` may be minted for `account`: the
    /// account must have none, the caller must be the registry's operator,
    /// and the id must be free.
    pub open spec fn mint_outcome(
        self,
        signer: Seq<char>,
        operator: Seq<char>,
        new_id: u128,
        account: Seq<char>,
    ) -> Result<(), RegistryError> {
        if self.has_soul(account) {
            Err(RegistryError::SoulExists)
        } else if self.soul_is_minted_not_claimed(account) {
            Err(RegistryError::AlreadyMinted)
        } else if signer != operator {
            Err(RegistryError::NotOperator)
        } else if self.account_of_soul_id.contains_key(new_id) {
            Err(RegistryError::IdTaken)
        } else {
            Ok(())
        }
    }

    /// The state after `new_id` is minted for `account`.
    pub open spec fn after_mint(self, new_id: u128, account: Seq<char>) -> RegistryState {
        RegistryState {
            soul_id_of_account: self.soul_id_of_account.insert(account, new_id),
            account_of_soul_id: self.account_of_soul_id.insert(new_id, account),
            minted_not_claimed: self.minted_not_claimed.insert(new_id, true),
            ..self
        }
    }

    // Claim.
    /// Whether `signer` may claim its identity with the two proof hashes,
    /// and the id that the ledger is then told of.
    pub open spec fn claim_outcome(
        self,
        signer: Seq<char>,
        git_hash: Seq<char>,
        email_hash: Seq<char>,
    ) -> Result<u128, RegistryError> {
        if !self.soul_is_minted_not_claimed(signer) {
            Err(RegistryError::NotMinted)
        } else if git_hash.len() != 32 || email_hash.len() != 32 {
            Err(RegistryError::BadHashLength)
        } else {
            Ok(self.soul_id_of_account[signer])
        }
    }

    /// The state after `signer` has claimed its identity.
    pub open spec fn after_claim(
        self,
        signer: Seq<char>,
        git_hash: Seq<char>,
        email_hash: Seq<char>,
    ) -> RegistryState {
        let id = self.soul_id_of_account[signer];
        RegistryState {
            souls: self.souls.insert(
                id,
                SoulView {
                    soul_id: id,
                    git_hash: hash_of(git_hash),
                    email_hash: hash_of(email_hash),
                },
            ),
            account_of_soul_id: self.account_of_soul_id.insert(id, signer),
            minted_not_claimed: self.minted_not_claimed.insert(id, false),
            ..self
        }
    }

    // Burn.
    /// Whether `signer` may burn its identity, claimed or not, and the id
    /// that the ledger is then told of.
    pub open spec fn burn_outcome(self, signer: Seq<char>) -> Result<u128, RegistryError> {
        if !self.soul_id_of_account.contains_key(signer) {
            Err(RegistryError::NoSoul)
        } else {
            Ok(self.soul_id_of_account[signer])
        }
    }

    /// The state after `signer` has burnt its identity: nothing of it is
    /// left.
    pub open spec fn after_burn(self, signer: Seq<char>) -> RegistryState {
        let id = self.soul_id_of_account[signer];
        RegistryState {
            souls: self.souls.remove(id),
            soul_id_of_account: self.soul_id_of_account.remove(signer),
            account_of_soul_id: self.account_of_soul_id.remove(id),
            minted_not_claimed: self.minted_not_claimed.remove(id),
        }
    }

    // Reading.
    /// The two proof hashes of `signer` as text, for the signer alone.
    pub open spec fn hashed_data_outcome(self, signer: Seq<char>) -> Result<
        (Seq<char>, Seq<char>),
        RegistryError,
    > {
        if !self.has_soul(signer) {
            Err(RegistryError::NoSoul)
        } else {
            let soul = self.souls[self.soul_id_of_account[signer]];
            if !valid_utf8(soul.git_hash) || !valid_utf8(soul.email_hash) {
                Err(RegistryError::HashNotText)
            } else {
                Ok((decode_utf8(soul.git_hash), decode_utf8(soul.email_hash)))
            }
        }
    }
}

/// A call that changes the registry, with the caller that the host names.
pub enum Call {
    Mint { signer: Seq<char>, operator: Seq<char>, new_id: u128, account: Seq<char> },
    Claim { signer: Seq<char>, git_hash: Seq<char>, email_hash: Seq<char> },
    Burn { signer: Seq<char> },
}

impl RegistryState {
    /// Whether the registry accepts `call` in this state.
    pub open spec fn accepts(self, call: Call) -> bool {
        match call {
            Call::Mint { signer, operator, new_id, account } => self.mint_outcome(
                signer,
                operator,
                new_id,
                account,
            ) is Ok,
            Call::Claim { signer, git_hash, email_hash } => self.claim_outcome(
                signer,
                git_hash,
                email_hash,
            ) is Ok,
            Call::Burn { signer } => self.burn_outcome(signer) is Ok,
        }
    }

    /// The state after `call`: the successor state where the call is
    /// accepted, the same state where it is rejected.
    pub open spec fn apply(self, call: Call) -> RegistryState {
        if !self.accepts(call) {
            self
        } else {
            match call {
                Call::Mint { new_id, account, .. } => self.after_mint(new_id, account),
                Call::Claim { signer, git_hash, email_hash } => self.after_claim(
                    signer,
                    git_hash,
                    email_hash,
                ),
                Call::Burn { signer } => self.after_burn(signer),
            }
        }
    }

    /// What the ledger is told after `call`, if anything: the method, the
    /// account and the identity.
    pub open spec fn notifies(self, call: Call) -> Option<(SyncMethod, Seq<char>, u128)> {
        if !self.accepts(call) {
            None
        } else {
            match call {
                Call::Mint { .. } => None,
                Call::Claim { signer, .. } => Some(
                    (SyncMethod::SetIdOfAccount, signer, self.soul_id_of_account[signer]),
                ),
                Call::Burn { signer } => Some(
                    (SyncMethod::RemoveIdOfAccount, signer, self.soul_id_of_account[signer]),
                ),
            }
        }
    }
}

/// The state that a sequence of calls leaves, starting from the empty
/// registry.
pub open spec fn run(calls: Seq<Call>) -> RegistryState
    decreases calls.len(),
{
    if calls.len() == 0 {
        RegistryState::empty()
    } else {
        run(calls.drop_last()).apply(calls.last())
    }
}

} // verus!
