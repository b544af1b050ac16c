//! The registry itself: the stored state and the calls that change it.

use super::record::{RegistryError, Soul, SoulView, SyncCall, SyncFailure, SyncMethod};
use super::laws::lemma_apply_wf;
use super::state::{Call, RegistryState};
use crate::account_ids::{accounts_of, AccountIds};
use crate::text::{char_count, hash_text, leading_bytes};
use crate::units::XCC_GAS;
use std::collections::HashMap;
use vstd::prelude::*;

verus! {

/// The claimed identities of a store held in a hash map.
pub open spec fn soulsof(souls: Map<u128, Soul>) -> Map<u128, SoulView> {
    souls.map_values(|soul: Soul| soul@)
}

/// The notification of `method` for the binding of `user` to `soul_id`.
fn sync_call(method: SyncMethod, user: String, soul_id: u128) -> (call: SyncCall)
    ensures
        call.tells(method, user@, soul_id),
{
    SyncCall {
        receiver: "achievements.soul_dev.testnet".to_owned(),
        method: method,
        user: user,
        soul_id: soul_id,
        gas: XCC_GAS,
    }
}

/// The identity registry.
pub struct SBT {
    pub souls: HashMap<u128, Soul>,
    pub soul_id_of_account: AccountIds,
    pub account_of_soul_id: HashMap<u128, String>,
    pub minted_not_claimed: HashMap<u128, bool>,
}

impl View for SBT {
    type V = RegistryState;

    open spec fn view(&self) -> RegistryState {
        RegistryState {
            souls: soulsof(self.souls@),
            soul_id_of_account: self.soul_id_of_account@,
            account_of_soul_id: accounts_of(self.account_of_soul_id@),
            minted_not_claimed: self.minted_not_claimed@,
        }
    }
}

impl SBT {
    /// A registry with no identities.
    pub fn init() -> (r: Self)
        ensures
            r@ == RegistryState::empty(),
            r@.wf(),
    {
        let r = SBT {
            souls: HashMap::new(),
            soul_id_of_account: AccountIds::new(),
            account_of_soul_id: HashMap::new(),
            minted_not_claimed: HashMap::new(),
        };
        assert(r@ =~= RegistryState::empty());
        r
    }

    /// Mints the identity `new_id` for `account`, which then has to claim
    /// it. Only the registry's own account, the `operator`, may do so as
    /// `signer`.
    pub fn mint(&mut self, signer: &String, operator: &String, new_id: u128, account: String) -> (r:
        Result<(), RegistryError>)
        ensures
            r == old(self)@.mint_outcome(signer@, operator@, new_id, account@),
            r is Ok ==> final(self)@ == old(self)@.after_mint(new_id, account@),
            r is Err ==> final(self)@ == old(self)@,
            final(self)@ == old(self)@.apply(
                Call::Mint {
                    signer: signer@,
                    operator: operator@,
                    new_id: new_id,
                    account: account@,
                },
            ),
            old(self)@.wf() ==> final(self)@.wf(),
    {
        broadcast use vstd::std_specs::hash::group_hash_axioms;

        proof {
            if old(self)@.wf() {
                lemma_apply_wf(
                    old(self)@,
                    Call::Mint {
                        signer: signer@,
                        operator: operator@,
                        new_id: new_id,
                        account: account@,
                    },
                );
            }
        }

        if self.has_soul(&account) {
            return Err(RegistryError::SoulExists);
        }
        if self.soul_is_minted_not_claimed(&account) {
            return Err(RegistryError::AlreadyMinted);
        }
        if *signer != *operator {
            return Err(RegistryError::NotOperator);
        }
        if self.account_of_soul_id.contains_key(&new_id) {
            return Err(RegistryError::IdTaken);
        }
        self.account_of_soul_id.insert(new_id, account.clone());
        self.soul_id_of_account.insert(account, new_id);
        self.minted_not_claimed.insert(new_id, true);
        assert(self@ =~= old(self)@.after_mint(new_id, account@));
        Ok(())
    }

    /// The notification that tells the ledger of the binding of
    /// `msg_sender` to `msg_sender_soul_id`.
    pub fn set_external_id(&self, msg_sender: String, msg_sender_soul_id: u128) -> (call: SyncCall)
        ensures
            call.tells(SyncMethod::SetIdOfAccount, msg_sender@, msg_sender_soul_id),
    {
        sync_call(SyncMethod::SetIdOfAccount, msg_sender, msg_sender_soul_id)
    }

    /// Takes note of how the notification of a binding ended: whether it
    /// reached the ledger. The registry stays as it is either way.
    pub fn set_external_id_callback(&mut self, call_result: Result<(), SyncFailure>) -> (r:
        bool)
        ensures
            r == (call_result is Ok),
            final(self)@ == old(self)@,
    {
        call_result.is_ok()
    }

    /// Claims the identity that was minted for `signer`, with its two proof
    /// hashes of 32 characters each. The ledger is to be told of the
    /// binding.
    pub fn claim(&mut self, signer: String, new_git_hash: &String, new_email_hash: &String) -> (r:
        Result<SyncCall, RegistryError>)
        ensures
            match r {
                Ok(call) => {
                    &&& old(self)@.claim_outcome(signer@, new_git_hash@, new_email_hash@) is Ok
                    &&& call.tells(
                        SyncMethod::SetIdOfAccount,
                        signer@,
                        old(self)@.soul_id_of_account[signer@],
                    )
                    &&& final(self)@ == old(self)@.after_claim(
                        signer@,
                        new_git_hash@,
                        new_email_hash@,
                    )
                },
                Err(e) => {
                    &&& old(self)@.claim_outcome(signer@, new_git_hash@, new_email_hash@) == Err::<
                        u128,
                        RegistryError,
                    >(e)
                    &&& final(self)@ == old(self)@
                },
            },
            final(self)@ == old(self)@.apply(
                Call::Claim {
                    signer: signer@,
                    git_hash: new_git_hash@,
                    email_hash: new_email_hash@,
                },
            ),
            old(self)@.wf() ==> final(self)@.wf(),
    {
        broadcast use vstd::std_specs::hash::group_hash_axioms;

        proof {
            if old(self)@.wf() {
                lemma_apply_wf(
                    old(self)@,
                    Call::Claim {
                        signer: signer@,
                        git_hash: new_git_hash@,
                        email_hash: new_email_hash@,
                    },
                );
            }
        }

        if !self.soul_is_minted_not_claimed(&signer) {
            return Err(RegistryError::NotMinted);
        }
        let soul_id = match self.soul_id_of_account.get(&signer) {
            Some(id) => id,
            None => {
                return Err(RegistryError::NotMinted);
            },
        };
        if char_count(new_git_hash) != 32 || char_count(new_email_hash) != 32 {
            return Err(RegistryError::BadHashLength);
        }
        let call = self.set_external_id(signer.clone(), soul_id);
        let soul = Soul {
            soul_id: soul_id,
            git_hash: leading_bytes(new_git_hash),
            email_hash: leading_bytes(new_email_hash),
        };
        self.souls.insert(soul_id, soul);
        self.account_of_soul_id.insert(soul_id, signer);
        self.minted_not_claimed.insert(soul_id, false);
        assert(self@ =~= old(self)@.after_claim(signer@, new_git_hash@, new_email_hash@));
        Ok(call)
    }

    /// The notification that tells the ledger that the binding of
    /// `msg_sender` to `msg_sender_soul_id` is no more.
    pub fn remove_external_id(&self, msg_sender: String, msg_sender_soul_id: u128) -> (call:
        SyncCall)
        ensures
            call.tells(SyncMethod::RemoveIdOfAccount, msg_sender@, msg_sender_soul_id),
    {
        sync_call(SyncMethod::RemoveIdOfAccount, msg_sender, msg_sender_soul_id)
    }

    /// Takes note of how the notification of a dropped binding ended:
    /// whether it reached the ledger. The registry stays as it is either
    /// way.
    pub fn remove_external_id_callback(&mut self, call_result: Result<(), SyncFailure>) -> (r:
        bool)
        ensures
            r == (call_result is Ok),
            final(self)@ == old(self)@,
    {
        call_result.is_ok()
    }

    /// Burns the identity of `signer`, claimed or not. The ledger is to be
    /// told that the binding is no more.
    pub fn burn(&mut self, signer: String) -> (r: Result<SyncCall, RegistryError>)
        ensures
            match r {
                Ok(call) => {
                    &&& old(self)@.burn_outcome(signer@) is Ok
                    &&& call.tells(
                        SyncMethod::RemoveIdOfAccount,
                        signer@,
                        old(self)@.soul_id_of_account[signer@],
                    )
                    &&& final(self)@ == old(self)@.after_burn(signer@)
                },
                Err(e) => {
                    &&& old(self)@.burn_outcome(signer@) == Err::<u128, RegistryError>(e)
                    &&& final(self)@ == old(self)@
                },
            },
            final(self)@ == old(self)@.apply(Call::Burn { signer: signer@ }),
            old(self)@.wf() ==> final(self)@.wf(),
    {
        broadcast use vstd::std_specs::hash::group_hash_axioms;

        proof {
            if old(self)@.wf() {
                lemma_apply_wf(old(self)@, Call::Burn { signer: signer@ });
            }
        }

        let soul_id = match self.soul_id_of_account.get(&signer) {
            Some(id) => id,
            None => {
                return Err(RegistryError::NoSoul);
            },
        };
        let call = self.remove_external_id(signer.clone(), soul_id);
        self.soul_id_of_account.remove(&signer);
        self.account_of_soul_id.remove(&soul_id);
        self.souls.remove(&soul_id);
        self.minted_not_claimed.remove(&soul_id);
        assert(self@ =~= old(self)@.after_burn(signer@));
        Ok(call)
    }

    /// Whether `account` has claimed an identity.
    pub fn has_soul(&self, account: &String) -> (r: bool)
        ensures
            r == self@.has_soul(account@),
    {
        broadcast use vstd::std_specs::hash::group_hash_axioms;

        match self.soul_id_of_account.get(account) {
            Some(id) => self.souls.contains_key(&id),
            None => false,
        }
    }

    /// Whether `account` has an identity that waits to be claimed.
    pub fn soul_is_minted_not_claimed(&self, account: &String) -> (r: bool)
        ensures
            r == self@.soul_is_minted_not_claimed(account@),
    {
        broadcast use vstd::std_specs::hash::group_hash_axioms;

        match self.soul_id_of_account.get(account) {
            Some(id) => match self.minted_not_claimed.get(&id) {
                Some(waiting) => *waiting,
                None => false,
            },
            None => false,
        }
    }

    /// The two proof hashes of `signer`, as text: first the one for git,
    /// then the one for email.
    pub fn get_hashed_data(&self, signer: &String) -> (r: Result<[String; 2], RegistryError>)
        ensures
            match r {
                Ok(texts) => self@.hashed_data_outcome(signer@) == Ok::<
                    (Seq<char>, Seq<char>),
                    RegistryError,
                >((texts@[0]@, texts@[1]@)),
                Err(e) => self@.hashed_data_outcome(signer@) == Err::<
                    (Seq<char>, Seq<char>),
                    RegistryError,
                >(e),
            },
    {
        broadcast use vstd::std_specs::hash::group_hash_axioms;

        let soul = match self.soul_id_of_account.get(signer) {
            Some(id) => match self.souls.get(&id) {
                Some(soul) => soul,
                None => {
                    return Err(RegistryError::NoSoul);
                },
            },
            None => {
                return Err(RegistryError::NoSoul);
            },
        };
        let git = match hash_text(&soul.git_hash) {
            Some(text) => text,
            None => {
                return Err(RegistryError::HashNotText);
            },
        };
        let email = match hash_text(&soul.email_hash) {
            Some(text) => text,
            None => {
                return Err(RegistryError::HashNotText);
            },
        };
        Ok([git, email])
    }
}

} // verus!
