//! The ledger itself: the stored state and the calls that change it.

use super::index::{buckets_of, index_push, index_remove};
use super::record::{Achievement, Credential, IOAchievement, LedgerError, Transfer};
use super::laws::{lemma_apply_wf, lemma_empty_wf};
use super::state::{split_remainder, Call, LedgerState};
use crate::account_ids::{accounts_of, AccountIds};
use crate::text::{bytes_to_string, copy_of, string_to_bytes};
use crate::units::to_units;
use std::collections::HashMap;
use vstd::prelude::*;

verus! {

/// The credentials of a store held in a hash map.
pub open spec fn credentials_of(records: Map<u128, Achievement>) -> Map<u128, Credential> {
    records.map_values(|record: Achievement| record@)
}

/// What is left for the verifier when `balance` is split among `count` new
/// owners.
fn remainder_after_split(balance: u128, count: usize) -> (r: u128)
    ensures
        r == split_remainder(balance, count as nat),
{
    match balance.checked_mul(count as u128) {
        Some(total) => {
            assert(total == count * balance) by (nonlinear_arith)
                requires
                    total == balance * (count as u128),
            ;
            if total <= balance {
                balance - total
            } else {
                0
            }
        },
        None => {
            assert(count * balance > balance) by (nonlinear_arith)
                requires
                    balance * (count as u128) > u128::MAX,
                    balance <= u128::MAX,
            ;
            0
        },
    }
}

/// The achievement ledger.
pub struct AchievementToken {
    pub account_of_id: HashMap<u128, String>,
    pub id_of_account: AccountIds,
    pub achievements: HashMap<u128, Achievement>,
    pub issuers_achievements: HashMap<u128, Vec<u128>>,
    pub owners_achievements: HashMap<u128, Vec<u128>>,
}

impl View for AchievementToken {
    type V = LedgerState;

    open spec fn view(&self) -> LedgerState {
        LedgerState {
            account_of_id: accounts_of(self.account_of_id@),
            id_of_account: self.id_of_account@,
            achievements: credentials_of(self.achievements@),
            issuers_achievements: buckets_of(self.issuers_achievements@),
            owners_achievements: buckets_of(self.owners_achievements@),
        }
    }
}

impl AchievementToken {
    /// A ledger with no bindings and no credentials.
    pub fn init() -> (r: Self)
        ensures
            r@ == LedgerState::empty(),
            r@.wf(),
    {
        proof {
            lemma_empty_wf();
        }
        let r = AchievementToken {
            account_of_id: HashMap::new(),
            id_of_account: AccountIds::new(),
            achievements: HashMap::new(),
            issuers_achievements: HashMap::new(),
            owners_achievements: HashMap::new(),
        };
        assert(r@ =~= LedgerState::empty());
        r
    }

    /// Stores `record` under its id and files it under its issuer and its owner.
    fn insert_credential(&mut self, record: Achievement)
        ensures
            final(self)@ == old(self)@.with_credential(record@),
    {
        broadcast use vstd::std_specs::hash::group_hash_axioms;

        let id = record.achievement_id;
        let issuer = record.issuer;
        let owner = record.owner;
        self.achievements.insert(id, record);
        index_push(&mut self.issuers_achievements, issuer, id);
        index_push(&mut self.owners_achievements, owner, id);
        assert(self@ =~= old(self)@.with_credential(record@));
    }

    /// Records that the registry bound `user` to the identity `id`. Only the
    /// registry's account, as `caller`, may do so.
    pub fn set_id_of_account(&mut self, caller: &String, user: String, id: u128) -> (r: Result<
        (),
        LedgerError,
    >)
        ensures
            r == LedgerState::binding_outcome(caller@),
            r is Ok ==> final(self)@ == old(self)@.after_set_id(user@, id),
            r is Err ==> final(self)@ == old(self)@,
            final(self)@ == old(self)@.apply(Call::SetId { caller: caller@, user: user@, id: id }),
            old(self)@.wf() ==> final(self)@.wf(),
    {
        broadcast use vstd::std_specs::hash::group_hash_axioms;

        proof {
            if old(self)@.wf() {
                lemma_apply_wf(old(self)@, Call::SetId { caller: caller@, user: user@, id: id });
            }
        }

        let registry = "sbt.soul_dev.testnet".to_owned();
        if *caller != registry {
            return Err(LedgerError::NotRegistry);
        }
        self.account_of_id.insert(id, user.clone());
        self.id_of_account.insert(user, id);
        assert(self@ =~= old(self)@.after_set_id(user@, id));
        Ok(())
    }

    /// Records that the registry dropped the binding of `user` to `id`. Only
    /// the registry's account, as `caller`, may do so.
    pub fn remove_id_of_account(&mut self, caller: &String, user: String, id: u128) -> (r: Result<
        (),
        LedgerError,
    >)
        ensures
            r == LedgerState::binding_outcome(caller@),
            r is Ok ==> final(self)@ == old(self)@.after_remove_id(user@, id),
            r is Err ==> final(self)@ == old(self)@,
            final(self)@ == old(self)@.apply(
                Call::RemoveId {
                    caller: caller@,
                    user: user@,
                    id: id,
                },
            ),
            old(self)@.wf() ==> final(self)@.wf(),
    {
        broadcast use vstd::std_specs::hash::group_hash_axioms;

        proof {
            if old(self)@.wf() {
                lemma_apply_wf(old(self)@, Call::RemoveId { caller: caller@, user: user@, id: id });
            }
        }

        let registry = "sbt.soul_dev.testnet".to_owned();
        if *caller != registry {
            return Err(LedgerError::NotRegistry);
        }
        self.account_of_id.remove(&id);
        self.id_of_account.remove(&user);
        assert(self@ =~= old(self)@.after_remove_id(user@, id));
        Ok(())
    }

    /// Issues the credential that `achievement_data` describes, on behalf of
    /// `signer`, who attached `attached_deposit` indivisible units. The
    /// declared balance goes into escrow and the rest is to be paid back to
    /// the signer.
    pub fn mint(&mut self, signer: &String, attached_deposit: u128, achievement_data: IOAchievement)
        -> (r: Result<Transfer, LedgerError>)
        ensures
            match r {
                Ok(refund) => {
                    &&& old(self)@.mint_outcome(signer@, attached_deposit, achievement_data)
                        == Ok::<u128, LedgerError>(refund.amount)
                    &&& refund.receiver@ == signer@
                    &&& final(self)@ == old(self)@.after_mint(achievement_data)
                },
                Err(e) => {
                    &&& old(self)@.mint_outcome(signer@, attached_deposit, achievement_data)
                        == Err::<u128, LedgerError>(e)
                    &&& final(self)@ == old(self)@
                },
            },
            final(self)@ == old(self)@.apply(
                Call::Mint {
                    signer: signer@,
                    attached: attached_deposit,
                    data: achievement_data,
                },
            ),
            old(self)@.wf() ==> final(self)@.wf(),
    {
        broadcast use vstd::std_specs::hash::group_hash_axioms;

        proof {
            if old(self)@.wf() {
                lemma_apply_wf(
                    old(self)@,
                    Call::Mint {
                        signer: signer@,
                        attached: attached_deposit,
                        data: achievement_data,
                    },
                );
            }
        }

        if self.achievements.contains_key(&achievement_data.achievement_id) {
            return Err(LedgerError::DuplicateId);
        }
        let is_issuer = match self.id_of_account.get(signer) {
            Some(id) => id == achievement_data.issuer,
            None => false,
        };
        if !is_issuer {
            return Err(LedgerError::NotIssuer);
        }
        let escrow = match to_units(achievement_data.balance) {
            Some(escrow) => escrow,
            None => {
                return Err(LedgerError::Overflow);
            },
        };
        if attached_deposit < escrow {
            return Err(LedgerError::InsufficientDeposit);
        }
        let record = Achievement {
            achievement_id: achievement_data.achievement_id,
            achievement_type: achievement_data.achievement_type,
            issuer: achievement_data.issuer,
            owner: achievement_data.owner,
            is_accepted: achievement_data.is_accepted,
            verifier: achievement_data.verifier,
            is_verified: achievement_data.is_verified,
            data_address: string_to_bytes(&achievement_data.data_address),
            balance: escrow,
        };
        self.insert_credential(record);
        Ok(Transfer { receiver: signer.clone(), amount: attached_deposit - escrow })
    }

    /// Splits the credential `achievement_id` among `new_owners`, on behalf
    /// of `signer`, who must be its verifier. Each new owner gets a child
    /// credential under the id at the same place in `new_achievement_ids`;
    /// every child holds the parent's whole escrow. The parent stays. What
    /// is left of the parent's balance after that allocation is to be paid
    /// to the verifier's account.
    #[verifier::loop_isolation(false)]
    pub fn split_achievement(
        &mut self,
        signer: &String,
        achievement_id: u128,
        new_owners: Vec<u128>,
        new_achievement_ids: Vec<u128>,
    ) -> (r: Result<Transfer, LedgerError>)
        ensures
            match r {
                Ok(refund) => {
                    &&& old(self)@.split_outcome(
                        signer@,
                        achievement_id,
                        new_owners@,
                        new_achievement_ids@,
                    ) == Ok::<(Seq<char>, u128), LedgerError>((refund.receiver@, refund.amount))
                    &&& final(self)@ == old(self)@.after_split(
                        achievement_id,
                        new_owners@,
                        new_achievement_ids@,
                    )
                },
                Err(e) => {
                    &&& old(self)@.split_outcome(
                        signer@,
                        achievement_id,
                        new_owners@,
                        new_achievement_ids@,
                    ) == Err::<(Seq<char>, u128), LedgerError>(e)
                    &&& final(self)@ == old(self)@
                },
            },
            final(self)@ == old(self)@.apply(
                Call::Split {
                    signer: signer@,
                    id: achievement_id,
                    new_owners: new_owners@,
                    new_ids: new_achievement_ids@,
                },
            ),
            old(self)@.wf() ==> final(self)@.wf(),
    {
        broadcast use vstd::std_specs::hash::group_hash_axioms;

        proof {
            if old(self)@.wf() {
                lemma_apply_wf(
                    old(self)@,
                    Call::Split {
                        signer: signer@,
                        id: achievement_id,
                        new_owners: new_owners@,
                        new_ids: new_achievement_ids@,
                    },
                );
            }
        }

        let ghost before = self@;
        let (achievement_type, issuer, verifier, balance, data) = match self.achievements.get(
            &achievement_id,
        ) {
            Some(parent) => (
                parent.achievement_type,
                parent.issuer,
                parent.verifier,
                parent.balance,
                copy_of(&parent.data_address),
            ),
            None => {
                return Err(LedgerError::UnknownAchievement);
            },
        };
        let ghost parent = before.achievements[achievement_id];
        let signer_id = match self.id_of_account.get(signer) {
            Some(id) => id,
            None => {
                return Err(LedgerError::UnknownCaller);
            },
        };
        if signer_id != verifier {
            return Err(LedgerError::NotVerifier);
        }
        let mut i: usize = 0;
        while i < new_achievement_ids.len()
            invariant
                i <= new_achievement_ids.len(),
                self@ == before,
                forall|j: int|
                    0 <= j < i ==> !before.achievements.contains_key(new_achievement_ids@[j]),
            decreases new_achievement_ids.len() - i,
        {
            if self.achievements.contains_key(&new_achievement_ids[i]) {
                assert(before.achievements.contains_key(new_achievement_ids@[i as int]));
                return Err(LedgerError::DuplicateId);
            }
            i += 1;
        }
        let mut i: usize = 0;
        while i < new_owners.len()
            invariant
                i <= new_owners.len(),
                self@ == before,
                forall|j: int| 0 <= j < i ==> before.account_of_id.contains_key(new_owners@[j]),
            decreases new_owners.len() - i,
        {
            if !self.account_of_id.contains_key(&new_owners[i]) {
                assert(!before.account_of_id.contains_key(new_owners@[i as int]));
                return Err(LedgerError::UnknownOwner);
            }
            i += 1;
        }
        let count = new_owners.len();
        if new_achievement_ids.len() < count {
            return Err(LedgerError::MissingIds);
        }
        let ghost taken = new_achievement_ids@.take(count as int);
        let mut i: usize = 0;
        while i < count
            invariant
                i <= count <= new_achievement_ids.len(),
                taken == new_achievement_ids@.take(count as int),
                forall|a: int, b: int| 0 <= a < b < i ==> taken[a] != taken[b],
            decreases count - i,
        {
            let mut j: usize = 0;
            while j < i
                invariant
                    j <= i < count <= new_achievement_ids.len(),
                    taken == new_achievement_ids@.take(count as int),
                    forall|a: int| 0 <= a < j ==> taken[a] != taken[i as int],
                decreases i - j,
            {
                if new_achievement_ids[j] == new_achievement_ids[i] {
                    assert(taken[j as int] == taken[i as int]);
                    return Err(LedgerError::DuplicateId);
                }
                j += 1;
            }
            i += 1;
        }
        assert(taken.no_duplicates());
        let receiver = match self.account_of_id.get(&verifier) {
            Some(account) => account.clone(),
            None => {
                return Err(LedgerError::UnboundIdentity);
            },
        };
        let amount = remainder_after_split(balance, count);
        let mut i: usize = 0;
        while i < count
            invariant
                i <= count,
                count == new_owners.len(),
                count <= new_achievement_ids.len(),
                data@ == parent.data_address,
                achievement_type == parent.achievement_type,
                issuer == parent.issuer,
                verifier == parent.verifier,
                balance == parent.balance,
                self@ == before.with_children(
                    parent,
                    new_owners@,
                    new_achievement_ids@,
                    i as nat,
                ),
            decreases count - i,
        {
            let child = Achievement {
                achievement_id: new_achievement_ids[i],
                achievement_type: achievement_type,
                issuer: issuer,
                owner: new_owners[i],
                is_accepted: false,
                verifier: verifier,
                is_verified: false,
                data_address: copy_of(&data),
                balance: balance,
            };
            assert(child@ =~= parent.child(new_achievement_ids@[i as int], new_owners@[i as int]));
            self.insert_credential(child);
            i += 1;
        }
        Ok(Transfer { receiver: receiver, amount: amount })
    }
    /// Deletes the credential `achievement_id`, on behalf of `signer`, who
    /// must be its issuer. Its escrow is not paid out.
    pub fn burn(&mut self, signer: &String, achievement_id: u128) -> (r: Result<(), LedgerError>)
        ensures
            r == old(self)@.burn_outcome(signer@, achievement_id),
            r is Ok ==> final(self)@ == old(self)@.after_burn(achievement_id),
            r is Err ==> final(self)@ == old(self)@,
            final(self)@ == old(self)@.apply(Call::Burn { signer: signer@, id: achievement_id }),
            old(self)@.wf() ==> final(self)@.wf(),
    {
        broadcast use vstd::std_specs::hash::group_hash_axioms;

        proof {
            if old(self)@.wf() {
                lemma_apply_wf(old(self)@, Call::Burn { signer: signer@, id: achievement_id });
            }
        }

        let signer_id = match self.id_of_account.get(signer) {
            Some(id) => id,
            None => {
                return Err(LedgerError::UnknownCaller);
            },
        };
        let (issuer, owner) = match self.achievements.get(&achievement_id) {
            Some(record) => (record.issuer, record.owner),
            None => {
                return Err(LedgerError::UnknownAchievement);
            },
        };
        if issuer != signer_id {
            return Err(LedgerError::NotIssuer);
        }
        index_remove(&mut self.issuers_achievements, issuer, achievement_id);
        index_remove(&mut self.owners_achievements, owner, achievement_id);
        self.achievements.remove(&achievement_id);
        assert(self@ =~= old(self)@.after_burn(achievement_id));
        Ok(())
    }

    /// Gives the credential `achievement_id`, which has no owner yet, to the
    /// identity bound to `new_owner`, on behalf of `signer`, who must be its
    /// issuer.
    pub fn update_owner(&mut self, signer: &String, achievement_id: u128, new_owner: &String) -> (r:
        Result<(), LedgerError>)
        ensures
            r == old(self)@.update_owner_outcome(signer@, achievement_id, new_owner@),
            r is Ok ==> final(self)@ == old(self)@.after_update_owner(achievement_id, new_owner@),
            r is Err ==> final(self)@ == old(self)@,
            final(self)@ == old(self)@.apply(
                Call::UpdateOwner {
                    signer: signer@,
                    id: achievement_id,
                    new_owner: new_owner@,
                },
            ),
            old(self)@.wf() ==> final(self)@.wf(),
    {
        broadcast use vstd::std_specs::hash::group_hash_axioms;

        proof {
            if old(self)@.wf() {
                lemma_apply_wf(
                    old(self)@,
                    Call::UpdateOwner {
                        signer: signer@,
                        id: achievement_id,
                        new_owner: new_owner@,
                    },
                );
            }
        }

        let (issuer, owner) = match self.achievements.get(&achievement_id) {
            Some(record) => (record.issuer, record.owner),
            None => {
                return Err(LedgerError::UnknownAchievement);
            },
        };
        if owner != 0 {
            return Err(LedgerError::OwnerFixed);
        }
        let new_owner_id = match self.id_of_account.get(new_owner) {
            Some(id) => id,
            None => {
                return Err(LedgerError::UnknownOwner);
            },
        };
        let signer_id = match self.id_of_account.get(signer) {
            Some(id) => id,
            None => {
                return Err(LedgerError::UnknownCaller);
            },
        };
        if issuer != signer_id {
            return Err(LedgerError::NotIssuer);
        }
        match self.achievements.remove(&achievement_id) {
            Some(mut record) => {
                record.owner = new_owner_id;
                self.achievements.insert(achievement_id, record);
            },
            None => {},
        }
        index_remove(&mut self.owners_achievements, owner, achievement_id);
        index_push(&mut self.owners_achievements, new_owner_id, achievement_id);
        assert(self@ =~= old(self)@.after_update_owner(achievement_id, new_owner@));
        Ok(())
    }

    /// Marks the credential `achievement_id` as accepted, on behalf of
    /// `signer`, who must be its owner. Accepting twice is no error.
    pub fn accept_achievement(&mut self, signer: &String, achievement_id: u128) -> (r: Result<
        (),
        LedgerError,
    >)
        ensures
            r == old(self)@.accept_outcome(signer@, achievement_id),
            r is Ok ==> final(self)@ == old(self)@.after_accept(achievement_id),
            r is Err ==> final(self)@ == old(self)@,
            final(self)@ == old(self)@.apply(Call::Accept { signer: signer@, id: achievement_id }),
            old(self)@.wf() ==> final(self)@.wf(),
    {
        broadcast use vstd::std_specs::hash::group_hash_axioms;

        proof {
            if old(self)@.wf() {
                lemma_apply_wf(old(self)@, Call::Accept { signer: signer@, id: achievement_id });
            }
        }

        let owner = match self.achievements.get(&achievement_id) {
            Some(record) => record.owner,
            None => {
                return Err(LedgerError::UnknownAchievement);
            },
        };
        let is_owner = match self.id_of_account.get(signer) {
            Some(id) => id == owner,
            None => false,
        };
        if !is_owner {
            return Err(LedgerError::NotOwner);
        }
        match self.achievements.remove(&achievement_id) {
            Some(mut record) => {
                record.is_accepted = true;
                self.achievements.insert(achievement_id, record);
            },
            None => {},
        }
        assert(self@ =~= old(self)@.after_accept(achievement_id));
        Ok(())
    }

    /// Verifies the credential `achievement_id`, on behalf of `signer`, who
    /// must be its verifier. The whole escrow is to be paid to the account
    /// of the owner, and none is left on the credential.
    pub fn verify_achievement(&mut self, signer: &String, achievement_id: u128) -> (r: Result<
        Transfer,
        LedgerError,
    >)
        ensures
            match r {
                Ok(payment) => {
                    &&& old(self)@.verify_outcome(signer@, achievement_id) == Ok::<
                        (Seq<char>, u128),
                        LedgerError,
                    >((payment.receiver@, payment.amount))
                    &&& final(self)@ == old(self)@.after_verify(achievement_id)
                },
                Err(e) => {
                    &&& old(self)@.verify_outcome(signer@, achievement_id) == Err::<
                        (Seq<char>, u128),
                        LedgerError,
                    >(e)
                    &&& final(self)@ == old(self)@
                },
            },
            final(self)@ == old(self)@.apply(Call::Verify { signer: signer@, id: achievement_id }),
            old(self)@.wf() ==> final(self)@.wf(),
    {
        broadcast use vstd::std_specs::hash::group_hash_axioms;

        proof {
            if old(self)@.wf() {
                lemma_apply_wf(old(self)@, Call::Verify { signer: signer@, id: achievement_id });
            }
        }

        let (verifier, is_verified, owner, balance) = match self.achievements.get(
            &achievement_id,
        ) {
            Some(record) => (record.verifier, record.is_verified, record.owner, record.balance),
            None => {
                return Err(LedgerError::UnknownAchievement);
            },
        };
        let is_verifier = match self.id_of_account.get(signer) {
            Some(id) => id == verifier,
            None => false,
        };
        if !is_verifier {
            return Err(LedgerError::NotVerifier);
        }
        if is_verified {
            return Err(LedgerError::AlreadyVerified);
        }
        let receiver = match self.account_of_id.get(&owner) {
            Some(account) => account.clone(),
            None => {
                return Err(LedgerError::UnboundIdentity);
            },
        };
        match self.achievements.remove(&achievement_id) {
            Some(mut record) => {
                record.is_verified = true;
                record.balance = 0;
                self.achievements.insert(achievement_id, record);
            },
            None => {},
        }
        assert(self@ =~= old(self)@.after_verify(achievement_id));
        Ok(Transfer { receiver: receiver, amount: balance })
    }

    /// The credential `achievement_id` as callers read it.
    pub fn get_achievement_data(&self, achievement_id: u128) -> (r: Result<
        IOAchievement,
        LedgerError,
    >)
        ensures
            match r {
                Ok(data) => {
                    &&& self@.data_outcome(achievement_id) is Ok
                    &&& data.shows(self@.achievements[achievement_id])
                },
                Err(e) => self@.data_outcome(achievement_id) == Err::<Credential, LedgerError>(e),
            },
    {
        broadcast use vstd::std_specs::hash::group_hash_axioms;

        match self.achievements.get(&achievement_id) {
            Some(record) => Ok(
                IOAchievement {
                    achievement_id: record.achievement_id,
                    achievement_type: record.achievement_type,
                    issuer: record.issuer,
                    owner: record.owner,
                    is_accepted: record.is_accepted,
                    verifier: record.verifier,
                    is_verified: record.is_verified,
                    data_address: bytes_to_string(&record.data_address),
                    balance: record.balance,
                },
            ),
            None => Err(LedgerError::UnknownAchievement),
        }
    }

    /// The ids of the credentials issued by the identity of `issuer`, in the
    /// order in which they were filed. Only the ledger's `operator` and the
    /// issuer itself may ask.
    pub fn get_achievements_of_issuer(&self, signer: &String, operator: &String, issuer: &String)
        -> (r: Result<Vec<u128>, LedgerError>)
        ensures
            match r {
                Ok(ids) => self@.listing_outcome(
                    self@.issuers_achievements,
                    signer@,
                    operator@,
                    issuer@,
                ) == Ok::<Seq<u128>, LedgerError>(ids@),
                Err(e) => self@.listing_outcome(
                    self@.issuers_achievements,
                    signer@,
                    operator@,
                    issuer@,
                ) == Err::<Seq<u128>, LedgerError>(e),
            },
    {
        broadcast use vstd::std_specs::hash::group_hash_axioms;

        if *signer != *operator && *signer != *issuer {
            return Err(LedgerError::NotAuthorized);
        }
        let id = match self.id_of_account.get(issuer) {
            Some(id) => id,
            None => {
                return Err(LedgerError::UnknownUser);
            },
        };
        match self.issuers_achievements.get(&id) {
            Some(ids) => Ok(copy_of(ids)),
            None => Err(LedgerError::NoAchievements),
        }
    }

    /// The ids of the credentials owned by the identity of `owner`, in the
    /// order in which they were filed. Only the ledger's `operator` and the
    /// owner itself may ask.
    pub fn get_achievements_of_owner(&self, signer: &String, operator: &String, owner: &String)
        -> (r: Result<Vec<u128>, LedgerError>)
        ensures
            match r {
                Ok(ids) => self@.listing_outcome(
                    self@.owners_achievements,
                    signer@,
                    operator@,
                    owner@,
                ) == Ok::<Seq<u128>, LedgerError>(ids@),
                Err(e) => self@.listing_outcome(
                    self@.owners_achievements,
                    signer@,
                    operator@,
                    owner@,
                ) == Err::<Seq<u128>, LedgerError>(e),
            },
    {
        broadcast use vstd::std_specs::hash::group_hash_axioms;

        if *signer != *operator && *signer != *owner {
            return Err(LedgerError::NotAuthorized);
        }
        let id = match self.id_of_account.get(owner) {
            Some(id) => id,
            None => {
                return Err(LedgerError::UnknownUser);
            },
        };
        match self.owners_achievements.get(&id) {
            Some(ids) => Ok(copy_of(ids)),
            None => Err(LedgerError::NoAchievements),
        }
    }

    /// Adds the `attached_deposit` to the escrow of the credential
    /// `achievement_id`. Anyone may do so. A sum that is not representable
    /// is rejected.
    pub fn replenish_achievement_balance(&mut self, achievement_id: u128, attached_deposit: u128)
        -> (r: Result<(), LedgerError>)
        ensures
            r == old(self)@.replenish_outcome(achievement_id, attached_deposit),
            r is Ok ==> final(self)@ == old(self)@.after_replenish(
                achievement_id,
                attached_deposit,
            ),
            r is Err ==> final(self)@ == old(self)@,
            final(self)@ == old(self)@.apply(
                Call::Replenish {
                    id: achievement_id,
                    attached: attached_deposit,
                },
            ),
            old(self)@.wf() ==> final(self)@.wf(),
    {
        broadcast use vstd::std_specs::hash::group_hash_axioms;

        proof {
            if old(self)@.wf() {
                lemma_apply_wf(
                    old(self)@,
                    Call::Replenish {
                        id: achievement_id,
                        attached: attached_deposit,
                    },
                );
            }
        }

        let balance = match self.achievements.get(&achievement_id) {
            Some(record) => record.balance,
            None => {
                return Err(LedgerError::UnknownAchievement);
            },
        };
        let sum = match balance.checked_add(attached_deposit) {
            Some(sum) => sum,
            None => {
                return Err(LedgerError::Overflow);
            },
        };
        match self.achievements.remove(&achievement_id) {
            Some(mut record) => {
                record.balance = sum;
                self.achievements.insert(achievement_id, record);
            },
            None => {},
        }
        assert(self@ =~= old(self)@.after_replenish(achievement_id, attached_deposit));
        Ok(())
    }
}

} // verus!
