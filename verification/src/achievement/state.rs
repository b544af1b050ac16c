//! The ledger as a mathematical state, and what each call does to it.
//!
//! Every call has an outcome, which says whether the call is accepted and
//! what it pays out, and a successor state. A rejected call leaves the state
//! as it was.

use super::index::{index_matches, index_with, index_without};
use super::record::{Credential, IOAchievement, LedgerError};
use crate::units::units_of;
use vstd::prelude::*;

verus! {

/// The only account whose binding pushes the ledger accepts.
pub open spec fn registry_account() -> Seq<char> {
    "sbt.soul_dev.testnet"@
}

/// For each credential id, the issuer it is filed under.
pub open spec fn issuer_keys(credentials: Map<u128, Credential>) -> Map<u128, u128> {
    credentials.map_values(|c: Credential| c.issuer)
}

/// For each credential id, the owner it is filed under.
pub open spec fn owner_keys(credentials: Map<u128, Credential>) -> Map<u128, u128> {
    credentials.map_values(|c: Credential| c.owner)
}

/// What is left over for the verifier when a credential holding `balance`
/// is split among `count` new owners, each of whom receives the whole
/// balance: the balance less the total handed out, and nothing where the
/// total exceeds the balance.
pub open spec fn split_remainder(balance: u128, count: nat) -> u128 {
    if count * balance <= balance {
        (balance - count * balance) as u128
    } else {
        0
    }
}

/// The state of the ledger.
#[verifier::ext_equal]
pub struct LedgerState {
    /// Cache of the registry's bindings, by identity.
    pub account_of_id: Map<u128, Seq<char>>,
    /// Cache of the registry's bindings, by account.
    pub id_of_account: Map<Seq<char>, u128>,
    /// The credentials, by id.
    pub achievements: Map<u128, Credential>,
    /// For each issuer, the ids of the credentials it issued.
    pub issuers_achievements: Map<u128, Seq<u128>>,
    /// For each owner, the ids of the credentials it owns.
    pub owners_achievements: Map<u128, Seq<u128>>,
}

impl LedgerState {
    /// The ledger with no bindings and no credentials.
    pub open spec fn empty() -> LedgerState {
        LedgerState {
            account_of_id: Map::empty(),
            id_of_account: Map::empty(),
            achievements: Map::empty(),
            issuers_achievements: Map::empty(),
            owners_achievements: Map::empty(),
        }
    }

    /// The invariant of the ledger: there are finitely many credentials,
    /// each is stored under its own id, and both indexes list exactly the
    /// stored credentials, each under its issuer and under its owner.
    pub open spec fn wf(self) -> bool {
        &&& self.achievements.dom().finite()
        &&& forall|id: u128| #[trigger]
            self.achievements.contains_key(id) ==> self.achievements[id].achievement_id == id
        &&& index_matches(issuer_keys(self.achievements), self.issuers_achievements)
        &&& index_matches(owner_keys(self.achievements), self.owners_achievements)
    }

    /// Whether `account` is bound to the identity `id` in the cache.
    pub open spec fn has_identity(self, account: Seq<char>, id: u128) -> bool {
        self.id_of_account.contains_key(account) && self.id_of_account[account] == id
    }

    /// The state with `credential` stored and filed in both indexes.
    pub open spec fn with_credential(self, credential: Credential) -> LedgerState {
        LedgerState {
            achievements: self.achievements.insert(credential.achievement_id, credential),
            issuers_achievements: index_with(
                self.issuers_achievements,
                credential.issuer,
                credential.achievement_id,
            ),
            owners_achievements: index_with(
                self.owners_achievements,
                credential.owner,
                credential.achievement_id,
            ),
            ..self
        }
    }

    /// The state with the credential `id` deleted and taken out of both
    /// indexes.
    pub open spec fn without_credential(self, id: u128) -> LedgerState {
        LedgerState {
            achievements: self.achievements.remove(id),
            issuers_achievements: index_without(
                self.issuers_achievements,
                self.achievements[id].issuer,
                id,
            ),
            owners_achievements: index_without(
                self.owners_achievements,
                self.achievements[id].owner,
                id,
            ),
            ..self
        }
    }

    /// The state with the credential `id` replaced by `credential`, the
    /// indexes untouched.
    pub open spec fn with_record(self, id: u128, credential: Credential) -> LedgerState {
        LedgerState { achievements: self.achievements.insert(id, credential), ..self }
    }

    // Bindings pushed by the registry.
    /// A binding push is accepted from the registry's account and from no
    /// other.
    pub open spec fn binding_outcome(caller: Seq<char>) -> Result<(), LedgerError> {
        if caller == registry_account() {
            Ok(())
        } else {
            Err(LedgerError::NotRegistry)
        }
    }

    /// The state after the binding of `user` to `id` is recorded.
    pub open spec fn after_set_id(self, user: Seq<char>, id: u128) -> LedgerState {
        LedgerState {
            account_of_id: self.account_of_id.insert(id, user),
            id_of_account: self.id_of_account.insert(user, id),
            ..self
        }
    }

    /// The state after the binding of `user` to `id` is dropped.
    pub open spec fn after_remove_id(self, user: Seq<char>, id: u128) -> LedgerState {
        LedgerState {
            account_of_id: self.account_of_id.remove(id),
            id_of_account: self.id_of_account.remove(user),
            ..self
        }
    }

    // Mint.
    /// Whether a mint is accepted, and the refund it pays to the caller: the
    /// attached deposit less the declared balance in indivisible units.
    pub open spec fn mint_outcome(self, signer: Seq<char>, attached: u128, data: IOAchievement)
        -> Result<u128, LedgerError> {
        if self.achievements.contains_key(data.achievement_id) {
            Err(LedgerError::DuplicateId)
        } else if !self.has_identity(signer, data.issuer) {
            Err(LedgerError::NotIssuer)
        } else if units_of(data.balance) is None {
            Err(LedgerError::Overflow)
        } else if attached < units_of(data.balance)->0 {
            Err(LedgerError::InsufficientDeposit)
        } else {
            Ok((attached - units_of(data.balance)->0) as u128)
        }
    }

    /// The state after an accepted mint.
    pub open spec fn after_mint(self, data: IOAchievement) -> LedgerState {
        self.with_credential(data.stored(units_of(data.balance)->0))
    }

    // Burn.
    /// Whether a burn is accepted: the caller must be the issuer.
    pub open spec fn burn_outcome(self, signer: Seq<char>, id: u128) -> Result<(), LedgerError> {
        if !self.id_of_account.contains_key(signer) {
            Err(LedgerError::UnknownCaller)
        } else if !self.achievements.contains_key(id) {
            Err(LedgerError::UnknownAchievement)
        } else if self.achievements[id].issuer != self.id_of_account[signer] {
            Err(LedgerError::NotIssuer)
        } else {
            Ok(())
        }
    }

    /// The state after an accepted burn. The escrow of the credential is not
    /// paid out: it stays with the ledger.
    pub open spec fn after_burn(self, id: u128) -> LedgerState {
        self.without_credential(id)
    }

    // Update of the owner.
    /// Whether the owner of a credential may be set: only while it has none,
    /// only to a bound account, and only by the issuer.
    pub open spec fn update_owner_outcome(self, signer: Seq<char>, id: u128, new_owner: Seq<char>)
        -> Result<(), LedgerError> {
        if !self.achievements.contains_key(id) {
            Err(LedgerError::UnknownAchievement)
        } else if self.achievements[id].owner != 0 {
            Err(LedgerError::OwnerFixed)
        } else if !self.id_of_account.contains_key(new_owner) {
            Err(LedgerError::UnknownOwner)
        } else if !self.id_of_account.contains_key(signer) {
            Err(LedgerError::UnknownCaller)
        } else if self.achievements[id].issuer != self.id_of_account[signer] {
            Err(LedgerError::NotIssuer)
        } else {
            Ok(())
        }
    }

    /// The state after the owner of `id` is set to the identity of
    /// `new_owner`: the credential moves from the bucket of its old owner to
    /// the end of the bucket of the new one.
    pub open spec fn after_update_owner(self, id: u128, new_owner: Seq<char>) -> LedgerState {
        let old_record = self.achievements[id];
        let owner = self.id_of_account[new_owner];
        LedgerState {
            achievements: self.achievements.insert(id, Credential { owner: owner, ..old_record }),
            owners_achievements: index_with(
                index_without(self.owners_achievements, old_record.owner, id),
                owner,
                id,
            ),
            ..self
        }
    }

    // Acceptance.
    /// Whether a credential may be accepted: only by its owner.
    pub open spec fn accept_outcome(self, signer: Seq<char>, id: u128) -> Result<
        (),
        LedgerError,
    > {
        if !self.achievements.contains_key(id) {
            Err(LedgerError::UnknownAchievement)
        } else if !self.has_identity(signer, self.achievements[id].owner) {
            Err(LedgerError::NotOwner)
        } else {
            Ok(())
        }
    }

    /// The state after `id` is accepted.
    pub open spec fn after_accept(self, id: u128) -> LedgerState {
        self.with_record(id, Credential { is_accepted: true, ..self.achievements[id] })
    }

    // Verification.
    /// Whether a credential may be verified, and the payment that releases
    /// its escrow: the whole balance, to the account of its owner.
    pub open spec fn verify_outcome(self, signer: Seq<char>, id: u128) -> Result<
        (Seq<char>, u128),
        LedgerError,
    > {
        if !self.achievements.contains_key(id) {
            Err(LedgerError::UnknownAchievement)
        } else if !self.has_identity(signer, self.achievements[id].verifier) {
            Err(LedgerError::NotVerifier)
        } else if self.achievements[id].is_verified {
            Err(LedgerError::AlreadyVerified)
        } else if !self.account_of_id.contains_key(self.achievements[id].owner) {
            Err(LedgerError::UnboundIdentity)
        } else {
            Ok((self.account_of_id[self.achievements[id].owner], self.achievements[id].balance))
        }
    }

    /// The state after `id` is verified: marked so, with no escrow left.
    pub open spec fn after_verify(self, id: u128) -> LedgerState {
        self.with_record(
            id,
            Credential { is_verified: true, balance: 0, ..self.achievements[id] },
        )
    }

    // Split.
    /// Whether one of `ids` is the id of a stored credential.
    pub open spec fn any_in_use(self, ids: Seq<u128>) -> bool {
        exists|i: int| 0 <= i < ids.len() && self.achievements.contains_key(#[trigger] ids[i])
    }

    /// Whether one of `owners` has no account in the cache.
    pub open spec fn any_unbound(self, owners: Seq<u128>) -> bool {
        exists|i: int|
            0 <= i < owners.len() && !self.account_of_id.contains_key(#[trigger] owners[i])
    }

    /// Whether a split is accepted, and the payment of the remainder to the
    /// verifier's account. There is one child for each new owner; the ids
    /// are taken from the front of `new_ids`.
    pub open spec fn split_outcome(
        self,
        signer: Seq<char>,
        id: u128,
        new_owners: Seq<u128>,
        new_ids: Seq<u128>,
    ) -> Result<(Seq<char>, u128), LedgerError> {
        if !self.achievements.contains_key(id) {
            Err(LedgerError::UnknownAchievement)
        } else if !self.id_of_account.contains_key(signer) {
            Err(LedgerError::UnknownCaller)
        } else if self.id_of_account[signer] != self.achievements[id].verifier {
            Err(LedgerError::NotVerifier)
        } else if self.any_in_use(new_ids) {
            Err(LedgerError::DuplicateId)
        } else if self.any_unbound(new_owners) {
            Err(LedgerError::UnknownOwner)
        } else if new_ids.len() < new_owners.len() {
            Err(LedgerError::MissingIds)
        } else if !new_ids.take(new_owners.len() as int).no_duplicates() {
            Err(LedgerError::DuplicateId)
        } else if !self.account_of_id.contains_key(self.achievements[id].verifier) {
            Err(LedgerError::UnboundIdentity)
        } else {
            Ok(
                (
                    self.account_of_id[self.achievements[id].verifier],
                    split_remainder(self.achievements[id].balance, new_owners.len()),
                ),
            )
        }
    }

    /// The state with the first `count` children of `parent` stored, in
    /// order.
    pub open spec fn with_children(
        self,
        parent: Credential,
        new_owners: Seq<u128>,
        new_ids: Seq<u128>,
        count: nat,
    ) -> LedgerState
        decreases count,
    {
        if count == 0 {
            self
        } else {
            self.with_children(parent, new_owners, new_ids, (count - 1) as nat).with_credential(
                parent.child(new_ids[count - 1], new_owners[count - 1]),
            )
        }
    }

    /// The state after an accepted split: one child per new owner is added;
    /// the parent stays as it is.
    pub open spec fn after_split(self, id: u128, new_owners: Seq<u128>, new_ids: Seq<u128>)
        -> LedgerState {
        self.with_children(self.achievements[id], new_owners, new_ids, new_owners.len())
    }

    // Replenishment.
    /// Whether escrow can be added to a credential: it must exist and the
    /// sum must be representable.
    pub open spec fn replenish_outcome(self, id: u128, attached: u128) -> Result<(), LedgerError> {
        if !self.achievements.contains_key(id) {
            Err(LedgerError::UnknownAchievement)
        } else if self.achievements[id].balance + attached > u128::MAX {
            Err(LedgerError::Overflow)
        } else {
            Ok(())
        }
    }

    /// The state after `attached` units are added to the escrow of `id`.
    pub open spec fn after_replenish(self, id: u128, attached: u128) -> LedgerState {
        self.with_record(
            id,
            Credential {
                balance: (self.achievements[id].balance + attached) as u128,
                ..self.achievements[id]
            },
        )
    }

    // Reading.
    /// The credential `id`, if it is stored.
    pub open spec fn data_outcome(self, id: u128) -> Result<Credential, LedgerError> {
        if self.achievements.contains_key(id) {
            Ok(self.achievements[id])
        } else {
            Err(LedgerError::UnknownAchievement)
        }
    }

    /// The bucket of `subject` in `index`, for a caller who is the operator
    /// of the ledger or the subject itself.
    pub open spec fn listing_outcome(
        self,
        index: Map<u128, Seq<u128>>,
        signer: Seq<char>,
        operator: Seq<char>,
        subject: Seq<char>,
    ) -> Result<Seq<u128>, LedgerError> {
        if signer != operator && signer != subject {
            Err(LedgerError::NotAuthorized)
        } else if !self.id_of_account.contains_key(subject) {
            Err(LedgerError::UnknownUser)
        } else if !index.contains_key(self.id_of_account[subject]) {
            Err(LedgerError::NoAchievements)
        } else {
            Ok(index[self.id_of_account[subject]])
        }
    }
}

/// A call to the ledger, with what the host supplies alongside it: who
/// calls and what was attached.
pub enum Call {
    SetId { caller: Seq<char>, user: Seq<char>, id: u128 },
    RemoveId { caller: Seq<char>, user: Seq<char>, id: u128 },
    Mint { signer: Seq<char>, attached: u128, data: IOAchievement },
    Burn { signer: Seq<char>, id: u128 },
    UpdateOwner { signer: Seq<char>, id: u128, new_owner: Seq<char> },
    Accept { signer: Seq<char>, id: u128 },
    Verify { signer: Seq<char>, id: u128 },
    Split { signer: Seq<char>, id: u128, new_owners: Seq<u128>, new_ids: Seq<u128> },
    Replenish { id: u128, attached: u128 },
}

impl LedgerState {
    /// Whether the ledger accepts `call` in this state.
    pub open spec fn accepts(self, call: Call) -> bool {
        match call {
            Call::SetId { caller, .. } => Self::binding_outcome(caller) is Ok,
            Call::RemoveId { caller, .. } => Self::binding_outcome(caller) is Ok,
            Call::Mint { signer, attached, data } => self.mint_outcome(
                signer,
                attached,
                data,
            ) is Ok,
            Call::Burn { signer, id } => self.burn_outcome(signer, id) is Ok,
            Call::UpdateOwner { signer, id, new_owner } => self.update_owner_outcome(
                signer,
                id,
                new_owner,
            ) is Ok,
            Call::Accept { signer, id } => self.accept_outcome(signer, id) is Ok,
            Call::Verify { signer, id } => self.verify_outcome(signer, id) is Ok,
            Call::Split { signer, id, new_owners, new_ids } => self.split_outcome(
                signer,
                id,
                new_owners,
                new_ids,
            ) is Ok,
            Call::Replenish { id, attached } => self.replenish_outcome(id, attached) is Ok,
        }
    }

    /// The state after `call`: the successor state where the call is
    /// accepted, the same state where it is rejected.
    pub open spec fn apply(self, call: Call) -> LedgerState {
        if !self.accepts(call) {
            self
        } else {
            match call {
                Call::SetId { user, id, .. } => self.after_set_id(user, id),
                Call::RemoveId { user, id, .. } => self.after_remove_id(user, id),
                Call::Mint { data, .. } => self.after_mint(data),
                Call::Burn { id, .. } => self.after_burn(id),
                Call::UpdateOwner { id, new_owner, .. } => self.after_update_owner(id, new_owner),
                Call::Accept { id, .. } => self.after_accept(id),
                Call::Verify { id, .. } => self.after_verify(id),
                Call::Split { id, new_owners, new_ids, .. } => self.after_split(
                    id,
                    new_owners,
                    new_ids,
                ),
                Call::Replenish { id, attached } => self.after_replenish(id, attached),
            }
        }
    }

    /// The value that comes into the ledger's funds with `call`: what was
    /// attached to an accepted mint or replenishment.
    pub open spec fn received(self, call: Call) -> nat {
        if !self.accepts(call) {
            0
        } else {
            match call {
                Call::Mint { attached, .. } => attached as nat,
                Call::Replenish { attached, .. } => attached as nat,
                _ => 0,
            }
        }
    }

    /// The value that `call` pays out of the ledger's funds: the refund of
    /// an accepted mint, the payment of a verification, the remainder of a
    /// split.
    pub open spec fn paid(self, call: Call) -> nat {
        if !self.accepts(call) {
            0
        } else {
            match call {
                Call::Mint { signer, attached, data } => self.mint_outcome(
                    signer,
                    attached,
                    data,
                )->Ok_0 as nat,
                Call::Verify { signer, id } => self.verify_outcome(signer, id)->Ok_0.1 as nat,
                Call::Split { signer, id, new_owners, new_ids } => self.split_outcome(
                    signer,
                    id,
                    new_owners,
                    new_ids,
                )->Ok_0.1 as nat,
                _ => 0,
            }
        }
    }

    /// Whether `call` is an accepted split of a credential that holds
    /// escrow. Such a split hands out value that the ledger did not
    /// receive: every child, and the parent too, holds the parent's whole
    /// balance afterwards.
    pub open spec fn splits_escrow(self, call: Call) -> bool {
        match call {
            Call::Split { id, .. } => self.accepts(call) && self.achievements[id].balance > 0,
            _ => false,
        }
    }
}

/// The state that a sequence of calls leaves, starting from the empty
/// ledger.
pub open spec fn run(calls: Seq<Call>) -> LedgerState
    decreases calls.len(),
{
    if calls.len() == 0 {
        LedgerState::empty()
    } else {
        run(calls.drop_last()).apply(calls.last())
    }
}

/// The funds that a sequence of calls leaves with the ledger, starting with
/// none: everything received less everything paid out.
pub open spec fn funds(calls: Seq<Call>) -> int
    decreases calls.len(),
{
    if calls.len() == 0 {
        0
    } else {
        let before = run(calls.drop_last());
        funds(calls.drop_last()) + before.received(calls.last()) - before.paid(calls.last())
    }
}

} // verus!
