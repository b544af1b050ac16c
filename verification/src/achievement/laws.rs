//! What holds of the ledger in every state that calls can reach.

use super::escrow::{
    lemma_total_escrow_insert, lemma_total_escrow_remove, lemma_total_escrow_update, total_escrow,
};
use super::index::{
    bucket, index_without, lemma_index_with_matches, lemma_index_without_matches,
};
use super::record::{Credential, IOAchievement, LedgerError};
use super::state::{funds, issuer_keys, owner_keys, run, Call, LedgerState};
use crate::units::{units_of, NEAR};
use vstd::prelude::*;

verus! {

/// Storing a credential under an unused id keeps the invariant.
pub proof fn lemma_with_credential_wf(state: LedgerState, credential: Credential)
    requires
        state.wf(),
        !state.achievements.contains_key(credential.achievement_id),
    ensures
        state.with_credential(credential).wf(),
{
    let id = credential.achievement_id;
    let after = state.achievements.insert(id, credential);
    assert(issuer_keys(after) =~= issuer_keys(state.achievements).insert(id, credential.issuer));
    assert(owner_keys(after) =~= owner_keys(state.achievements).insert(id, credential.owner));
    lemma_index_with_matches(
        issuer_keys(state.achievements),
        state.issuers_achievements,
        credential.issuer,
        id,
    );
    lemma_index_with_matches(
        owner_keys(state.achievements),
        state.owners_achievements,
        credential.owner,
        id,
    );
}

/// Deleting a stored credential keeps the invariant.
pub proof fn lemma_without_credential_wf(state: LedgerState, id: u128)
    requires
        state.wf(),
        state.achievements.contains_key(id),
    ensures
        state.without_credential(id).wf(),
{
    let after = state.achievements.remove(id);
    assert(issuer_keys(after) =~= issuer_keys(state.achievements).remove(id));
    assert(owner_keys(after) =~= owner_keys(state.achievements).remove(id));
    lemma_index_without_matches(issuer_keys(state.achievements), state.issuers_achievements, id);
    lemma_index_without_matches(owner_keys(state.achievements), state.owners_achievements, id);
}

/// Replacing a stored credential by one with the same id, issuer and owner
/// keeps the invariant.
pub proof fn lemma_with_record_wf(state: LedgerState, id: u128, credential: Credential)
    requires
        state.wf(),
        state.achievements.contains_key(id),
        credential.achievement_id == id,
        credential.issuer == state.achievements[id].issuer,
        credential.owner == state.achievements[id].owner,
    ensures
        state.with_record(id, credential).wf(),
{
    let after = state.achievements.insert(id, credential);
    assert(issuer_keys(after) =~= issuer_keys(state.achievements));
    assert(owner_keys(after) =~= owner_keys(state.achievements));
}

/// Moving a credential to the bucket of a new owner keeps the invariant.
pub proof fn lemma_update_owner_wf(state: LedgerState, id: u128, new_owner: Seq<char>)
    requires
        state.wf(),
        state.achievements.contains_key(id),
    ensures
        state.after_update_owner(id, new_owner).wf(),
{
    let record = state.achievements[id];
    let owner = state.id_of_account[new_owner];
    let after = state.achievements.insert(id, Credential { owner: owner, ..record });
    let keys = owner_keys(state.achievements);
    assert(issuer_keys(after) =~= issuer_keys(state.achievements));
    assert(owner_keys(after) =~= keys.remove(id).insert(id, owner));
    lemma_index_without_matches(keys, state.owners_achievements, id);
    lemma_index_with_matches(
        keys.remove(id),
        index_without(state.owners_achievements, record.owner, id),
        owner,
        id,
    );
}

/// What the children of a split add to a state in which their ids are
/// unused and differ from one another: exactly those credentials, each
/// holding the parent's balance, with everything else as it was and the
/// invariant kept.
pub proof fn lemma_with_children(
    state: LedgerState,
    parent: Credential,
    new_owners: Seq<u128>,
    new_ids: Seq<u128>,
    count: nat,
)
    requires
        state.wf(),
        count <= new_owners.len(),
        count <= new_ids.len(),
        new_ids.take(count as int).no_duplicates(),
        forall|j: int| 0 <= j < count ==> !state.achievements.contains_key(new_ids[j]),
    ensures
        ({
            let after = state.with_children(parent, new_owners, new_ids, count);
            &&& after.wf()
            &&& after.account_of_id == state.account_of_id
            &&& after.id_of_account == state.id_of_account
            &&& forall|id: u128|
                after.achievements.contains_key(id) <==> state.achievements.contains_key(id) || (
                exists|j: int| 0 <= j < count && new_ids[j] == id)
            &&& forall|id: u128| #[trigger]
                state.achievements.contains_key(id) ==> after.achievements[id]
                    == state.achievements[id]
            &&& forall|j: int|
                0 <= j < count ==> after.achievements[#[trigger] new_ids[j]] == parent.child(
                    new_ids[j],
                    new_owners[j],
                )
            &&& total_escrow(after.achievements) == total_escrow(state.achievements) + count
                * parent.balance
        }),
    decreases count,
{
    if count > 0 {
        let fewer = (count - 1) as nat;
        let last = count - 1;
        assert(new_ids.take(fewer as int) =~= new_ids.take(count as int).drop_last());
        lemma_with_children(state, parent, new_owners, new_ids, fewer);
        let before = state.with_children(parent, new_owners, new_ids, fewer);
        let child = parent.child(new_ids[last], new_owners[last]);
        let after = before.with_credential(child);
        assert(!before.achievements.contains_key(new_ids[last])) by {
            if before.achievements.contains_key(new_ids[last]) {
                let j = choose|j: int| 0 <= j < fewer && new_ids[j] == new_ids[last];
                assert(new_ids.take(count as int)[j] == new_ids.take(count as int)[last]);
            }
        }
        lemma_with_credential_wf(before, child);
        lemma_total_escrow_insert(before.achievements, new_ids[last], child);
        assert(total_escrow(after.achievements) == total_escrow(state.achievements) + count
            * parent.balance) by (nonlinear_arith)
            requires
                total_escrow(after.achievements) == total_escrow(before.achievements)
                    + parent.balance,
                total_escrow(before.achievements) == total_escrow(state.achievements) + (count
                    - 1) * parent.balance,
        ;
    }
}

/// Every call leaves the invariant in place.
pub proof fn lemma_apply_wf(state: LedgerState, call: Call)
    requires
        state.wf(),
    ensures
        state.apply(call).wf(),
{
    if state.accepts(call) {
        match call {
            Call::SetId { .. } => {},
            Call::RemoveId { .. } => {},
            Call::Mint { signer, attached, data } => {
                lemma_with_credential_wf(
                    state,
                    data.stored(units_of(data.balance)->0),
                );
            },
            Call::Burn { id, .. } => {
                lemma_without_credential_wf(state, id);
            },
            Call::UpdateOwner { id, new_owner, .. } => {
                lemma_update_owner_wf(state, id, new_owner);
            },
            Call::Accept { id, .. } => {
                lemma_with_record_wf(
                    state,
                    id,
                    Credential { is_accepted: true, ..state.achievements[id] },
                );
            },
            Call::Verify { id, .. } => {
                lemma_with_record_wf(
                    state,
                    id,
                    Credential { is_verified: true, balance: 0, ..state.achievements[id] },
                );
            },
            Call::Split { id, new_owners, new_ids, .. } => {
                lemma_split_children(state, id, new_owners, new_ids);
            },
            Call::Replenish { id, attached } => {
                lemma_with_record_wf(
                    state,
                    id,
                    Credential {
                        balance: (state.achievements[id].balance + attached) as u128,
                        ..state.achievements[id]
                    },
                );
            },
        }
    }
}

/// An accepted split adds one child per new owner and changes nothing else.
proof fn lemma_split_children(
    state: LedgerState,
    id: u128,
    new_owners: Seq<u128>,
    new_ids: Seq<u128>,
)
    requires
        state.wf(),
        !state.any_in_use(new_ids),
        new_ids.len() >= new_owners.len(),
        new_ids.take(new_owners.len() as int).no_duplicates(),
    ensures
        ({
            let after = state.after_split(id, new_owners, new_ids);
            let parent = state.achievements[id];
            &&& after.wf()
            &&& forall|other: u128| #[trigger]
                state.achievements.contains_key(other) ==> after.achievements.contains_key(other)
                    && after.achievements[other] == state.achievements[other]
            &&& total_escrow(after.achievements) == total_escrow(state.achievements)
                + new_owners.len() * parent.balance
        }),
{
    lemma_with_children(state, state.achievements[id], new_owners, new_ids, new_owners.len());
}

/// The empty ledger meets the invariant.
pub proof fn lemma_empty_wf()
    ensures
        LedgerState::empty().wf(),
{
    let empty = LedgerState::empty();
    assert(issuer_keys(empty.achievements) =~= Map::<u128, u128>::empty());
    assert(owner_keys(empty.achievements) =~= Map::<u128, u128>::empty());
}

/// Index consistency, as an invariant: after any sequence of calls the
/// ledger's invariant holds.
pub proof fn lemma_run_wf(calls: Seq<Call>)
    ensures
        run(calls).wf(),
    decreases calls.len(),
{
    if calls.len() > 0 {
        lemma_run_wf(calls.drop_last());
        lemma_apply_wf(run(calls.drop_last()), calls.last());
    } else {
        lemma_empty_wf();
    }
}

/// Uniqueness: in a state that meets the invariant no two stored
/// credentials carry the same id, and a mint that names the id of a stored
/// credential is rejected.
pub proof fn lemma_credential_ids_unique(state: LedgerState, first: u128, second: u128)
    requires
        state.wf(),
        state.achievements.contains_key(first),
        state.achievements.contains_key(second),
        first != second,
    ensures
        state.achievements[first].achievement_id != state.achievements[second].achievement_id,
        forall|signer: Seq<char>, attached: u128, data: IOAchievement|
            data.achievement_id == first ==> #[trigger] state.mint_outcome(
                signer,
                attached,
                data,
            ) is Err,
{
}

/// Index consistency, read off the invariant: the bucket of an identity in
/// the issuer index holds exactly the ids of the stored credentials that it
/// issued, each once, and likewise the owner index for the credentials that
/// it owns.
pub proof fn lemma_index_lists_exactly(state: LedgerState, identity: u128, id: u128)
    requires
        state.wf(),
    ensures
        bucket(state.issuers_achievements, identity).contains(id) <==> {
            &&& state.achievements.contains_key(id)
            &&& state.achievements[id].issuer == identity
        },
        bucket(state.owners_achievements, identity).contains(id) <==> {
            &&& state.achievements.contains_key(id)
            &&& state.achievements[id].owner == identity
        },
        bucket(state.issuers_achievements, identity).no_duplicates(),
        bucket(state.owners_achievements, identity).no_duplicates(),
{
    let issued = bucket(state.issuers_achievements, identity);
    if issued.contains(id) {
        let j = choose|j: int| 0 <= j < issued.len() && issued[j] == id;
        assert(issuer_keys(state.achievements).contains_key(
            state.issuers_achievements[identity][j],
        ));
    }
    if state.achievements.contains_key(id) {
        assert(issuer_keys(state.achievements).contains_key(id));
        assert(owner_keys(state.achievements).contains_key(id));
    }
    let owned = bucket(state.owners_achievements, identity);
    if owned.contains(id) {
        let j = choose|j: int| 0 <= j < owned.len() && owned[j] == id;
        assert(owner_keys(state.achievements).contains_key(state.owners_achievements[identity][j]));
    }
}

/// Index consistency, in full: after any sequence of calls, and for
/// every identity, the issuer index and the owner index list exactly the
/// stored credentials with that issuer or owner.
pub proof fn lemma_run_lists_exactly(calls: Seq<Call>, identity: u128, id: u128)
    ensures
        bucket(run(calls).issuers_achievements, identity).contains(id) <==> {
            &&& run(calls).achievements.contains_key(id)
            &&& run(calls).achievements[id].issuer == identity
        },
        bucket(run(calls).owners_achievements, identity).contains(id) <==> {
            &&& run(calls).achievements.contains_key(id)
            &&& run(calls).achievements[id].owner == identity
        },
{
    lemma_run_wf(calls);
    lemma_index_lists_exactly(run(calls), identity, id);
}

/// Refund correctness: an accepted mint pays back the attached deposit less
/// the declared balance in indivisible units, and puts exactly that
/// balance into the escrow of the new credential.
pub proof fn lemma_mint_refund(
    state: LedgerState,
    signer: Seq<char>,
    attached: u128,
    data: IOAchievement,
)
    requires
        state.mint_outcome(signer, attached, data) is Ok,
    ensures
        data.balance * NEAR <= attached,
        state.mint_outcome(signer, attached, data)->Ok_0 == attached - data.balance * NEAR,
        state.after_mint(data).achievements.contains_key(data.achievement_id),
        state.after_mint(data).achievements[data.achievement_id].balance == data.balance * NEAR,
{
}

/// Escrow conservation, call by call: the total escrow after a call, plus
/// what the call paid out, is the total before plus what came in. A burn
/// is the one call that lowers the total without paying: the escrow of the
/// burnt credential stays with the ledger. Splits of a credential that
/// holds escrow are left out.
pub proof fn lemma_apply_escrow(state: LedgerState, call: Call)
    requires
        state.wf(),
        !state.splits_escrow(call),
    ensures
        call is Burn && state.accepts(call) ==> total_escrow(state.apply(call).achievements)
            + state.achievements[call->Burn_id].balance == total_escrow(state.achievements),
        !(call is Burn) ==> total_escrow(state.apply(call).achievements) + state.paid(call)
            == total_escrow(state.achievements) + state.received(call),
        total_escrow(state.apply(call).achievements) + state.paid(call) <= total_escrow(
            state.achievements,
        ) + state.received(call),
{
    if state.accepts(call) {
        match call {
            Call::SetId { .. } => {},
            Call::RemoveId { .. } => {},
            Call::Mint { signer, attached, data } => {
                lemma_total_escrow_insert(
                    state.achievements,
                    data.achievement_id,
                    data.stored(units_of(data.balance)->0),
                );
            },
            Call::Burn { id, .. } => {
                lemma_total_escrow_remove(state.achievements, id);
            },
            Call::UpdateOwner { id, new_owner, .. } => {
                lemma_total_escrow_update(
                    state.achievements,
                    id,
                    Credential {
                        owner: state.id_of_account[new_owner],
                        ..state.achievements[id]
                    },
                );
            },
            Call::Accept { id, .. } => {
                lemma_total_escrow_update(
                    state.achievements,
                    id,
                    Credential { is_accepted: true, ..state.achievements[id] },
                );
            },
            Call::Verify { id, .. } => {
                lemma_total_escrow_update(
                    state.achievements,
                    id,
                    Credential { is_verified: true, balance: 0, ..state.achievements[id] },
                );
            },
            Call::Split { id, new_owners, new_ids, .. } => {
                lemma_split_children(state, id, new_owners, new_ids);
                assert(new_owners.len() * state.achievements[id].balance == 0) by (nonlinear_arith)
                    requires
                        state.achievements[id].balance == 0,
                ;
            },
            Call::Replenish { id, attached } => {
                lemma_total_escrow_update(
                    state.achievements,
                    id,
                    Credential {
                        balance: (state.achievements[id].balance + attached) as u128,
                        ..state.achievements[id]
                    },
                );
            },
        }
    }
}

/// Escrow conservation, as an invariant: after any sequence of calls in
/// which no credential that holds escrow is split, the total escrow does
/// not exceed the funds that the calls left with the ledger.
pub proof fn lemma_run_escrow(calls: Seq<Call>)
    requires
        forall|i: int|
            0 <= i < calls.len() ==> !run(calls.take(i)).splits_escrow(#[trigger] calls[i]),
    ensures
        total_escrow(run(calls).achievements) <= funds(calls),
    decreases calls.len(),
{
    if calls.len() > 0 {
        let earlier = calls.drop_last();
        assert forall|i: int| 0 <= i < earlier.len() implies !run(earlier.take(i)).splits_escrow(
            #[trigger] earlier[i],
        ) by {
            assert(earlier.take(i) =~= calls.take(i));
            assert(earlier[i] == calls[i]);
        }
        lemma_run_escrow(earlier);
        lemma_run_wf(earlier);
        assert(calls.take(calls.len() - 1) =~= earlier);
        assert(!run(earlier).splits_escrow(calls[calls.len() - 1]));
        lemma_apply_escrow(run(earlier), calls.last());
    } else {
        assert(total_escrow(LedgerState::empty().achievements) == 0);
    }
}

/// Verification releases exactly the escrow: an accepted verification pays
/// the credential's whole balance and leaves it with none.
pub proof fn lemma_verify_releases_escrow(state: LedgerState, signer: Seq<char>, id: u128)
    requires
        state.verify_outcome(signer, id) is Ok,
    ensures
        state.verify_outcome(signer, id)->Ok_0.1 == state.achievements[id].balance,
        state.verify_outcome(signer, id)->Ok_0.0
            == state.account_of_id[state.achievements[id].owner],
        state.after_verify(id).achievements[id].balance == 0,
        state.after_verify(id).achievements[id].is_verified,
{
}

/// Replenishment adds exactly what was attached, and is rejected, not
/// wrapped, where the sum is not representable.
pub proof fn lemma_replenish_adds(state: LedgerState, id: u128, attached: u128)
    requires
        state.achievements.contains_key(id),
    ensures
        state.replenish_outcome(id, attached) is Ok <==> state.achievements[id].balance + attached
            <= u128::MAX,
        state.replenish_outcome(id, attached) is Ok ==> state.after_replenish(
            id,
            attached,
        ).achievements[id].balance == state.achievements[id].balance + attached,
{
}

/// State monotonicity: no call turns a verified credential back into an
/// unverified one.
pub proof fn lemma_verified_stays(state: LedgerState, call: Call, id: u128)
    requires
        state.wf(),
        state.achievements.contains_key(id),
        state.achievements[id].is_verified,
        state.apply(call).achievements.contains_key(id),
    ensures
        state.apply(call).achievements[id].is_verified,
{
    if state.accepts(call) {
        match call {
            Call::Split { id: parent, new_owners, new_ids, .. } => {
                lemma_split_children(state, parent, new_owners, new_ids);
            },
            _ => {},
        }
    }
}

/// A second verification fails: once a credential has been verified, every
/// further attempt to verify it is rejected, whoever makes it, so that
/// nothing is paid twice.
pub proof fn lemma_verify_twice_fails(
    state: LedgerState,
    first_signer: Seq<char>,
    second_signer: Seq<char>,
    id: u128,
)
    requires
        state.verify_outcome(first_signer, id) is Ok,
    ensures
        state.after_verify(id).verify_outcome(second_signer, id) is Err,
        state.after_verify(id).verify_outcome(first_signer, id) == Err::<
            (Seq<char>, u128),
            LedgerError,
        >(LedgerError::AlreadyVerified),
        state.after_verify(id).apply(Call::Verify { signer: second_signer, id: id })
            == state.after_verify(id),
        state.after_verify(id).paid(Call::Verify { signer: second_signer, id: id }) == 0,
{
}

} // verus!
