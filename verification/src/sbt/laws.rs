//! What holds of the registry in every state that calls can reach.

use super::record::{RegistryError, SyncMethod};
use super::state::{run, Call, IdentityState, RegistryState};
use crate::achievement::state::LedgerState;
use crate::text::lemma_encoding_is_no_shorter;
use vstd::prelude::*;

verus! {

/// In a state that meets the invariant, an account is bound exactly when
/// its identity waits to be claimed or is claimed, and never both.
pub proof fn lemma_bound_is_minted_or_claimed(state: RegistryState, account: Seq<char>)
    requires
        state.wf(),
    ensures
        state.soul_id_of_account.contains_key(account) <==> state.has_soul(account)
            || state.soul_is_minted_not_claimed(account),
        !(state.has_soul(account) && state.soul_is_minted_not_claimed(account)),
{
    if state.soul_id_of_account.contains_key(account) {
        let id = state.soul_id_of_account[account];
        assert(state.account_of_soul_id.contains_key(id));
        assert(state.minted_not_claimed.contains_key(id));
        if !state.minted_not_claimed[id] {
            assert(state.souls.contains_key(id));
        }
    }
}

/// Every call leaves the invariant in place.
pub proof fn lemma_apply_wf(state: RegistryState, call: Call)
    requires
        state.wf(),
    ensures
        state.apply(call).wf(),
{
    if state.accepts(call) {
        match call {
            Call::Mint { account, .. } => {
                lemma_bound_is_minted_or_claimed(state, account);
            },
            Call::Claim { signer, git_hash, email_hash } => {
                lemma_encoding_is_no_shorter(git_hash);
                lemma_encoding_is_no_shorter(email_hash);
            },
            Call::Burn { .. } => {},
        }
    }
}

/// After any sequence of calls the registry's invariant holds.
pub proof fn lemma_run_wf(calls: Seq<Call>)
    ensures
        run(calls).wf(),
    decreases calls.len(),
{
    if calls.len() > 0 {
        lemma_run_wf(calls.drop_last());
        lemma_apply_wf(run(calls.drop_last()), calls.last());
    }
}

/// Uniqueness: in a state that meets the invariant no two accounts share an
/// identity id and no two identity ids share an account; a mint for an
/// account that is bound, or of an id that is bound, is rejected.
pub proof fn lemma_bindings_unique(state: RegistryState)
    requires
        state.wf(),
    ensures
        forall|first: Seq<char>, second: Seq<char>|
            #![trigger state.soul_id_of_account[first], state.soul_id_of_account[second]]
            state.soul_id_of_account.contains_key(first) && state.soul_id_of_account.contains_key(
                second,
            ) && first != second ==> state.soul_id_of_account[first]
                != state.soul_id_of_account[second],
        forall|first: u128, second: u128|
            #![trigger state.account_of_soul_id[first], state.account_of_soul_id[second]]
            state.account_of_soul_id.contains_key(first) && state.account_of_soul_id.contains_key(
                second,
            ) && first != second ==> state.account_of_soul_id[first]
                != state.account_of_soul_id[second],
        forall|signer: Seq<char>, operator: Seq<char>, new_id: u128, account: Seq<char>|
            state.soul_id_of_account.contains_key(account) || state.account_of_soul_id.contains_key(
                new_id,
            ) ==> #[trigger] state.mint_outcome(signer, operator, new_id, account) is Err,
{
    assert forall|signer: Seq<char>, operator: Seq<char>, new_id: u128, account: Seq<char>|
        state.soul_id_of_account.contains_key(account) || state.account_of_soul_id.contains_key(
            new_id,
        ) implies #[trigger] state.mint_outcome(signer, operator, new_id, account) is Err by {
        lemma_bound_is_minted_or_claimed(state, account);
    }
}

/// The life of an identity: an accepted mint leaves the account with an
/// identity to claim, an accepted claim leaves it claimed with the two
/// hashes stored, and an accepted burn leaves the account with none.
pub proof fn lemma_lifecycle(state: RegistryState, call: Call)
    requires
        state.wf(),
        state.accepts(call),
    ensures
        match call {
            Call::Mint { account, new_id, .. } => {
                &&& state.state_of(account) is Unminted
                &&& state.apply(call).state_of(account) is MintedUnclaimed
                &&& state.apply(call).soul_id_of_account[account] == new_id
            },
            Call::Claim { signer, git_hash, email_hash } => {
                &&& state.state_of(signer) is MintedUnclaimed
                &&& state.apply(call).state_of(signer) is Claimed
                &&& state.apply(call).soul_id_of_account[signer]
                    == state.soul_id_of_account[signer]
            },
            Call::Burn { signer } => {
                &&& !(state.state_of(signer) is Unminted)
                &&& state.apply(call).state_of(signer) is Unminted
            },
        },
{
    match call {
        Call::Mint { account, .. } => {
            lemma_bound_is_minted_or_claimed(state, account);
        },
        Call::Claim { signer, .. } => {
            lemma_bound_is_minted_or_claimed(state, signer);
        },
        Call::Burn { signer } => {
            lemma_bound_is_minted_or_claimed(state, signer);
        },
    }
}

/// A claim with a hash that is not 32 characters long is rejected, whatever
/// the state, and so leaves it as it is.
pub proof fn lemma_claim_checks_length(
    state: RegistryState,
    signer: Seq<char>,
    git_hash: Seq<char>,
    email_hash: Seq<char>,
)
    requires
        git_hash.len() != 32 || email_hash.len() != 32,
    ensures
        state.claim_outcome(signer, git_hash, email_hash) is Err,
        state.soul_is_minted_not_claimed(signer) ==> state.claim_outcome(
            signer,
            git_hash,
            email_hash,
        ) == Err::<u128, RegistryError>(RegistryError::BadHashLength),
        state.apply(Call::Claim { signer, git_hash, email_hash }) == state,
{
}

/// What a delivered notification achieves: once the ledger has recorded
/// what the registry told it after an accepted call, the ledger's cache
/// agrees with the registry about the account that the call was about. A
/// notification that is lost leaves the cache behind the registry, which
/// does not change on that account.
pub proof fn lemma_delivery_mirrors_binding(
    registry: RegistryState,
    ledger: LedgerState,
    call: Call,
)
    requires
        registry.wf(),
        registry.notifies(call) is Some,
    ensures
        ({
            let (method, user, id) = registry.notifies(call)->0;
            let after = registry.apply(call);
            match method {
                SyncMethod::SetIdOfAccount => {
                    &&& after.has_soul(user)
                    &&& after.soul_id_of_account[user] == id
                    &&& ledger.after_set_id(user, id).has_identity(user, id)
                    &&& ledger.after_set_id(user, id).account_of_id[id] == user
                },
                SyncMethod::RemoveIdOfAccount => {
                    &&& !after.soul_id_of_account.contains_key(user)
                    &&& !ledger.after_remove_id(user, id).id_of_account.contains_key(user)
                    &&& !ledger.after_remove_id(user, id).account_of_id.contains_key(id)
                },
            }
        }),
{
}

} // verus!
