//! The sum of the escrow that the stored credentials hold.

use super::record::Credential;
use vstd::prelude::*;

verus! {

/// The escrow of all `credentials` together, in indivisible units.
pub open spec fn total_escrow(credentials: Map<u128, Credential>) -> nat
    decreases credentials.dom().len(),
    when credentials.dom().finite()
{
    if credentials.dom().len() == 0 {
        0
    } else {
        let id = credentials.dom().choose();
        credentials[id].balance as nat + total_escrow(credentials.remove(id))
    }
}

/// The total is the escrow of any one credential plus the total of the
/// others.
pub proof fn lemma_total_escrow_remove(credentials: Map<u128, Credential>, id: u128)
    requires
        credentials.dom().finite(),
        credentials.contains_key(id),
    ensures
        total_escrow(credentials) == credentials[id].balance + total_escrow(
            credentials.remove(id),
        ),
    decreases credentials.dom().len(),
{
    let chosen = credentials.dom().choose();
    if chosen != id {
        let rest = credentials.remove(chosen);
        lemma_total_escrow_remove(rest, id);
        lemma_total_escrow_remove(credentials.remove(id), chosen);
        assert(rest.remove(id) =~= credentials.remove(id).remove(chosen));
    }
}

/// A new credential adds its escrow to the total.
pub proof fn lemma_total_escrow_insert(
    credentials: Map<u128, Credential>,
    id: u128,
    credential: Credential,
)
    requires
        credentials.dom().finite(),
        !credentials.contains_key(id),
    ensures
        total_escrow(credentials.insert(id, credential)) == total_escrow(credentials)
            + credential.balance,
{
    let after = credentials.insert(id, credential);
    lemma_total_escrow_remove(after, id);
    assert(after.remove(id) =~= credentials);
}

/// Replacing a credential changes the total by the difference of the two
/// balances.
pub proof fn lemma_total_escrow_update(
    credentials: Map<u128, Credential>,
    id: u128,
    credential: Credential,
)
    requires
        credentials.dom().finite(),
        credentials.contains_key(id),
    ensures
        total_escrow(credentials.insert(id, credential)) + credentials[id].balance == total_escrow(
            credentials,
        ) + credential.balance,
{
    let after = credentials.insert(id, credential);
    lemma_total_escrow_remove(after, id);
    lemma_total_escrow_remove(credentials, id);
    assert(after.remove(id) =~= credentials.remove(id));
}

} // verus!
