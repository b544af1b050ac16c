//! The records the registry stores and hands out.

use crate::units::XCC_GAS;
use vstd::prelude::*;

verus! {

/// A claimed identity: its id and the two proof hashes.
#[derive(Clone, Copy, Debug)]
pub struct Soul {
    pub soul_id: u128,
    pub git_hash: [u8; 32],
    pub email_hash: [u8; 32],
}

/// The mathematical content of a claimed identity.
#[verifier::ext_equal]
pub struct SoulView {
    pub soul_id: u128,
    pub git_hash: Seq<u8>,
    pub email_hash: Seq<u8>,
}

impl View for Soul {
    type V = SoulView;

    open spec fn view(&self) -> SoulView {
        SoulView { soul_id: self.soul_id, git_hash: self.git_hash@, email_hash: self.email_hash@ }
    }
}

impl Default for Soul {
    fn default() -> (r: Self)
        ensures
            r.soul_id == 0,
            r.git_hash@ == Seq::new(32, |i: int| 0u8),
            r.email_hash@ == Seq::new(32, |i: int| 0u8),
    {
        let r = Soul { soul_id: 0, git_hash: [0u8;32], email_hash: [0u8;32] };
        assert(r.git_hash@ =~= Seq::new(32, |i: int| 0u8));
        assert(r.email_hash@ =~= Seq::new(32, |i: int| 0u8));
        r
    }
}

/// Which change of a binding the ledger is told of.
#[derive(Clone, Copy, Debug, PartialEq, Eq, Structural)]
pub enum SyncMethod {
    /// The binding was made: the ledger is to record it.
    SetIdOfAccount,
    /// The binding was dropped: the ledger is to forget it.
    RemoveIdOfAccount,
}

/// A notification for the ledger, which the host is asked to send. It is
/// sent once; whether it arrives does not change the registry.
#[derive(Debug)]
pub struct SyncCall {
    /// The account of the ledger.
    pub receiver: String,
    pub method: SyncMethod,
    /// The account whose binding changed.
    pub user: String,
    /// The identity it is or was bound to.
    pub soul_id: u128,
    /// Gas to attach to the call, and again to the callback.
    pub gas: u64,
}

/// The account of the ledger that is told of every change.
pub open spec fn ledger_account() -> Seq<char> {
    "achievements.soul_dev.testnet"@
}

impl SyncCall {
    /// Whether this is the notification of `method` for the binding of
    /// `user` to `soul_id`.
    pub open spec fn tells(self, method: SyncMethod, user: Seq<char>, soul_id: u128) -> bool {
        &&& self.receiver@ == ledger_account()
        &&& self.method == method
        &&& self.user@ == user
        &&& self.soul_id == soul_id
        &&& self.gas == XCC_GAS
    }
}

/// Why a notification did not reach the ledger.
#[derive(Clone, Copy, Debug, PartialEq, Eq, Structural)]
pub enum SyncFailure {
    /// The call to the ledger failed.
    Failed,
    /// The result of the call is not there yet.
    NotReady,
}

/// Why the registry rejected a call. A rejected call changes nothing.
#[derive(Clone, Copy, Debug, PartialEq, Eq, Structural)]
pub enum RegistryError {
    /// The account has claimed an identity already.
    SoulExists,
    /// The account has an identity that it has not claimed yet.
    AlreadyMinted,
    /// Only the registry's own account may mint.
    NotOperator,
    /// The identity id is bound to an account already.
    IdTaken,
    /// The caller has no identity waiting to be claimed.
    NotMinted,
    /// A proof hash is not 32 characters long.
    BadHashLength,
    /// The caller has no identity.
    NoSoul,
    /// A stored proof hash is not text.
    HashNotText,
}

} // verus!
