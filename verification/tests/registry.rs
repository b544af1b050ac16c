use soulbound::achievement::record::{IOAchievement, LedgerError};
use soulbound::achievement::token::AchievementToken;
use soulbound::sbt::record::{RegistryError, Soul, SyncCall, SyncFailure, SyncMethod};
use soulbound::sbt::registry::SBT;
use soulbound::units::XCC_GAS;

const OPERATOR: &str = "sbt.soul_dev.testnet";
const GIT: &str = "0123456789abcdef0123456789abcdef";
const EMAIL: &str = "fedcba9876543210fedcba9876543210";

fn account(name: &str) -> String {
    name.to_string()
}

fn text(value: &str) -> String {
    value.to_string()
}

/// A registry in which alice.near has minted identity 1 and not claimed it.
fn registry_with_minted() -> SBT {
    let mut registry = SBT::init();
    registry.mint(&account(OPERATOR), &account(OPERATOR), 1, account("alice.near")).unwrap();
    registry
}

/// A registry in which alice.near has claimed identity 1.
fn registry_with_claimed() -> SBT {
    let mut registry = registry_with_minted();
    registry.claim(account("alice.near"), &text(GIT), &text(EMAIL)).unwrap();
    registry
}

/// Hands a notification of the registry to the ledger, as the host does.
fn deliver(ledger: &mut AchievementToken, call: &SyncCall) -> Result<(), LedgerError> {
    let sender = account(OPERATOR);
    match call.method {
        SyncMethod::SetIdOfAccount => {
            ledger.set_id_of_account(&sender, call.user.clone(), call.soul_id)
        }
        SyncMethod::RemoveIdOfAccount => {
            ledger.remove_id_of_account(&sender, call.user.clone(), call.soul_id)
        }
    }
}

/// Whether the two binding maps are inverse to one another.
fn bindings_are_inverse(registry: &SBT) -> bool {
    let forth = registry.soul_id_of_account.entries.iter().all(|(account, id)| {
        registry.account_of_soul_id.get(id) == Some(account)
    });
    let back = registry
        .account_of_soul_id
        .iter()
        .all(|(id, account)| registry.soul_id_of_account.get(account) == Some(*id));
    forth && back && registry.soul_id_of_account.entries.len() == registry.account_of_soul_id.len()
}

#[test]
fn default_soul_is_zero() {
    let soul = Soul::default();
    assert_eq!(soul.soul_id, 0);
    assert_eq!(soul.git_hash, [0u8; 32]);
    assert_eq!(soul.email_hash, [0u8; 32]);
}

#[test]
fn empty_registry_knows_nobody() {
    let registry = SBT::init();
    assert!(!registry.has_soul(&account("alice.near")));
    assert!(!registry.soul_is_minted_not_claimed(&account("alice.near")));
    let alice = account("alice.near");
    assert_eq!(registry.get_hashed_data(&alice).unwrap_err(), RegistryError::NoSoul);
}

#[test]
fn mint_leaves_the_identity_to_be_claimed() {
    let registry = registry_with_minted();
    assert!(registry.soul_is_minted_not_claimed(&account("alice.near")));
    assert!(!registry.has_soul(&account("alice.near")));
    assert_eq!(registry.soul_id_of_account.get(&account("alice.near")), Some(1));
    assert_eq!(registry.account_of_soul_id.get(&1), Some(&account("alice.near")));
    assert!(bindings_are_inverse(&registry));
}

#[test]
fn mint_is_for_the_operator() {
    let mut registry = SBT::init();
    let r = registry.mint(&account("alice.near"), &account(OPERATOR), 1, account("alice.near"));
    assert_eq!(r, Err(RegistryError::NotOperator));
    assert!(!registry.soul_is_minted_not_claimed(&account("alice.near")));
    assert!(registry.soul_id_of_account.entries.is_empty());
}

#[test]
fn mint_for_a_bound_account_is_rejected() {
    let operator = account(OPERATOR);
    let mut registry = registry_with_minted();
    let r = registry.mint(&operator, &operator, 2, account("alice.near"));
    assert_eq!(r, Err(RegistryError::AlreadyMinted));
    let mut registry = registry_with_claimed();
    let r = registry.mint(&operator, &operator, 2, account("alice.near"));
    assert_eq!(r, Err(RegistryError::SoulExists));
    assert_eq!(registry.soul_id_of_account.get(&account("alice.near")), Some(1));
}

#[test]
fn mint_of_a_bound_id_is_rejected() {
    let operator = account(OPERATOR);
    let mut registry = registry_with_minted();
    let r = registry.mint(&operator, &operator, 1, account("bob.near"));
    assert_eq!(r, Err(RegistryError::IdTaken));
    assert!(!registry.soul_is_minted_not_claimed(&account("bob.near")));
    let mut registry = registry_with_claimed();
    let r = registry.mint(&operator, &operator, 1, account("bob.near"));
    assert_eq!(r, Err(RegistryError::IdTaken));
    assert_eq!(registry.mint(&operator, &operator, 2, account("bob.near")), Ok(()));
    assert!(bindings_are_inverse(&registry));
}

#[test]
fn claim_stores_the_hashes_and_notifies_the_ledger() {
    let mut registry = registry_with_minted();
    let call = registry.claim(account("alice.near"), &text(GIT), &text(EMAIL)).unwrap();
    assert_eq!(call.receiver, "achievements.soul_dev.testnet");
    assert_eq!(call.method, SyncMethod::SetIdOfAccount);
    assert_eq!(call.user, "alice.near");
    assert_eq!(call.soul_id, 1);
    assert_eq!(call.gas, XCC_GAS);
    assert_eq!(call.gas, 20_000_000_000_000);
    assert!(registry.has_soul(&account("alice.near")));
    assert!(!registry.soul_is_minted_not_claimed(&account("alice.near")));
    let soul = registry.souls.get(&1).unwrap();
    assert_eq!(soul.soul_id, 1);
    assert_eq!(&soul.git_hash[..], GIT.as_bytes());
    assert_eq!(&soul.email_hash[..], EMAIL.as_bytes());
    assert_eq!(registry.get_hashed_data(&account("alice.near")), Ok([text(GIT), text(EMAIL)]));
    assert!(bindings_are_inverse(&registry));
}

#[test]
fn claim_with_a_short_hash_fails_and_changes_nothing() {
    let mut registry = registry_with_minted();
    let short = &GIT[..31];
    let r = registry.claim(account("alice.near"), &text(short), &text(EMAIL));
    assert_eq!(r.unwrap_err(), RegistryError::BadHashLength);
    assert!(registry.soul_is_minted_not_claimed(&account("alice.near")));
    assert!(!registry.has_soul(&account("alice.near")));
    assert!(registry.souls.is_empty());
    let r = registry.claim(account("alice.near"), &text(GIT), &text(short));
    assert_eq!(r.unwrap_err(), RegistryError::BadHashLength);
    let long = format!("{}0", EMAIL);
    let r = registry.claim(account("alice.near"), &text(GIT), &long);
    assert_eq!(r.unwrap_err(), RegistryError::BadHashLength);
    assert!(registry.soul_is_minted_not_claimed(&account("alice.near")));
    assert!(registry.souls.is_empty());
}

#[test]
fn claim_without_a_mint_is_rejected() {
    let mut registry = SBT::init();
    let r = registry.claim(account("alice.near"), &text(GIT), &text(EMAIL));
    assert_eq!(r.unwrap_err(), RegistryError::NotMinted);
    assert!(!registry.has_soul(&account("alice.near")));
}

#[test]
fn claim_cannot_be_repeated() {
    let mut registry = registry_with_claimed();
    let r = registry.claim(account("alice.near"), &text(EMAIL), &text(GIT));
    assert_eq!(r.unwrap_err(), RegistryError::NotMinted);
    assert_eq!(registry.get_hashed_data(&account("alice.near")), Ok([text(GIT), text(EMAIL)]));
}

#[test]
fn claim_counts_characters_and_keeps_bytes() {
    let mut registry = registry_with_minted();
    // 32 characters, the last of which takes two bytes.
    let git = format!("{}\u{e9}", &GIT[..31]);
    let call = registry.claim(account("alice.near"), &git, &text(EMAIL)).unwrap();
    assert_eq!(call.soul_id, 1);
    let soul = registry.souls.get(&1).unwrap();
    assert_eq!(&soul.git_hash[..31], GIT[..31].as_bytes());
    assert_eq!(soul.git_hash[31], 0xc3);
    assert_eq!(
        registry.get_hashed_data(&account("alice.near")).unwrap_err(),
        RegistryError::HashNotText
    );
}

#[test]
fn hashes_with_whole_characters_read_back_as_text() {
    let mut registry = registry_with_minted();
    // 32 characters, the first of which takes two bytes: 32 bytes hold 31.
    let git = format!("\u{e9}{}", &GIT[..31]);
    registry.claim(account("alice.near"), &git, &text(EMAIL)).unwrap();
    let texts = registry.get_hashed_data(&account("alice.near")).unwrap();
    assert_eq!(texts[0], format!("\u{e9}{}", &GIT[..30]));
    assert_eq!(texts[1], EMAIL);
}

#[test]
fn hashes_are_for_claimed_identities() {
    let registry = registry_with_minted();
    let alice = account("alice.near");
    assert_eq!(registry.get_hashed_data(&alice).unwrap_err(), RegistryError::NoSoul);
    let registry = registry_with_claimed();
    assert_eq!(registry.get_hashed_data(&account("bob.near")).unwrap_err(), RegistryError::NoSoul);
}

#[test]
fn burn_purges_a_claimed_identity() {
    let mut registry = registry_with_claimed();
    let call = registry.burn(account("alice.near")).unwrap();
    assert_eq!(call.receiver, "achievements.soul_dev.testnet");
    assert_eq!(call.method, SyncMethod::RemoveIdOfAccount);
    assert_eq!(call.user, "alice.near");
    assert_eq!(call.soul_id, 1);
    assert_eq!(call.gas, XCC_GAS);
    assert!(!registry.has_soul(&account("alice.near")));
    assert!(!registry.soul_is_minted_not_claimed(&account("alice.near")));
    assert!(registry.souls.is_empty());
    assert!(registry.soul_id_of_account.entries.is_empty());
    assert!(registry.account_of_soul_id.is_empty());
    assert!(registry.minted_not_claimed.is_empty());
}

#[test]
fn burn_purges_an_unclaimed_identity() {
    let mut registry = registry_with_minted();
    let call = registry.burn(account("alice.near")).unwrap();
    assert_eq!(call.method, SyncMethod::RemoveIdOfAccount);
    assert_eq!(call.soul_id, 1);
    assert!(!registry.soul_is_minted_not_claimed(&account("alice.near")));
    assert!(registry.minted_not_claimed.is_empty());
    assert!(registry.account_of_soul_id.is_empty());
}

#[test]
fn burn_without_an_identity_is_rejected() {
    let mut registry = registry_with_claimed();
    assert_eq!(registry.burn(account("bob.near")).unwrap_err(), RegistryError::NoSoul);
    assert!(registry.has_soul(&account("alice.near")));
}

#[test]
fn burnt_id_and_account_can_be_minted_again() {
    let operator = account(OPERATOR);
    let mut registry = registry_with_claimed();
    registry.burn(account("alice.near")).unwrap();
    assert_eq!(registry.mint(&operator, &operator, 1, account("bob.near")), Ok(()));
    assert_eq!(registry.mint(&operator, &operator, 2, account("alice.near")), Ok(()));
    assert!(registry.soul_is_minted_not_claimed(&account("alice.near")));
    assert!(registry.soul_is_minted_not_claimed(&account("bob.near")));
    assert!(bindings_are_inverse(&registry));
}

#[test]
fn notifications_name_the_ledger_and_the_binding() {
    let registry = SBT::init();
    let call = registry.set_external_id(account("alice.near"), 5);
    assert_eq!(call.receiver, "achievements.soul_dev.testnet");
    assert_eq!(call.method, SyncMethod::SetIdOfAccount);
    assert_eq!(call.user, "alice.near");
    assert_eq!(call.soul_id, 5);
    assert_eq!(call.gas, XCC_GAS);
    let call = registry.remove_external_id(account("bob.near"), 6);
    assert_eq!(call.receiver, "achievements.soul_dev.testnet");
    assert_eq!(call.method, SyncMethod::RemoveIdOfAccount);
    assert_eq!(call.user, "bob.near");
    assert_eq!(call.soul_id, 6);
    assert_eq!(call.gas, XCC_GAS);
}

#[test]
fn callbacks_report_the_outcome_and_change_nothing() {
    let mut registry = registry_with_claimed();
    assert!(registry.set_external_id_callback(Ok(())));
    assert!(!registry.set_external_id_callback(Err(SyncFailure::Failed)));
    assert!(!registry.set_external_id_callback(Err(SyncFailure::NotReady)));
    assert!(registry.remove_external_id_callback(Ok(())));
    assert!(!registry.remove_external_id_callback(Err(SyncFailure::Failed)));
    assert!(registry.has_soul(&account("alice.near")));
    assert_eq!(registry.get_hashed_data(&account("alice.near")), Ok([text(GIT), text(EMAIL)]));
}

#[test]
fn delivered_notification_fills_the_cache_of_the_ledger() {
    let mut registry = registry_with_minted();
    let mut ledger = AchievementToken::init();
    let call = registry.claim(account("alice.near"), &text(GIT), &text(EMAIL)).unwrap();
    let outcome = deliver(&mut ledger, &call);
    assert!(registry.set_external_id_callback(outcome.map_err(|_| SyncFailure::Failed)));
    assert_eq!(ledger.id_of_account.get(&account("alice.near")), Some(1));
    assert_eq!(ledger.account_of_id.get(&1), Some(&account("alice.near")));
    let call = registry.burn(account("alice.near")).unwrap();
    let outcome = deliver(&mut ledger, &call);
    assert!(registry.remove_external_id_callback(outcome.map_err(|_| SyncFailure::Failed)));
    assert_eq!(ledger.id_of_account.get(&account("alice.near")), None);
    assert_eq!(ledger.account_of_id.get(&1), None);
}

#[test]
fn lost_notification_leaves_the_claim_in_place() {
    let mut registry = registry_with_minted();
    let mut ledger = AchievementToken::init();
    let call = registry.claim(account("alice.near"), &text(GIT), &text(EMAIL)).unwrap();
    assert_eq!(call.method, SyncMethod::SetIdOfAccount);
    // The call to the ledger fails: nothing is delivered.
    assert!(!registry.set_external_id_callback(Err(SyncFailure::Failed)));
    assert!(registry.has_soul(&account("alice.near")));
    assert!(!registry.soul_is_minted_not_claimed(&account("alice.near")));
    assert_eq!(ledger.id_of_account.get(&account("alice.near")), None);
    assert!(ledger.account_of_id.is_empty());
    let data = IOAchievement {
        achievement_id: 7,
        achievement_type: 1,
        issuer: 1,
        owner: 0,
        is_accepted: false,
        verifier: 1,
        is_verified: false,
        data_address: String::new(),
        balance: 0,
    };
    let r = ledger.mint(&account("alice.near"), 0, data);
    assert_eq!(r.unwrap_err(), LedgerError::NotIssuer);
}
