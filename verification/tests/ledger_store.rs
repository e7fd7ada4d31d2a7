//! Unit exercises of the credential store and the challenge ledger.

use otango_auth::challenge::{Challenge, ChallengeLedger};
use otango_auth::credential::{CredentialStore, User};
use otango_auth::error::Error;
use otango_auth::privilege::Privilege;

fn user(name: &str) -> User {
    User {
        name: name.to_string(),
        contact: None,
        image: None,
        privilege: Privilege::Basic,
        pubkey: "pem".to_string(),
    }
}

fn challenge(name: &str, nonce: &str, expires: u64) -> Challenge {
    Challenge {
        user: name.to_string(),
        challenge: nonce.to_string(),
        expires,
    }
}

#[test]
fn conditional_insert_reports_affected_rows() {
    let mut store = CredentialStore::new();
    assert_eq!(store.insert_if_absent(user("alice")), 1);
    assert_eq!(store.insert_if_absent(user("alice")), 0);
    assert_eq!(store.insert_if_absent(user("bob")), 1);
}

#[test]
fn insert_error_carries_conflict() {
    let mut store = CredentialStore::new();
    assert_eq!(user("alice").insert(&mut store), Ok(()));
    assert_eq!(user("alice").insert(&mut store), Err(Error::Exists));
}

#[test]
fn lookups_return_stored_credentials() {
    let mut store = CredentialStore::new();
    let mut admin = user("root");
    admin.privilege = Privilege::Admin;
    assert_eq!(admin.insert(&mut store), Ok(()));

    assert_eq!(User::pubkey(&store, "root"), Some("pem".to_string()));
    assert_eq!(User::pubkey(&store, "ghost"), None);
    let creds = User::credentials(&store, "root");
    assert_eq!(creds, Some(("pem".to_string(), Privilege::Admin)));
    assert_eq!(User::credentials(&store, "ghost"), None);
}

#[test]
fn consume_is_single_use() {
    let mut ledger = ChallengeLedger::new();
    ledger.insert(challenge("alice", "n1", 1_000));
    assert!(Challenge::verify(&mut ledger, "n1", "alice", 900));
    assert!(!Challenge::verify(&mut ledger, "n1", "alice", 900));
}

#[test]
fn consume_requires_matching_user() {
    let mut ledger = ChallengeLedger::new();
    ledger.insert(challenge("alice", "n1", 1_000));
    assert!(!Challenge::verify(&mut ledger, "n1", "bob", 900));
    // The challenge itself stays for its owner.
    assert!(Challenge::verify(&mut ledger, "n1", "alice", 900));
}

#[test]
fn expired_rows_are_swept_lazily() {
    let mut ledger = ChallengeLedger::new();
    ledger.insert(challenge("alice", "n1", 1_000));
    ledger.insert(challenge("alice", "n2", 2_000));
    ledger.insert(challenge("bob", "n3", 1_500));

    // At 1_600 the sweep removes n1 (1_000) and n3 (1_500).
    assert_eq!(ledger.delete_expired(1_600), 2);
    assert_eq!(ledger.delete_expired(1_600), 0);
    assert!(!Challenge::verify(&mut ledger, "n1", "alice", 1_600));
    assert!(Challenge::verify(&mut ledger, "n2", "alice", 1_600));
}

#[test]
fn expired_challenge_fails_without_explicit_sweep() {
    let mut ledger = ChallengeLedger::new();
    ledger.insert(challenge("alice", "n1", 1_000));
    assert!(!Challenge::verify(&mut ledger, "n1", "alice", 1_001));
}

#[test]
fn duplicate_rows_all_deleted_and_rejected() {
    // Two identical outstanding rows: the delete removes both and
    // reports two, so consumption fails rather than honouring either.
    let mut ledger = ChallengeLedger::new();
    ledger.insert(challenge("alice", "n1", 1_000));
    ledger.insert(challenge("alice", "n1", 1_000));
    assert_eq!(ledger.delete_matching("alice", "n1"), 2);
    assert_eq!(ledger.delete_matching("alice", "n1"), 0);
}

#[test]
fn named_returns_full_identity() {
    let mut store = CredentialStore::new();
    let mut stored = user("alice");
    stored.contact = Some("a@b".to_string());
    stored.image = Some(vec![1, 2, 3]);
    assert_eq!(stored.insert(&mut store), Ok(()));

    let found = User::named(&store, "alice").unwrap();
    assert_eq!(found.name, "alice");
    assert_eq!(found.contact, Some("a@b".to_string()));
    assert_eq!(found.image, Some(vec![1, 2, 3]));
    assert_eq!(found.privilege, Privilege::Basic);
    assert_eq!(found.pubkey, "pem");
    assert!(User::named(&store, "bob").is_none());
}
