//! End-to-end exercises of registration, challenge issuance and request
//! authentication, with real keys and signatures.

use otango_auth::auth::{register, issue_challenge, By, Certificate, Signed};
use otango_auth::challenge::ChallengeLedger;
use otango_auth::credential::{CredentialStore, User};
use otango_auth::encoding::{certificate_text_of, envelope_text_of, name_text_of};
use otango_auth::error::Error;
use otango_auth::privilege::Privilege;

use openssl::hash::MessageDigest;
use openssl::pkey::{PKey, Private};
use openssl::sign::Signer;

fn new_keypair() -> (PKey<Private>, String) {
    let rsa = openssl::rsa::Rsa::generate(2048).unwrap();
    let key = PKey::from_rsa(rsa).unwrap();
    let pem = String::from_utf8(key.public_key_to_pem().unwrap()).unwrap();
    (key, pem)
}

fn sign(key: &PKey<Private>, text: &str) -> Vec<u8> {
    let mut signer = Signer::new(MessageDigest::sha256(), key).unwrap();
    signer.sign_oneshot_to_vec(text.as_bytes()).unwrap()
}

fn signed_certificate(key: &PKey<Private>, name: &str, pem: &str, created: u64) -> Signed<Certificate> {
    let cert = Certificate::new(name.to_string(), None, pem.to_string(), created);
    let text = certificate_text_of(name, &None, pem, created);
    let signature = sign(key, &text);
    Signed { data: cert, signature }
}

fn signed_name(key: &PKey<Private>, name: &str) -> Signed<String> {
    let text = name_text_of(name);
    let signature = sign(key, &text);
    Signed { data: name.to_string(), signature }
}

fn signed_envelope(key: &PKey<Private>, user: &str, challenge: &str, data: &str) -> Signed<By> {
    let text = envelope_text_of(user, challenge, data);
    let signature = sign(key, &text);
    let envelope = By {
        user: user.to_string(),
        challenge: challenge.to_string(),
        data: data.to_string(),
    };
    Signed { data: envelope, signature }
}

#[test]
fn end_to_end_roundtrip() {
    let (key, pem) = new_keypair();
    let mut store = CredentialStore::new();
    let mut ledger = ChallengeLedger::new();
    let now: u64 = 1_000_000;

    assert_eq!(register(&mut store, signed_certificate(&key, "alice", &pem, now)), Ok(()));

    let nonce = issue_challenge(&store, &mut ledger, signed_name(&key, "alice"), now).unwrap();

    let submission = signed_envelope(&key, "alice", &nonce, "\"hello\"");
    let payload = submission.verify(&store, &mut ledger, Privilege::Basic, now);
    assert_eq!(payload, Ok("\"hello\"".to_string()));

    let replay = signed_envelope(&key, "alice", &nonce, "\"hello\"");
    let rejected = replay.verify(&store, &mut ledger, Privilege::Basic, now);
    assert_eq!(rejected, Err(Error::Challenge));
}

#[test]
fn duplicate_registration_conflicts() {
    let (key, pem) = new_keypair();
    let mut store = CredentialStore::new();
    let now: u64 = 1_000_000;

    assert_eq!(register(&mut store, signed_certificate(&key, "alice", &pem, now)), Ok(()));

    let (other_key, other_pem) = new_keypair();
    let again = signed_certificate(&other_key, "alice", &other_pem, now + 1);
    assert_eq!(register(&mut store, again), Err(Error::Exists));
}

#[test]
fn tampered_certificate_rejected() {
    let (key, pem) = new_keypair();
    let mut store = CredentialStore::new();
    let now: u64 = 1_000_000;

    let mut signed = signed_certificate(&key, "alice", &pem, now);
    signed.data.name = "mallory".to_string();
    assert_eq!(register(&mut store, signed), Err(Error::Signature));
}

#[test]
fn expired_challenge_rejected() {
    let (key, pem) = new_keypair();
    let mut store = CredentialStore::new();
    let mut ledger = ChallengeLedger::new();
    let issued_at: u64 = 1_000_000;

    assert_eq!(register(&mut store, signed_certificate(&key, "alice", &pem, issued_at)), Ok(()));
    let nonce = issue_challenge(&store, &mut ledger, signed_name(&key, "alice"), issued_at).unwrap();

    let late = issued_at + 301;
    let submission = signed_envelope(&key, "alice", &nonce, "\"hello\"");
    let rejected = submission.verify(&store, &mut ledger, Privilege::Basic, late);
    assert_eq!(rejected, Err(Error::Challenge));
}

#[test]
fn challenge_alive_at_expiry_boundary() {
    let (key, pem) = new_keypair();
    let mut store = CredentialStore::new();
    let mut ledger = ChallengeLedger::new();
    let issued_at: u64 = 1_000_000;

    assert_eq!(register(&mut store, signed_certificate(&key, "alice", &pem, issued_at)), Ok(()));
    let nonce = issue_challenge(&store, &mut ledger, signed_name(&key, "alice"), issued_at).unwrap();

    let boundary = issued_at + 300;
    let submission = signed_envelope(&key, "alice", &nonce, "\"hello\"");
    let accepted = submission.verify(&store, &mut ledger, Privilege::Basic, boundary);
    assert_eq!(accepted, Ok("\"hello\"".to_string()));
}

#[test]
fn tampered_envelope_preserves_challenge() {
    let (key, pem) = new_keypair();
    let mut store = CredentialStore::new();
    let mut ledger = ChallengeLedger::new();
    let now: u64 = 1_000_000;

    assert_eq!(register(&mut store, signed_certificate(&key, "alice", &pem, now)), Ok(()));
    let nonce = issue_challenge(&store, &mut ledger, signed_name(&key, "alice"), now).unwrap();

    // Sign the genuine payload, then flip one byte of it.
    let text = envelope_text_of("alice", &nonce, "\"hello\"");
    let signature = sign(&key, &text);
    let tampered = Signed {
        data: By {
            user: "alice".to_string(),
            challenge: nonce.clone(),
            data: "\"hellp\"".to_string(),
        },
        signature,
    };
    let rejected = tampered.verify(&store, &mut ledger, Privilege::Basic, now);
    assert_eq!(rejected, Err(Error::Signature));

    // The challenge was not consumed: a correct resubmission succeeds.
    let submission = signed_envelope(&key, "alice", &nonce, "\"hello\"");
    let accepted = submission.verify(&store, &mut ledger, Privilege::Basic, now);
    assert_eq!(accepted, Ok("\"hello\"".to_string()));
}

#[test]
fn insufficient_privilege_still_consumes_challenge() {
    let (key, pem) = new_keypair();
    let mut store = CredentialStore::new();
    let mut ledger = ChallengeLedger::new();
    let now: u64 = 1_000_000;

    assert_eq!(register(&mut store, signed_certificate(&key, "alice", &pem, now)), Ok(()));
    let nonce = issue_challenge(&store, &mut ledger, signed_name(&key, "alice"), now).unwrap();

    let submission = signed_envelope(&key, "alice", &nonce, "\"hello\"");
    let rejected = submission.privileged(&store, &mut ledger, now);
    assert_eq!(rejected, Err(Error::Privilege));

    // The challenge was valid and is now spent: retrying cannot help.
    let retry = signed_envelope(&key, "alice", &nonce, "\"hello\"");
    let spent = retry.verify(&store, &mut ledger, Privilege::Basic, now);
    assert_eq!(spent, Err(Error::Challenge));
}

#[test]
fn admin_passes_privileged_check() {
    let (key, pem) = new_keypair();
    let mut store = CredentialStore::new();
    let mut ledger = ChallengeLedger::new();
    let now: u64 = 1_000_000;

    // An administrator is established out of band.
    let admin = User {
        name: "root".to_string(),
        contact: None,
        image: None,
        privilege: Privilege::Admin,
        pubkey: pem.clone(),
    };
    assert_eq!(admin.insert(&mut store), Ok(()));

    let nonce = issue_challenge(&store, &mut ledger, signed_name(&key, "root"), now).unwrap();
    let submission = signed_envelope(&key, "root", &nonce, "42");
    let accepted = submission.privileged(&store, &mut ledger, now);
    assert_eq!(accepted, Ok("42".to_string()));
}

#[test]
fn unknown_user_rejected() {
    let (key, _pem) = new_keypair();
    let store = CredentialStore::new();
    let mut ledger = ChallengeLedger::new();
    let now: u64 = 1_000_000;

    let asked = issue_challenge(&store, &mut ledger, signed_name(&key, "nobody"), now);
    assert_eq!(asked, Err(Error::NoUser));

    let submission = signed_envelope(&key, "nobody", "bm9uY2U=", "\"hello\"");
    let rejected = submission.verify(&store, &mut ledger, Privilege::Basic, now);
    assert_eq!(rejected, Err(Error::NoUser));
}

#[test]
fn malformed_stored_key_rejected() {
    let (key, _pem) = new_keypair();
    let mut store = CredentialStore::new();
    let mut ledger = ChallengeLedger::new();
    let now: u64 = 1_000_000;

    let broken = User {
        name: "alice".to_string(),
        contact: None,
        image: None,
        privilege: Privilege::Basic,
        pubkey: "not a pem".to_string(),
    };
    assert_eq!(broken.insert(&mut store), Ok(()));

    let submission = signed_envelope(&key, "alice", "bm9uY2U=", "\"hello\"");
    let rejected = submission.verify(&store, &mut ledger, Privilege::Basic, now);
    assert_eq!(rejected, Err(Error::KeyDecode));
}

#[test]
fn wrong_key_signature_rejected() {
    let (key, pem) = new_keypair();
    let (mallory_key, _mallory_pem) = new_keypair();
    let mut store = CredentialStore::new();
    let mut ledger = ChallengeLedger::new();
    let now: u64 = 1_000_000;

    assert_eq!(register(&mut store, signed_certificate(&key, "alice", &pem, now)), Ok(()));
    let nonce = issue_challenge(&store, &mut ledger, signed_name(&key, "alice"), now).unwrap();

    let forged = signed_envelope(&mallory_key, "alice", &nonce, "\"hello\"");
    let rejected = forged.verify(&store, &mut ledger, Privilege::Basic, now);
    assert_eq!(rejected, Err(Error::Signature));

    // The forgery did not burn the challenge.
    let genuine = signed_envelope(&key, "alice", &nonce, "\"hello\"");
    let accepted = genuine.verify(&store, &mut ledger, Privilege::Basic, now);
    assert_eq!(accepted, Ok("\"hello\"".to_string()));
}
