//! The certificate verifier and the request authenticator.
//!
//! A self-signed certificate establishes an account; afterwards a request
//! is an envelope `{user, challenge, data}` signed over its canonical
//! text.  Authentication checks, in this order: the identity exists, the
//! signature verifies against the stored key, the challenge is consumed,
//! the stored privilege meets the required one.  The order matters: a
//! request that fails signature verification must not consume the
//! challenge, so a forged submission cannot burn a victim's challenge.

use vstd::prelude::*;

use crate::challenge::CHALLENGE_LIFETIME;
use crate::challenge::Challenge;
use crate::challenge::ChallengeLedger;
use crate::challenge::after_consume;
use crate::challenge::consume_ok;
use crate::challenge::is_for;
use crate::challenge::lemma_challenge_single_use;
use crate::challenge::lemma_drop_matching_removes_all;
use crate::challenge::lemma_expired_challenge_rejected;
use crate::challenge::lemma_unique_live_consumable;
use crate::challenge::live;
use crate::challenge::match_count;
use crate::challenge::pruned;
use crate::challenge::sole_live_row;
use crate::credential::CredentialStore;
use crate::credential::User;
use crate::credential::lookup_user;
use crate::crypto::check_signature;
use crate::crypto::sig_check;
use crate::encoding::certificate_text;
use crate::encoding::certificate_text_of;
use crate::encoding::envelope_text;
use crate::encoding::envelope_text_of;
use crate::encoding::name_text;
use crate::encoding::name_text_of;
use crate::error::Error;
use crate::privilege::Privilege;

verus! {

/// A value together with a signature over its canonical text.
pub struct Signed<T> {
    pub data: T,
    pub signature: Vec<u8>,
}

/// An envelope: the payload of a protected request, bound to the user
/// that makes it and the challenge that makes it single-use.  The payload
/// is carried as its canonical text and framed verbatim.
pub struct By {
    pub user: String,
    pub challenge: String,
    pub data: String,
}

/// A claim binding a name to a public key; it becomes an identity only
/// after its signature verifies and the insert succeeds.
pub struct Certificate {
    pub name: String,
    pub contact: Option<String>,
    pub pubkey: String,
    pub created: u64,
}

impl Certificate {
    /// A certificate claim, stamped with the time of its creation.
    pub fn new(name: String, contact: Option<String>, pubkey: String, created: u64) -> (r:
        Certificate)
        ensures
            r == (Certificate { name, contact, pubkey, created }),
    {
        Certificate { name, contact, pubkey, created }
    }
}

/// The view of an optional text field.
pub open spec fn opt_text(o: Option<String>) -> Option<Seq<char>> {
    match o {
        Some(s) => Some(s@),
        None => None,
    }
}

/// The canonical text a certificate is signed over.
pub open spec fn spec_certificate_text(c: Certificate) -> Seq<char> {
    certificate_text(c.name@, opt_text(c.contact), c.pubkey@, c.created)
}

/// The canonical text an envelope is signed over.
pub open spec fn spec_envelope_text(b: By) -> Seq<char> {
    envelope_text(b.user@, b.challenge@, b.data@)
}

impl Signed<Certificate> {
    /// Validates that the certificate's signature was produced with the
    /// private counterpart of the public key the certificate itself
    /// asserts.  This proves possession of that key and nothing about any
    /// prior account state; it has no side effect.
    pub fn verify(self) -> (r: Result<Certificate, Error>)
        ensures
            ({
                let chk = sig_check(
                    self.data.pubkey@,
                    spec_certificate_text(self.data),
                    self.signature@,
                );
                if chk is None {
                    r == Err::<Certificate, Error>(Error::KeyDecode)
                } else if chk == Some(false) {
                    r == Err::<Certificate, Error>(Error::Signature)
                } else {
                    r == Ok::<Certificate, Error>(self.data)
                }
            }),
    {
        let text = certificate_text_of(
            self.data.name.as_str(),
            &self.data.contact,
            self.data.pubkey.as_str(),
            self.data.created,
        );
        match check_signature(self.data.pubkey.as_str(), text.as_str(), self.signature.as_slice()) {
            Ok(true) => Ok(self.data),
            Ok(false) => Err(Error::Signature),
            Err(_) => Err(Error::KeyDecode),
        }
    }
}

impl Signed<String> {
    /// Validates a signed user name against that user's stored key.  This
    /// cannot authenticate a request — nothing binds it to a challenge —
    /// it only lets an account holder ask for a challenge.
    pub fn verify_user(self, store: &CredentialStore) -> (r: Result<String, Error>)
        ensures
            ({
                match lookup_user(store@, self.data@) {
                    None => r == Err::<String, Error>(Error::NoUser),
                    Some(u) => {
                        let chk = sig_check(u.pubkey@, name_text(self.data@), self.signature@);
                        if chk is None {
                            r == Err::<String, Error>(Error::KeyDecode)
                        } else if chk == Some(false) {
                            r == Err::<String, Error>(Error::Signature)
                        } else {
                            r == Ok::<String, Error>(self.data)
                        }
                    },
                }
            }),
    {
        let pem = match User::pubkey(store, self.data.as_str()) {
            Some(p) => p,
            None => {
                return Err(Error::NoUser);
            },
        };
        let text = name_text_of(self.data.as_str());
        match check_signature(pem.as_str(), text.as_str(), self.signature.as_slice()) {
            Ok(true) => Ok(self.data),
            Ok(false) => Err(Error::Signature),
            Err(_) => Err(Error::KeyDecode),
        }
    }
}

/// Everything request authentication promises, for every outcome: which
/// error comes on which input, that the ledger is untouched unless the
/// signature verified, and that a verified request consumes its
/// challenge whether or not the privilege check then passes.
pub open spec fn authenticate_outcome(
    envelope: By,
    signature: Seq<u8>,
    store: Seq<User>,
    pre: Seq<Challenge>,
    post: Seq<Challenge>,
    required: Privilege,
    now: u64,
    r: Result<String, Error>,
) -> bool {
    match lookup_user(store, envelope.user@) {
        None => r == Err::<String, Error>(Error::NoUser) && post == pre,
        Some(u) => {
            let chk = sig_check(u.pubkey@, spec_envelope_text(envelope), signature);
            if chk is None {
                r == Err::<String, Error>(Error::KeyDecode) && post == pre
            } else if chk == Some(false) {
                r == Err::<String, Error>(Error::Signature) && post == pre
            } else {
                post == after_consume(pre, envelope.user@, envelope.challenge@, now) && (
                if !consume_ok(pre, envelope.user@, envelope.challenge@, now) {
                    r == Err::<String, Error>(Error::Challenge)
                } else if !u.privilege.spec_at_least(required) {
                    r == Err::<String, Error>(Error::Privilege)
                } else {
                    r == Ok::<String, Error>(envelope.data)
                })
            }
        },
    }
}

impl Signed<By> {
    /// Authenticates a request: looks the user up, verifies the signature
    /// over the envelope's canonical text, consumes the challenge, and
    /// gates on privilege — in that order, and each failure terminal.
    /// On success the payload text is released to the caller.
    pub fn verify(
        self,
        store: &CredentialStore,
        ledger: &mut ChallengeLedger,
        required: Privilege,
        now: u64,
    ) -> (r: Result<String, Error>)
        ensures
            authenticate_outcome(
                self.data,
                self.signature@,
                store@,
                old(ledger)@,
                final(ledger)@,
                required,
                now,
                r,
            ),
    {
        let (pem, privilege) = match User::credentials(store, self.data.user.as_str()) {
            Some(c) => c,
            None => {
                return Err(Error::NoUser);
            },
        };
        let text = envelope_text_of(
            self.data.user.as_str(),
            self.data.challenge.as_str(),
            self.data.data.as_str(),
        );
        let ok = match check_signature(pem.as_str(), text.as_str(), self.signature.as_slice()) {
            Ok(b) => b,
            Err(_) => {
                return Err(Error::KeyDecode);
            },
        };
        if !ok {
            return Err(Error::Signature);
        }
        if !Challenge::verify(ledger, self.data.challenge.as_str(), self.data.user.as_str(), now) {
            return Err(Error::Challenge);
        }
        if !privilege.at_least(required) {
            return Err(Error::Privilege);
        }
        Ok(self.data.data)
    }

    /// Authenticates a request that demands the administrator level.
    pub fn privileged(self, store: &CredentialStore, ledger: &mut ChallengeLedger, now: u64) -> (r:
        Result<String, Error>)
        ensures
            authenticate_outcome(
                self.data,
                self.signature@,
                store@,
                old(ledger)@,
                final(ledger)@,
                Privilege::Admin,
                now,
                r,
            ),
    {
        self.verify(store, ledger, Privilege::Admin, now)
    }
}

/// Everything registration promises: a certificate that fails
/// verification changes nothing, a taken name is reported as such with
/// no partial write, and otherwise exactly the claimed identity is
/// stored, at the floor privilege.
pub open spec fn register_outcome(
    cert: Certificate,
    signature: Seq<u8>,
    pre: Seq<User>,
    post: Seq<User>,
    r: Result<(), Error>,
) -> bool {
    let chk = sig_check(cert.pubkey@, spec_certificate_text(cert), signature);
    if chk is None {
        r == Err::<(), Error>(Error::KeyDecode) && post == pre
    } else if chk == Some(false) {
        r == Err::<(), Error>(Error::Signature) && post == pre
    } else if lookup_user(pre, cert.name@) is Some {
        r == Err::<(), Error>(Error::Exists) && post == pre
    } else {
        r == Ok::<(), Error>(()) && post == pre.push(
            User {
                name: cert.name,
                contact: cert.contact,
                image: None,
                privilege: Privilege::Basic,
                pubkey: cert.pubkey,
            },
        )
    }
}

/// Registers an account: verifies the self-signed certificate, then
/// stores the identity — at the floor privilege — under its name with a
/// single conditional insert.
pub fn register(store: &mut CredentialStore, signed: Signed<Certificate>) -> (r: Result<(), Error>)
    requires
        old(store).wf(),
    ensures
        final(store).wf(),
        register_outcome(signed.data, signed.signature@, old(store)@, final(store)@, r),
{
    let cert = match signed.verify() {
        Ok(c) => c,
        Err(e) => {
            return Err(e);
        },
    };
    let user = User {
        name: cert.name,
        contact: cert.contact,
        image: None,
        privilege: Privilege::Basic,
        pubkey: cert.pubkey,
    };
    user.insert(store)
}

/// Everything challenge issuance promises: only an account holder who
/// signed their own name is issued a nonce, and the issued nonce is
/// recorded with its expiry before it is released.
pub open spec fn issue_outcome(
    name: Seq<char>,
    signature: Seq<u8>,
    store: Seq<User>,
    pre: Seq<Challenge>,
    post: Seq<Challenge>,
    now: u64,
    r: Result<String, Error>,
) -> bool {
    match lookup_user(store, name) {
        None => r == Err::<String, Error>(Error::NoUser) && post == pre,
        Some(u) => {
            let chk = sig_check(u.pubkey@, name_text(name), signature);
            if chk is None {
                r == Err::<String, Error>(Error::KeyDecode) && post == pre
            } else if chk == Some(false) {
                r == Err::<String, Error>(Error::Signature) && post == pre
            } else {
                match r {
                    Ok(nonce) => post.len() == pre.len() + 1 && post.drop_last() == pre && ({
                        let entry = post.last();
                        &&& entry.user@ == name
                        &&& entry.challenge@ == nonce@
                        &&& entry.expires == now + CHALLENGE_LIFETIME
                        &&& nonce@.len() == 44
                    }),
                    Err(e) => e == Error::Storage && post == pre,
                }
            }
        },
    }
}

/// Issues a challenge: verifies a signed user-name proof, then records
/// and returns a fresh nonce for that user.
pub fn issue_challenge(
    store: &CredentialStore,
    ledger: &mut ChallengeLedger,
    signed: Signed<String>,
    now: u64,
) -> (r: Result<String, Error>)
    requires
        now <= u64::MAX - CHALLENGE_LIFETIME,
    ensures
        issue_outcome(signed.data@, signed.signature@, store@, old(ledger)@, final(ledger)@, now, r),
{
    let name = match signed.verify_user(store) {
        Ok(n) => n,
        Err(e) => {
            return Err(e);
        },
    };
    Challenge::generate(store, ledger, name.as_str(), now)
}

/// Of two authentication attempts presenting one challenge, at most one
/// succeeds: however the storage layer orders them, when the first was
/// accepted the second is rejected, at any clock reading.
pub proof fn lemma_authenticate_at_most_once(
    first: By,
    sig1: Seq<u8>,
    second: By,
    sig2: Seq<u8>,
    store: Seq<User>,
    pre: Seq<Challenge>,
    mid: Seq<Challenge>,
    post: Seq<Challenge>,
    required1: Privilege,
    required2: Privilege,
    now1: u64,
    now2: u64,
    r1: Result<String, Error>,
    r2: Result<String, Error>,
)
    requires
        first.user@ == second.user@,
        first.challenge@ == second.challenge@,
        authenticate_outcome(first, sig1, store, pre, mid, required1, now1, r1),
        authenticate_outcome(second, sig2, store, mid, post, required2, now2, r2),
        r1 is Ok,
    ensures
        r2 is Err,
{
    if r2 is Ok {
        lemma_challenge_single_use(pre, first.user@, first.challenge@, now1, now2);
    }
}

/// A request whose challenge rows have all expired never succeeds, even
/// though no sweep was explicitly invoked beforehand; when its signature
/// verifies, it is rejected for its challenge exactly, and the lazy
/// sweep inside consumption removes the expired rows.
pub proof fn lemma_authenticate_expired(
    envelope: By,
    signature: Seq<u8>,
    store: Seq<User>,
    pre: Seq<Challenge>,
    post: Seq<Challenge>,
    required: Privilege,
    now: u64,
    r: Result<String, Error>,
)
    requires
        authenticate_outcome(envelope, signature, store, pre, post, required, now, r),
        forall|i: int|
            0 <= i < pre.len() && is_for(#[trigger] pre[i], envelope.user@, envelope.challenge@)
                ==> !live(pre[i], now),
    ensures
        r is Err,
        (lookup_user(store, envelope.user@) matches Some(u) && sig_check(
            u.pubkey@,
            spec_envelope_text(envelope),
            signature,
        ) == Some(true)) ==> (r == Err::<String, Error>(Error::Challenge) && match_count(
            post,
            envelope.user@,
            envelope.challenge@,
        ) == 0),
{
    lemma_expired_challenge_rejected(pre, envelope.user@, envelope.challenge@, now);
    lemma_drop_matching_removes_all(pruned(pre, now), envelope.user@, envelope.challenge@);
}

/// A well-formed request is accepted: for a stored identity, a
/// signature that verifies over the envelope's canonical text, a
/// challenge held by exactly one live row, and sufficient privilege,
/// authentication returns the payload and leaves no row for the
/// challenge behind.  That the row is unique is the ledger's intended
/// nonce-uniqueness invariant, taken as a premise.
pub proof fn lemma_authenticate_accepts(
    envelope: By,
    signature: Seq<u8>,
    store: Seq<User>,
    pre: Seq<Challenge>,
    post: Seq<Challenge>,
    required: Privilege,
    now: u64,
    r: Result<String, Error>,
)
    requires
        authenticate_outcome(envelope, signature, store, pre, post, required, now, r),
        lookup_user(store, envelope.user@) matches Some(u) && sig_check(
            u.pubkey@,
            spec_envelope_text(envelope),
            signature,
        ) == Some(true) && u.privilege.spec_at_least(required),
        sole_live_row(pre, envelope.user@, envelope.challenge@, now),
    ensures
        r == Ok::<String, Error>(envelope.data),
        match_count(post, envelope.user@, envelope.challenge@) == 0,
{
    lemma_unique_live_consumable(pre, envelope.user@, envelope.challenge@, now);
    lemma_drop_matching_removes_all(pruned(pre, now), envelope.user@, envelope.challenge@);
}

/// Of two validly-signed requests presenting one challenge, exactly one
/// is accepted: when the first was, the one the storage layer ordered
/// second is rejected for its challenge, at any clock reading.
pub proof fn lemma_authenticate_exactly_one(
    first: By,
    sig1: Seq<u8>,
    second: By,
    sig2: Seq<u8>,
    store: Seq<User>,
    pre: Seq<Challenge>,
    mid: Seq<Challenge>,
    post: Seq<Challenge>,
    required1: Privilege,
    required2: Privilege,
    now1: u64,
    now2: u64,
    r1: Result<String, Error>,
    r2: Result<String, Error>,
)
    requires
        first.user@ == second.user@,
        first.challenge@ == second.challenge@,
        authenticate_outcome(first, sig1, store, pre, mid, required1, now1, r1),
        authenticate_outcome(second, sig2, store, mid, post, required2, now2, r2),
        r1 is Ok,
        lookup_user(store, second.user@) matches Some(u) && sig_check(
            u.pubkey@,
            spec_envelope_text(second),
            sig2,
        ) == Some(true),
    ensures
        r2 == Err::<String, Error>(Error::Challenge),
{
    lemma_challenge_single_use(pre, first.user@, first.challenge@, now1, now2);
}

/// A tampered submission burns nothing: a request rejected for its
/// signature leaves the ledger exactly as it was, so a following
/// correctly-signed submission of the same challenge — still held by
/// its one live row — is accepted.
pub proof fn lemma_tamper_preserves_challenge(
    first: By,
    sig1: Seq<u8>,
    second: By,
    sig2: Seq<u8>,
    store: Seq<User>,
    pre: Seq<Challenge>,
    mid: Seq<Challenge>,
    post: Seq<Challenge>,
    required1: Privilege,
    required2: Privilege,
    now1: u64,
    now2: u64,
    r1: Result<String, Error>,
    r2: Result<String, Error>,
)
    requires
        authenticate_outcome(first, sig1, store, pre, mid, required1, now1, r1),
        r1 == Err::<String, Error>(Error::Signature),
        authenticate_outcome(second, sig2, store, mid, post, required2, now2, r2),
        lookup_user(store, second.user@) matches Some(u) && sig_check(
            u.pubkey@,
            spec_envelope_text(second),
            sig2,
        ) == Some(true) && u.privilege.spec_at_least(required2),
        sole_live_row(pre, second.user@, second.challenge@, now2),
    ensures
        mid == pre,
        r2 == Ok::<String, Error>(second.data),
{
    lemma_unique_live_consumable(pre, second.user@, second.challenge@, now2);
}

/// A validly-signed, validly-challenged request below the required
/// level is refused for privilege alone — and its challenge is consumed
/// all the same, so the refusal cannot be retried with it.
pub proof fn lemma_privilege_gate_consumes(
    envelope: By,
    signature: Seq<u8>,
    store: Seq<User>,
    pre: Seq<Challenge>,
    post: Seq<Challenge>,
    required: Privilege,
    now: u64,
    r: Result<String, Error>,
)
    requires
        authenticate_outcome(envelope, signature, store, pre, post, required, now, r),
        lookup_user(store, envelope.user@) matches Some(u) && sig_check(
            u.pubkey@,
            spec_envelope_text(envelope),
            signature,
        ) == Some(true) && !u.privilege.spec_at_least(required),
        sole_live_row(pre, envelope.user@, envelope.challenge@, now),
    ensures
        r == Err::<String, Error>(Error::Privilege),
        match_count(post, envelope.user@, envelope.challenge@) == 0,
{
    lemma_unique_live_consumable(pre, envelope.user@, envelope.challenge@, now);
    lemma_drop_matching_removes_all(pruned(pre, now), envelope.user@, envelope.challenge@);
}

} // verus!
