//! The challenge ledger: single-use nonces bound to a user, with expiry.
//!
//! A challenge is created on request, and deleted exactly once: either by
//! the one successful consumption, or by the lazy sweep of expired rows
//! that runs before every consumption attempt.  Deletion reports how many
//! rows it removed, and that count alone decides whether a challenge was
//! valid: no separate read precedes it that could go stale.

use vstd::prelude::*;

use crate::credential::CredentialStore;
use crate::credential::User;
use crate::credential::lookup_user;
use crate::crypto;
use crate::error::Error;

verus! {

/// An outstanding challenge: a nonce a client must sign, bound to a user
/// name, dead once `expires` lies in the past.
#[derive(Debug)]
pub struct Challenge {
    pub user: String,
    pub challenge: String,
    pub expires: u64,
}

/// How long a challenge lives, in seconds.
pub const CHALLENGE_LIFETIME: u64 = 300;

/// How many random bytes a nonce holds before encoding.
pub const NONCE_BYTES: usize = 32;

/// Whether an entry is the challenge `nonce` issued to `user`.
pub open spec fn is_for(c: Challenge, user: Seq<char>, nonce: Seq<char>) -> bool {
    c.user@ == user && c.challenge@ == nonce
}

/// Whether an entry is still alive at `now`.
pub open spec fn live(c: Challenge, now: u64) -> bool {
    c.expires >= now
}

/// The ledger after the lazy sweep: only entries alive at `now` remain,
/// in order.
pub open spec fn pruned(l: Seq<Challenge>, now: u64) -> Seq<Challenge>
    decreases l.len(),
{
    if l.len() == 0 {
        Seq::empty()
    } else if live(l[0], now) {
        seq![l[0]] + pruned(l.drop_first(), now)
    } else {
        pruned(l.drop_first(), now)
    }
}

/// How many entries are the challenge `nonce` issued to `user`.
pub open spec fn match_count(l: Seq<Challenge>, user: Seq<char>, nonce: Seq<char>) -> nat
    decreases l.len(),
{
    if l.len() == 0 {
        0
    } else if is_for(l[0], user, nonce) {
        1 + match_count(l.drop_first(), user, nonce)
    } else {
        match_count(l.drop_first(), user, nonce)
    }
}

/// The ledger with every entry for `(user, nonce)` deleted, in order.
pub open spec fn drop_matching(l: Seq<Challenge>, user: Seq<char>, nonce: Seq<char>) -> Seq<
    Challenge,
>
    decreases l.len(),
{
    if l.len() == 0 {
        Seq::empty()
    } else if is_for(l[0], user, nonce) {
        drop_matching(l.drop_first(), user, nonce)
    } else {
        seq![l[0]] + drop_matching(l.drop_first(), user, nonce)
    }
}

/// Whether consuming `(user, nonce)` at `now` succeeds: after the sweep,
/// exactly one row matches and is deleted.
pub open spec fn consume_ok(l: Seq<Challenge>, user: Seq<char>, nonce: Seq<char>, now: u64) -> bool {
    match_count(pruned(l, now), user, nonce) == 1
}

/// The ledger a consumption attempt leaves behind, whatever its outcome:
/// swept of expired rows, and with every `(user, nonce)` row deleted.
pub open spec fn after_consume(l: Seq<Challenge>, user: Seq<char>, nonce: Seq<char>, now: u64) -> Seq<
    Challenge,
> {
    drop_matching(pruned(l, now), user, nonce)
}

/// Deleting the rows for a challenge leaves none of them behind.
pub proof fn lemma_drop_matching_removes_all(l: Seq<Challenge>, user: Seq<char>, nonce: Seq<char>)
    ensures
        match_count(drop_matching(l, user, nonce), user, nonce) == 0,
    decreases l.len(),
{
    if l.len() > 0 {
        lemma_drop_matching_removes_all(l.drop_first(), user, nonce);
        if !is_for(l[0], user, nonce) {
            let tail = drop_matching(l.drop_first(), user, nonce);
            assert((seq![l[0]] + tail).drop_first() =~= tail);
        }
    }
}

/// The sweep never adds rows for a challenge.
pub proof fn lemma_pruned_match_count_le(
    l: Seq<Challenge>,
    user: Seq<char>,
    nonce: Seq<char>,
    now: u64,
)
    ensures
        match_count(pruned(l, now), user, nonce) <= match_count(l, user, nonce),
    decreases l.len(),
{
    if l.len() > 0 {
        lemma_pruned_match_count_le(l.drop_first(), user, nonce, now);
        if live(l[0], now) {
            let tail = pruned(l.drop_first(), now);
            assert((seq![l[0]] + tail).drop_first() =~= tail);
        }
    }
}

/// A consumed challenge can never be consumed again: whatever a first
/// consumption attempt did, a second attempt for the same user and nonce,
/// at any later or earlier clock reading, fails.  Of two concurrent
/// requests presenting one challenge, whichever the storage layer orders
/// second therefore loses.
pub proof fn lemma_challenge_single_use(
    l: Seq<Challenge>,
    user: Seq<char>,
    nonce: Seq<char>,
    now1: u64,
    now2: u64,
)
    ensures
        !consume_ok(after_consume(l, user, nonce, now1), user, nonce, now2),
{
    let after = after_consume(l, user, nonce, now1);
    lemma_drop_matching_removes_all(pruned(l, now1), user, nonce);
    lemma_pruned_match_count_le(after, user, nonce, now2);
}

/// An expired challenge can never be consumed, even though no sweep was
/// ever explicitly invoked: when every row for the challenge has expired,
/// consumption at `now` fails.
pub proof fn lemma_expired_challenge_rejected(
    l: Seq<Challenge>,
    user: Seq<char>,
    nonce: Seq<char>,
    now: u64,
)
    requires
        forall|i: int| 0 <= i < l.len() && is_for(#[trigger] l[i], user, nonce) ==> !live(l[i], now),
    ensures
        !consume_ok(l, user, nonce, now),
    decreases l.len(),
{
    if l.len() > 0 {
        let rest = l.drop_first();
        assert(forall|i: int|
            0 <= i < rest.len() && is_for(#[trigger] rest[i], user, nonce) ==> !live(rest[i], now))
            by {
            assert(forall|i: int| 0 <= i < rest.len() ==> rest[i] == #[trigger] l[i + 1]);
        }
        lemma_expired_challenge_rejected(rest, user, nonce, now);
        if live(l[0], now) {
            assert(!is_for(l[0], user, nonce));
            let tail = pruned(rest, now);
            assert((seq![l[0]] + tail).drop_first() =~= tail);
        }
    }
}

/// The sweep keeps every live row.
pub proof fn lemma_pruned_push(l: Seq<Challenge>, c: Challenge, now: u64)
    ensures
        live(c, now) ==> pruned(l.push(c), now) == pruned(l, now).push(c),
        !live(c, now) ==> pruned(l.push(c), now) == pruned(l, now),
    decreases l.len(),
{
    if l.len() == 0 {
        assert(l.push(c).drop_first() =~= Seq::<Challenge>::empty());
        if live(c, now) {
            assert(seq![c] + pruned(Seq::empty(), now) =~= pruned(l, now).push(c));
        }
    } else {
        assert(l.push(c).drop_first() =~= l.drop_first().push(c));
        lemma_pruned_push(l.drop_first(), c, now);
        if live(l[0], now) {
            if live(c, now) {
                assert(seq![l[0]] + pruned(l.drop_first(), now).push(c) =~= (seq![l[0]] + pruned(
                    l.drop_first(),
                    now,
                )).push(c));
            }
        }
    }
}

/// Appending a row adds one match when it is for the challenge, none
/// otherwise.
pub proof fn lemma_match_count_push(
    l: Seq<Challenge>,
    c: Challenge,
    user: Seq<char>,
    nonce: Seq<char>,
)
    ensures
        match_count(l.push(c), user, nonce) == match_count(l, user, nonce) + (if is_for(
            c,
            user,
            nonce,
        ) {
            1int
        } else {
            0int
        }),
    decreases l.len(),
{
    if l.len() == 0 {
        assert(l.push(c)[0] == c);
        assert(l.push(c).drop_first() =~= Seq::<Challenge>::empty());
        assert(match_count(l.push(c).drop_first(), user, nonce) == 0);
    } else {
        assert(l.push(c)[0] == l[0]);
        assert(l.push(c).drop_first() =~= l.drop_first().push(c));
        lemma_match_count_push(l.drop_first(), c, user, nonce);
    }
}

/// A freshly issued challenge is consumable: when no row for it existed
/// before and it has not expired, consumption succeeds.
pub proof fn lemma_issued_challenge_consumable(l: Seq<Challenge>, c: Challenge, now: u64)
    requires
        match_count(l, c.user@, c.challenge@) == 0,
        live(c, now),
    ensures
        consume_ok(l.push(c), c.user@, c.challenge@, now),
{
    lemma_pruned_push(l, c, now);
    lemma_pruned_match_count_le(l, c.user@, c.challenge@, now);
    lemma_match_count_push(pruned(l, now), c, c.user@, c.challenge@);
    assert(is_for(c, c.user@, c.challenge@));
}

/// The ledger itself.
pub struct ChallengeLedger {
    entries: Vec<Challenge>,
}

impl View for ChallengeLedger {
    type V = Seq<Challenge>;

    closed spec fn view(&self) -> Seq<Challenge> {
        self.entries@
    }
}

impl ChallengeLedger {
    /// An empty ledger.
    pub fn new() -> (r: ChallengeLedger)
        ensures
            r@ =~= Seq::<Challenge>::empty(),
    {
        ChallengeLedger { entries: Vec::new() }
    }

    /// Records a challenge.
    pub fn insert(&mut self, c: Challenge)
        ensures
            final(self)@ == old(self)@.push(c),
    {
        self.entries.push(c);
    }

    /// The lazy sweep: deletes every row that expired before `now` and
    /// reports how many it deleted.
    pub fn delete_expired(&mut self, now: u64) -> (count: usize)
        ensures
            final(self)@ == pruned(old(self)@, now),
            count == old(self)@.len() - pruned(old(self)@, now).len(),
    {
        let n0 = self.entries.len();
        let mut kept: Vec<Challenge> = Vec::new();
        let mut count: usize = 0;
        while self.entries.len() > 0
            invariant
                n0 == old(self)@.len(),
                pruned(old(self)@, now) =~= kept@ + pruned(self.entries@, now),
                kept@.len() + count == old(self)@.len() - self.entries@.len(),
            decreases self.entries.len(),
        {
            let c = self.entries.remove(0);
            if c.expires >= now {
                kept.push(c);
            } else {
                count = count + 1;
            }
        }
        proof {
            assert(pruned(self.entries@, now) =~= Seq::<Challenge>::empty());
            assert(kept@ + Seq::<Challenge>::empty() =~= kept@);
            lemma_pruned_len_le(old(self)@, now);
        }
        self.entries = kept;
        count
    }

    /// Deletes every row for `(user, nonce)` and reports how many it
    /// deleted.  This single statement is what decides validity.
    pub fn delete_matching(&mut self, user: &str, nonce: &str) -> (count: usize)
        ensures
            final(self)@ == drop_matching(old(self)@, user@, nonce@),
            count == match_count(old(self)@, user@, nonce@),
    {
        let n0 = self.entries.len();
        let user_key: String = user.to_owned();
        let nonce_key: String = nonce.to_owned();
        let mut kept: Vec<Challenge> = Vec::new();
        let mut count: usize = 0;
        while self.entries.len() > 0
            invariant
                n0 == old(self)@.len(),
                user_key@ == user@,
                nonce_key@ == nonce@,
                drop_matching(old(self)@, user@, nonce@) =~= kept@ + drop_matching(
                    self.entries@,
                    user@,
                    nonce@,
                ),
                count + match_count(self.entries@, user@, nonce@) == match_count(
                    old(self)@,
                    user@,
                    nonce@,
                ),
                count <= old(self)@.len() - self.entries@.len(),
            decreases self.entries.len(),
        {
            let c = self.entries.remove(0);
            if c.user == user_key && c.challenge == nonce_key {
                count = count + 1;
            } else {
                kept.push(c);
            }
        }
        proof {
            assert(drop_matching(self.entries@, user@, nonce@) =~= Seq::<Challenge>::empty());
            assert(kept@ + Seq::<Challenge>::empty() =~= kept@);
            assert(match_count(self.entries@, user@, nonce@) == 0);
        }
        self.entries = kept;
        count
    }
}

/// The sweep never grows the ledger.
pub proof fn lemma_pruned_len_le(l: Seq<Challenge>, now: u64)
    ensures
        pruned(l, now).len() <= l.len(),
    decreases l.len(),
{
    if l.len() > 0 {
        lemma_pruned_len_le(l.drop_first(), now);
    }
}

impl Challenge {
    /// Issues a challenge for `user`: generates a nonce from the random
    /// source, records it with its expiry, and returns its wire form.
    /// Fails with `NoUser` for a name without a stored identity, so no
    /// nonce is ever issued for a nonexistent account, and with `Storage`
    /// only when the random source fails.
    pub fn generate(store: &CredentialStore, ledger: &mut ChallengeLedger, user: &str, now: u64) -> (r:
        Result<String, Error>)
        requires
            now <= u64::MAX - CHALLENGE_LIFETIME,
        ensures
            lookup_user(store@, user@) is None ==> r == Err::<String, Error>(Error::NoUser)
                && final(ledger)@ == old(ledger)@,
            lookup_user(store@, user@) is Some ==> match r {
                Ok(nonce) => final(ledger)@.len() == old(ledger)@.len() + 1
                    && final(ledger)@.drop_last() == old(ledger)@ && ({
                    let entry = final(ledger)@.last();
                    entry.user@ == user@ && entry.challenge@ == nonce@ && entry.expires == now
                        + CHALLENGE_LIFETIME && nonce@.len() == 44
                }),
                Err(e) => e == Error::Storage && final(ledger)@ == old(ledger)@,
            },
    {
        if User::pubkey(store, user).is_none() {
            return Err(Error::NoUser);
        }
        let bytes = match crypto::random_bytes(NONCE_BYTES) {
            Ok(b) => b,
            Err(_) => {
                return Err(Error::Storage);
            },
        };
        let nonce = crypto::base64_encode(bytes.as_slice());
        let entry = Challenge {
            user: user.to_owned(),
            challenge: nonce.clone(),
            expires: now + CHALLENGE_LIFETIME,
        };
        ledger.insert(entry);
        proof {
            assert(ledger@.drop_last() =~= old(ledger)@);
        }
        Ok(nonce)
    }

    /// Checks a challenge, deleting it if present: sweeps expired rows,
    /// then deletes the rows for `(user, nonce)` and succeeds exactly
    /// when that deleted one row.  The count is the sole source of truth
    /// for validity, so two concurrent checks of one challenge cannot
    /// both succeed.
    pub fn verify(ledger: &mut ChallengeLedger, nonce: &str, user: &str, now: u64) -> (r: bool)
        ensures
            r == consume_ok(old(ledger)@, user@, nonce@, now),
            final(ledger)@ == after_consume(old(ledger)@, user@, nonce@, now),
    {
        ledger.delete_expired(now);
        ledger.delete_matching(user, nonce) == 1
    }
}

/// The ledger's intended state for one challenge: exactly one
/// outstanding row carries it, and that row is alive.  Nonces are drawn
/// at random precisely so that this holds; being probabilistic, it is
/// supplied as a premise where a proof needs it, never proved.
pub open spec fn sole_live_row(
    l: Seq<Challenge>,
    user: Seq<char>,
    nonce: Seq<char>,
    now: u64,
) -> bool {
    &&& match_count(l, user, nonce) == 1
    &&& exists|i: int|
        0 <= i < l.len() && is_for(#[trigger] l[i], user, nonce) && live(l[i], now)
}

/// A row for a challenge contributes to its match count.
pub proof fn lemma_match_index_counts(l: Seq<Challenge>, user: Seq<char>, nonce: Seq<char>, i: int)
    requires
        0 <= i < l.len(),
        is_for(l[i], user, nonce),
    ensures
        match_count(l, user, nonce) >= 1,
    decreases l.len(),
{
    if i > 0 {
        assert(l.drop_first()[i - 1] == l[i]);
        lemma_match_index_counts(l.drop_first(), user, nonce, i - 1);
    }
}

/// A challenge held by exactly one outstanding row — the ledger's
/// intended state, since nonces are drawn to be unique — is consumable
/// while that row lives: the sweep keeps it and the delete removes
/// exactly one row.
pub proof fn lemma_unique_live_consumable(
    l: Seq<Challenge>,
    user: Seq<char>,
    nonce: Seq<char>,
    now: u64,
)
    requires
        match_count(l, user, nonce) == 1,
        exists|i: int|
            0 <= i < l.len() && is_for(#[trigger] l[i], user, nonce) && live(l[i], now),
    ensures
        consume_ok(l, user, nonce, now),
    decreases l.len(),
{
    let rest = l.drop_first();
    let w = choose|i: int|
        0 <= i < l.len() && is_for(#[trigger] l[i], user, nonce) && live(l[i], now);
    if is_for(l[0], user, nonce) {
        // The single matching row is the first: any further match would
        // raise the count past one.
        if w > 0 {
            assert(rest[w - 1] == l[w]);
            lemma_match_index_counts(rest, user, nonce, w - 1);
        }
        assert(live(l[0], now));
        let tail = pruned(rest, now);
        assert((seq![l[0]] + tail).drop_first() =~= tail);
        lemma_pruned_match_count_le(rest, user, nonce, now);
    } else {
        assert(w > 0 && rest[w - 1] == l[w]);
        lemma_unique_live_consumable(rest, user, nonce, now);
        if live(l[0], now) {
            let tail = pruned(rest, now);
            assert((seq![l[0]] + tail).drop_first() =~= tail);
        }
    }
}

} // verus!
