//! The credential store: identities keyed by their unique name.
//!
//! The store models the persistence layer's one guarantee the core needs:
//! a single conditional insert that reports how many rows it affected, so
//! that concurrent registrations of one name cannot both succeed.

use vstd::prelude::*;

use crate::error::Error;
use crate::privilege::Privilege;

verus! {

/// An established identity: created on registration, its public key
/// immutable thereafter, its privilege changed only administratively.
#[derive(Debug)]
pub struct User {
    pub name: String,
    pub contact: Option<String>,
    pub image: Option<Vec<u8>>,
    pub privilege: Privilege,
    pub pubkey: String,
}

/// The identity stored under a name, if any: the first entry whose name
/// matches.  In a well-formed store there is at most one.
pub open spec fn lookup_user(users: Seq<User>, name: Seq<char>) -> Option<User>
    decreases users.len(),
{
    if users.len() == 0 {
        None
    } else if users[0].name@ == name {
        Some(users[0])
    } else {
        lookup_user(users.drop_first(), name)
    }
}

/// What a conditional insert leaves behind: the store unchanged when the
/// name is taken, otherwise the store with the identity appended.
pub open spec fn after_insert(users: Seq<User>, user: User) -> Seq<User> {
    if lookup_user(users, user.name@) is Some {
        users
    } else {
        users.push(user)
    }
}

/// A name is stored exactly when some entry carries it, and the stored
/// identity carries the name it is stored under.
pub proof fn lemma_lookup_characterizes(users: Seq<User>, name: Seq<char>)
    ensures
        (lookup_user(users, name) is None <==> forall|i: int|
            0 <= i < users.len() ==> users[i].name@ != name),
        lookup_user(users, name) matches Some(u) ==> u.name@ == name,
    decreases users.len(),
{
    if users.len() > 0 {
        let rest = users.drop_first();
        lemma_lookup_characterizes(rest, name);
        if users[0].name@ != name {
            if lookup_user(rest, name) is None {
                assert forall|i: int| 0 <= i < users.len() implies users[i].name@ != name by {
                    if i >= 1 {
                        assert(users[i] == rest[i - 1]);
                    }
                }
            } else {
                let j = choose|j: int| 0 <= j < rest.len() && rest[j].name@ == name;
                assert(users[j + 1] == rest[j]);
            }
        }
    }
}

/// Appending an entry changes no lookup except the one for a name that
/// was absent and is the new entry's own.
pub proof fn lemma_lookup_push(users: Seq<User>, user: User, name: Seq<char>)
    ensures
        lookup_user(users.push(user), name) == (if lookup_user(users, name) is Some {
            lookup_user(users, name)
        } else if user.name@ == name {
            Some(user)
        } else {
            None
        }),
    decreases users.len(),
{
    if users.len() == 0 {
        assert(users.push(user).drop_first() =~= Seq::<User>::empty());
    } else {
        assert(users.push(user).drop_first() =~= users.drop_first().push(user));
        lemma_lookup_push(users.drop_first(), user, name);
    }
}

/// A name once present stays present under any later conditional insert.
/// Together with `lemma_register_exactly_once` this is why, in any serial
/// order of concurrent registrations of one name, the first successful
/// insert is also the last.
pub proof fn lemma_present_stays_present(users: Seq<User>, other: User, name: Seq<char>)
    requires
        lookup_user(users, name) is Some,
    ensures
        lookup_user(after_insert(users, other), name) is Some,
{
    if lookup_user(users, other.name@) is None {
        lemma_lookup_push(users, other, name);
    }
}

/// After any conditional insert of an identity, its name is present, so a
/// second insert of the same name affects no row and registration reports
/// the name as taken.
pub proof fn lemma_register_exactly_once(users: Seq<User>, first: User, second: User)
    requires
        first.name@ == second.name@,
    ensures
        lookup_user(after_insert(users, first), second.name@) is Some,
{
    if lookup_user(users, first.name@) is None {
        lemma_lookup_push(users, first, second.name@);
    }
}

/// Whether two optional text fields read the same.
pub open spec fn same_text(a: Option<String>, b: Option<String>) -> bool {
    match (a, b) {
        (Some(x), Some(y)) => x@ == y@,
        (None, None) => true,
        _ => false,
    }
}

/// Whether two optional byte fields hold the same bytes.
pub open spec fn same_bytes(a: Option<Vec<u8>>, b: Option<Vec<u8>>) -> bool {
    match (a, b) {
        (Some(x), Some(y)) => x@ == y@,
        (None, None) => true,
        _ => false,
    }
}

/// A fresh vector with the same bytes.
fn copy_bytes(v: &Vec<u8>) -> (r: Vec<u8>)
    ensures
        r@ == v@,
{
    let mut r: Vec<u8> = Vec::new();
    let n = v.len();
    let mut i: usize = 0;
    while i < n
        invariant
            n == v@.len(),
            i <= n,
            r@ == v@.take(i as int),
        decreases n - i,
    {
        r.push(v[i]);
        proof {
            assert(r@ =~= v@.take(i + 1));
        }
        i = i + 1;
    }
    proof {
        assert(v@.take(n as int) =~= v@);
    }
    r
}

/// The credential store itself; entries carry pairwise distinct names.
pub struct CredentialStore {
    users: Vec<User>,
}

impl View for CredentialStore {
    type V = Seq<User>;

    closed spec fn view(&self) -> Seq<User> {
        self.users@
    }
}

impl CredentialStore {
    /// Names are pairwise distinct.
    pub open spec fn wf(self) -> bool {
        forall|i: int, j: int|
            0 <= i < j < self@.len() ==> self@[i].name@ != self@[j].name@
    }

    /// An empty store.
    pub fn new() -> (r: CredentialStore)
        ensures
            r@ =~= Seq::<User>::empty(),
            r.wf(),
    {
        CredentialStore { users: Vec::new() }
    }

    /// The position of the entry named `name`, if any.
    fn find_index(&self, name: &str) -> (r: Option<usize>)
        ensures
            match (lookup_user(self@, name@), r) {
                (Some(u), Some(i)) => i < self@.len() && self@[i as int] == u,
                (None, None) => true,
                _ => false,
            },
    {
        let key: String = name.to_owned();
        let n = self.users.len();
        let mut i: usize = 0;
        proof {
            assert(self@.skip(0) =~= self@);
        }
        while i < n
            invariant
                n == self@.len(),
                i <= n,
                key@ == name@,
                lookup_user(self@, name@) == lookup_user(self@.skip(i as int), name@),
                forall|k: int| 0 <= k < i ==> self@[k].name@ != name@,
            decreases n - i,
        {
            proof {
                assert(self@.skip(i as int)[0] == self@[i as int]);
                assert(self@.skip(i as int).drop_first() =~= self@.skip(i + 1));
            }
            if self.users[i].name == key {
                return Some(i);
            }
            i = i + 1;
        }
        proof {
            assert(self@.skip(n as int) =~= Seq::<User>::empty());
        }
        None
    }

    /// A single conditional insert, reporting the affected-row count: `0`
    /// and no change when the name is already stored, otherwise `1` and
    /// the identity appended.  There is no separate existence check a
    /// concurrent insert could slip past.
    pub fn insert_if_absent(&mut self, user: User) -> (count: usize)
        requires
            old(self).wf(),
        ensures
            final(self).wf(),
            final(self)@ == after_insert(old(self)@, user),
            lookup_user(old(self)@, user.name@) is Some ==> count == 0 && final(self)@ == old(self)@,
            lookup_user(old(self)@, user.name@) is None ==> count == 1 && final(self)@ == old(self)@.push(user),
    {
        let present = self.find_index(user.name.as_str()).is_some();
        if present {
            0
        } else {
            proof {
                lemma_lookup_characterizes(self@, user.name@);
            }
            self.users.push(user);
            1
        }
    }
}

impl User {
    /// The stored public key of the named identity, if any.
    pub fn pubkey(store: &CredentialStore, name: &str) -> (r: Option<String>)
        ensures
            match (lookup_user(store@, name@), r) {
                (Some(u), Some(pem)) => pem@ == u.pubkey@,
                (None, None) => true,
                _ => false,
            },
    {
        match store.find_index(name) {
            Some(i) => Some(store.users[i].pubkey.clone()),
            None => None,
        }
    }

    /// A copy of the full stored identity under `name`, if any.
    pub fn named(store: &CredentialStore, name: &str) -> (r: Option<User>)
        ensures
            match (lookup_user(store@, name@), r) {
                (Some(u), Some(v)) => v.name@ == u.name@ && same_text(v.contact, u.contact)
                    && same_bytes(v.image, u.image) && v.privilege == u.privilege && v.pubkey@
                    == u.pubkey@,
                (None, None) => true,
                _ => false,
            },
    {
        let i = match store.find_index(name) {
            Some(i) => i,
            None => {
                return None;
            },
        };
        let found = &store.users[i];
        Some(
            User {
                name: found.name.clone(),
                contact: match &found.contact {
                    Some(c) => Some(c.clone()),
                    None => None,
                },
                image: match &found.image {
                    Some(v) => Some(copy_bytes(v)),
                    None => None,
                },
                privilege: found.privilege,
                pubkey: found.pubkey.clone(),
            },
        )
    }

    /// The stored public key and privilege of the named identity, if any.
    pub fn credentials(store: &CredentialStore, name: &str) -> (r: Option<(String, Privilege)>)
        ensures
            match (lookup_user(store@, name@), r) {
                (Some(u), Some(c)) => c.0@ == u.pubkey@ && c.1 == u.privilege,
                (None, None) => true,
                _ => false,
            },
    {
        match store.find_index(name) {
            Some(i) => Some((store.users[i].pubkey.clone(), store.users[i].privilege)),
            None => None,
        }
    }

    /// Stores this identity under its name, or reports that the name is
    /// taken.  The decision rests on the insert's affected-row count
    /// alone, so of several concurrent registrations of one name exactly
    /// one succeeds.
    pub fn insert(self, store: &mut CredentialStore) -> (r: Result<(), Error>)
        requires
            old(store).wf(),
        ensures
            final(store).wf(),
            final(store)@ == after_insert(old(store)@, self),
            lookup_user(old(store)@, self.name@) is Some ==> r == Err::<(), Error>(Error::Exists)
                && final(store)@ == old(store)@,
            lookup_user(old(store)@, self.name@) is None ==> r == Ok::<(), Error>(())
                && final(store)@ == old(store)@.push(self),
    {
        let count = store.insert_if_absent(self);
        if count != 1 {
            Err(Error::Exists)
        } else {
            Ok(())
        }
    }
}

} // verus!
