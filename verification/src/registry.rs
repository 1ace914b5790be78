//! The user registry: one record for each user, and the index from username
//! to email that mirrors the records.

use crate::error::AuthError;
use crate::keyed::{
    distinct_keys, lemma_map_of_pairs, lemma_map_of_push, lemma_map_of_size, lemma_map_of_update,
    map_of, position_of,
};
use crate::text::{constant_time_eq, same_email, to_lowercase};
use crate::user_map::{email_lookup, find_key_by_value, resolves_to, UserMap};
use vstd::prelude::*;

verus! {

/// What is stored of a user.
#[derive(Debug, Clone, Default, PartialEq, Eq)]
pub struct UserData {
    pub username: String,
    pub email: String,
    pub password: String,
    pub date_created: String,
    pub session_key: Option<String>,
}

/// A user's record as the values of its fields.
pub struct UserRecord {
    pub username: Seq<char>,
    pub email: Seq<char>,
    pub password: Seq<char>,
    pub date_created: Seq<char>,
    pub session_key: Option<Seq<char>>,
}

impl View for UserData {
    type V = UserRecord;

    open spec fn view(&self) -> UserRecord {
        UserRecord {
            username: self.username@,
            email: self.email@,
            password: self.password@,
            date_created: self.date_created@,
            session_key: match self.session_key {
                Some(key) => Some(key@),
                None => None,
            },
        }
    }
}

/// The records of a registry are sound: each stands under its own
/// username, and no two users have the same email address.
pub open spec fn users_wf(users: Map<Seq<char>, UserRecord>) -> bool {
    &&& forall|u: Seq<char>| users.contains_key(u) ==> (#[trigger] users[u]).username == u
    &&& forall|u1: Seq<char>, u2: Seq<char>|
        users.contains_key(u1) && users.contains_key(u2) && same_email(
            (#[trigger] users[u1]).email,
            (#[trigger] users[u2]).email,
        ) ==> u1 == u2
}

/// Some user is registered with the email address `email`.
pub open spec fn email_registered(users: Map<Seq<char>, UserRecord>, email: Seq<char>) -> bool {
    exists|u: Seq<char>| users.contains_key(u) && same_email((#[trigger] users[u]).email, email)
}

/// Neither `username` nor the email address `email` is registered.
pub open spec fn can_register(
    users: Map<Seq<char>, UserRecord>,
    username: Seq<char>,
    email: Seq<char>,
) -> bool {
    !users.contains_key(username) && !email_registered(users, email)
}

/// The index that belongs to `users`: the email of each username.
pub open spec fn index_of(users: Map<Seq<char>, UserRecord>) -> Map<Seq<char>, Seq<char>> {
    Map::new(|u: Seq<char>| users.contains_key(u), |u: Seq<char>| users[u].email)
}

/// `record` with the session token `token` in place of the one it had.
pub open spec fn with_session(record: UserRecord, token: Seq<char>) -> UserRecord {
    UserRecord { session_key: Some(token), ..record }
}

/// The registry of users.
#[derive(Debug)]
pub struct Registry {
    user_map: UserMap,
    records: Vec<UserData>,
}

impl View for Registry {
    type V = Map<Seq<char>, UserRecord>;

    /// The record of each registered username.
    open spec fn view(&self) -> Map<Seq<char>, UserRecord> {
        map_of(self.entries())
    }
}

impl Registry {
    /// The records, each with the username it stands under, in the order of
    /// registration.
    pub closed spec fn entries(&self) -> Seq<(Seq<char>, UserRecord)> {
        Seq::new(self.records.len() as nat, |i: int| (self.records[i]@.username, self.records[i]@))
    }

    /// The entries of the index, in the order of registration.
    pub closed spec fn index_pairs(&self) -> Seq<(Seq<char>, Seq<char>)> {
        self.user_map.pairs()
    }

    /// The index: the email of each username.
    pub open spec fn index(&self) -> Map<Seq<char>, Seq<char>> {
        map_of(self.index_pairs())
    }

    /// The registry is sound: no username occurs twice, no two users have
    /// the same email address, and the index has, entry for entry, the
    /// username and the email of each record.
    pub open spec fn wf(&self) -> bool {
        &&& distinct_keys(self.entries())
        &&& self.index_pairs().len() == self.entries().len()
        &&& forall|i: int|
            #![trigger self.entries()[i]]
            #![trigger self.index_pairs()[i]]
            0 <= i < self.entries().len() ==> self.entries()[i].0 == self.entries()[i].1.username
                && self.index_pairs()[i] == (self.entries()[i].0, self.entries()[i].1.email)
        &&& forall|i: int, j: int|
            0 <= i < j < self.entries().len() ==> !same_email(
                (#[trigger] self.entries()[i]).1.email,
                (#[trigger] self.entries()[j]).1.email,
            )
    }

    /// In a sound registry the index and the records agree: they hold the
    /// same usernames, the index gives each username the email of its
    /// record, and the records are sound as a map.
    pub proof fn lemma_index_mirrors_records(&self)
        requires
            self.wf(),
        ensures
            self.index() == index_of(self@),
            users_wf(self@),
            distinct_keys(self.index_pairs()),
    {
        let entries = self.entries();
        let pairs = self.index_pairs();
        assert(distinct_keys(pairs)) by {
            assert forall|i: int, j: int| 0 <= i < j < pairs.len() implies (#[trigger] pairs[i]).0
                != (#[trigger] pairs[j]).0 by {
                assert(entries[i].0 != entries[j].0);
            }
        }
        lemma_map_of_pairs(entries);
        lemma_map_of_pairs(pairs);
        assert forall|u: Seq<char>| #[trigger] self@.contains_key(u) implies self.index().contains_pair(
            u,
            self@[u].email,
        ) && self@[u].username == u by {
            let i = position_of(entries, u);
            assert(pairs[i] == (u, entries[i].1.email));
        }
        assert forall|u: Seq<char>| #[trigger] self.index().contains_key(u) implies self@.contains_key(
            u,
        ) by {
            assert(entries[position_of(pairs, u)].0 == u);
        }
        assert(self.index() =~= index_of(self@));
        assert forall|u1: Seq<char>, u2: Seq<char>|
            self@.contains_key(u1) && self@.contains_key(u2) && same_email(
                (#[trigger] self@[u1]).email,
                (#[trigger] self@[u2]).email,
            ) implies u1 == u2 by {
            // Two positions would hold the same email address.
            assert(position_of(entries, u1) == position_of(entries, u2));
        }
    }

    /// A sound registry has as many records, and as many entries in its
    /// index, as it has users.
    pub proof fn lemma_size(&self)
        requires
            self.wf(),
        ensures
            self@.dom().finite(),
            self@.dom().len() == self.entries().len(),
            self.index().dom().len() == self.entries().len(),
            self.index_pairs().len() == self.entries().len(),
    {
        self.lemma_index_mirrors_records();
        lemma_map_of_size(self.entries());
        lemma_map_of_size(self.index_pairs());
    }

    /// A registry without users.
    pub fn new() -> (registry: Registry)
        ensures
            registry.wf(),
            registry@ == Map::<Seq<char>, UserRecord>::empty(),
            registry.index() == Map::<Seq<char>, Seq<char>>::empty(),
            registry.entries().len() == 0,
    {
        Registry { user_map: UserMap::new(), records: Vec::new() }
    }

    /// The number of registered users.
    pub fn len(&self) -> (n: usize)
        ensures
            n == self.entries().len(),
    {
        self.records.len()
    }

    /// The index, as it is to be stored.
    pub fn user_map(&self) -> (map: &UserMap)
        requires
            self.wf(),
        ensures
            map.wf(),
            map.pairs() == self.index_pairs(),
            map@ == self.index(),
    {
        proof {
            self.lemma_index_mirrors_records();
        }
        &self.user_map
    }

    /// The records, in the order of registration.
    pub fn records(&self) -> (records: &Vec<UserData>)
        ensures
            records@.len() == self.entries().len(),
            forall|i: int|
                0 <= i < records@.len() ==> (#[trigger] self.entries()[i]) == (
                    records@[i]@.username,
                    records@[i]@,
                ),
    {
        &self.records
    }

    /// The record of `username`, if that user is registered.
    pub fn record(&self, username: &str) -> (found: Option<&UserData>)
        requires
            self.wf(),
        ensures
            match found {
                Some(record) => self@.contains_pair(username@, record@),
                None => !self@.contains_key(username@),
            },
    {
        proof {
            self.lemma_index_mirrors_records();
            lemma_map_of_pairs(self.entries());
        }
        match self.user_map.position(username) {
            Some(i) => Some(&self.records[i]),
            None => None,
        }
    }

    /// Whether some user is registered with the email address `email`,
    /// whatever the case of its letters.
    pub fn email_taken(&self, email: &str) -> (taken: bool)
        requires
            self.wf(),
        ensures
            taken == email_registered(self@, email@),
    {
        proof {
            self.lemma_index_mirrors_records();
        }
        let found = find_key_by_value(&self.user_map, to_lowercase(email));
        proof {
            if found is None {
                assert forall|u: Seq<char>| self@.contains_key(u) implies !same_email(
                    (#[trigger] self@[u]).email,
                    email@,
                ) by {
                    assert(self.user_map@[u] == self@[u].email);
                }
            }
        }
        found.is_some()
    }

    /// Adds `record` as a new user. The record is put in place before its
    /// entry in the index. Where the username or the email address is
    /// already registered the registry stays as it is.
    pub fn insert_record(&mut self, record: UserData) -> (outcome: Result<(), AuthError>)
        requires
            old(self).wf(),
        ensures
            final(self).wf(),
            match outcome {
                Ok(_) => can_register(old(self)@, record@.username, record@.email) && final(self)@
                    == old(self)@.insert(record@.username, record@) && final(self).index() == old(
                    self,
                ).index().insert(record@.username, record@.email) && final(self).entries() == old(
                    self,
                ).entries().push((record@.username, record@)),
                Err(e) => e == AuthError::DuplicateIdentity && !can_register(
                    old(self)@,
                    record@.username,
                    record@.email,
                ) && *final(self) == *old(self),
            },
    {
        proof {
            self.lemma_index_mirrors_records();
        }
        if self.user_map.contains_key(record.username.as_str()) || self.email_taken(
            record.email.as_str(),
        ) {
            return Err(AuthError::DuplicateIdentity);
        }
        let username = record.username.clone();
        let email = record.email.clone();
        let ghost before = self.entries();
        let ghost pairs = self.index_pairs();
        proof {
            lemma_map_of_pairs(before);
            lemma_map_of_push(before, record@.username, record@);
            lemma_map_of_push(pairs, record@.username, record@.email);
            assert forall|i: int| 0 <= i < before.len() implies !same_email(
                (#[trigger] before[i]).1.email,
                record@.email,
            ) by {
                assert(self@.contains_pair(before[i].0, before[i].1));
            }
        }
        self.records.push(record);
        self.user_map.insert(username, email);
        assert(self.entries() =~= before.push((record@.username, record@)));
        Ok(())
    }

    /// Registers a user with a password digest, the time of registration and
    /// a first session token, and gives the token back.
    pub fn register(
        &mut self,
        username: String,
        email: String,
        password_digest: String,
        date_created: String,
        session_key: String,
    ) -> (outcome: Result<String, AuthError>)
        requires
            old(self).wf(),
        ensures
            final(self).wf(),
            match outcome {
                Ok(token) => token@ == session_key@ && can_register(old(self)@, username@, email@)
                    && final(self)@ == old(self)@.insert(
                    username@,
                    new_record(username@, email@, password_digest@, date_created@, session_key@),
                ) && final(self).index() == old(self).index().insert(username@, email@)
                    && final(self).entries().len() == old(self).entries().len() + 1,
                Err(e) => e == AuthError::DuplicateIdentity && !can_register(
                    old(self)@,
                    username@,
                    email@,
                ) && *final(self) == *old(self),
            },
    {
        let token = session_key.clone();
        let record = UserData {
            username,
            email,
            password: password_digest,
            date_created,
            session_key: Some(session_key),
        };
        match self.insert_record(record) {
            Ok(_) => Ok(token),
            Err(e) => Err(e),
        }
    }

    /// The record of the user that `identifier` names: by email address,
    /// whatever the case of its letters, where `identifier` holds an `@`,
    /// and by username otherwise.
    pub fn lookup_by_email_or_username(&self, identifier: &str) -> (found: Result<
        &UserData,
        AuthError,
    >)
        requires
            self.wf(),
        ensures
            match found {
                Ok(record) => names_user(self@, identifier@, record@.username) && self@[record@.username]
                    == record@,
                Err(e) => e == AuthError::NotFound && forall|u: Seq<char>|
                    !names_user(self@, identifier@, u),
            },
    {
        proof {
            self.lemma_index_mirrors_records();
        }
        match email_lookup(&self.user_map, identifier) {
            Ok(username) => match self.record(username.as_str()) {
                Some(record) => Ok(record),
                None => Err(AuthError::NotFound),
            },
            Err(_) => Err(AuthError::NotFound),
        }
    }

    /// Checks a password digest against the one stored for `username` and,
    /// where they are equal, puts `new_session_key` in place of the user's
    /// session token and gives it back. The digests are compared without
    /// stopping at the first difference. A failed attempt leaves the
    /// registry as it is.
    pub fn verify_and_rotate_session(
        &mut self,
        username: &str,
        password_digest: &str,
        new_session_key: String,
    ) -> (outcome: Result<String, AuthError>)
        requires
            old(self).wf(),
        ensures
            final(self).wf(),
            final(self).index() == old(self).index(),
            match outcome {
                Ok(token) => token@ == new_session_key@ && old(self)@.contains_key(username@)
                    && old(self)@[username@].password == password_digest@ && final(self)@ == old(
                    self,
                )@.insert(username@, with_session(old(self)@[username@], new_session_key@)),
                Err(e) => *final(self) == *old(self) && if old(self)@.contains_key(username@) {
                    e == AuthError::InvalidCredentials && old(self)@[username@].password
                        != password_digest@
                } else {
                    e == AuthError::NotFound
                },
            },
    {
        proof {
            self.lemma_index_mirrors_records();
            lemma_map_of_pairs(self.entries());
        }
        let i = match self.user_map.position(username) {
            Some(i) => i,
            None => {
                return Err(AuthError::NotFound);
            },
        };
        let ghost before = self.entries();
        if !constant_time_eq(self.records[i].password.as_str(), password_digest) {
            return Err(AuthError::InvalidCredentials);
        }
        let token = new_session_key.clone();
        let updated = UserData {
            username: self.records[i].username.clone(),
            email: self.records[i].email.clone(),
            password: self.records[i].password.clone(),
            date_created: self.records[i].date_created.clone(),
            session_key: Some(new_session_key),
        };
        proof {
            lemma_map_of_update(before, i as int, updated@);
        }
        self.records[i] = updated;
        assert(self.entries() =~= before.update(i as int, (username@, updated@)));
        Ok(token)
    }
}

/// The record that registration writes.
pub open spec fn new_record(
    username: Seq<char>,
    email: Seq<char>,
    password_digest: Seq<char>,
    date_created: Seq<char>,
    session_key: Seq<char>,
) -> UserRecord {
    UserRecord {
        username,
        email,
        password: password_digest,
        date_created,
        session_key: Some(session_key),
    }
}

/// `username` is a registered user and the one that `identifier` names: by
/// email address, whatever the case of its letters, where `identifier`
/// holds an `@`, and by username otherwise.
pub open spec fn names_user(
    users: Map<Seq<char>, UserRecord>,
    identifier: Seq<char>,
    username: Seq<char>,
) -> bool {
    users.contains_key(username) && resolves_to(index_of(users), identifier, username)
}

/// An identifier names at most one user of a sound registry.
pub proof fn lemma_names_one_user(
    users: Map<Seq<char>, UserRecord>,
    identifier: Seq<char>,
    u1: Seq<char>,
    u2: Seq<char>,
)
    requires
        users_wf(users),
        names_user(users, identifier, u1),
        names_user(users, identifier, u2),
    ensures
        u1 == u2,
{
}

/// Registration keeps a registry sound: after a user is registered under a
/// free username and a free email address, each record still stands under
/// its own username and no two users have the same email address.
pub proof fn lemma_registration_keeps_sound(users: Map<Seq<char>, UserRecord>, record: UserRecord)
    requires
        users_wf(users),
        can_register(users, record.username, record.email),
    ensures
        users_wf(users.insert(record.username, record)),
{
    let after = users.insert(record.username, record);
    assert forall|u1: Seq<char>, u2: Seq<char>|
        after.contains_key(u1) && after.contains_key(u2) && same_email(
            (#[trigger] after[u1]).email,
            (#[trigger] after[u2]).email,
        ) implies u1 == u2 by {
        // The email address of the new user was free, so both were users before.
        if u1 != record.username && u2 != record.username {
            assert(same_email(users[u1].email, users[u2].email));
        }
    }
}

/// A username can be registered once: after a user is registered, the same
/// username cannot be registered again, whatever the email address.
pub proof fn lemma_username_registers_once(
    users: Map<Seq<char>, UserRecord>,
    record: UserRecord,
    email: Seq<char>,
)
    ensures
        !can_register(users.insert(record.username, record), record.username, email),
{
}

/// An email address can be registered once, whatever the case of its
/// letters: after a user is registered, no username can be registered with
/// an email address that differs from that user's at most in case.
pub proof fn lemma_email_registers_once(
    users: Map<Seq<char>, UserRecord>,
    record: UserRecord,
    username: Seq<char>,
    email: Seq<char>,
)
    requires
        same_email(email, record.email),
    ensures
        !can_register(users.insert(record.username, record), username, email),
{
    let after = users.insert(record.username, record);
    assert(after.contains_key(record.username) && same_email(
        after[record.username].email,
        email,
    ));
}

/// A registered user is found by email address, whatever the case of its
/// letters: after a user is registered in a sound registry, an identifier
/// that holds an `@` and differs from the user's email address at most in
/// case names that user and no other.
pub proof fn lemma_lookup_by_email_after_registration(
    users: Map<Seq<char>, UserRecord>,
    record: UserRecord,
    identifier: Seq<char>,
)
    requires
        users_wf(users),
        can_register(users, record.username, record.email),
        identifier.contains('@'),
        same_email(identifier, record.email),
    ensures
        names_user(users.insert(record.username, record), identifier, record.username),
        forall|u: Seq<char>| #[trigger]
            names_user(users.insert(record.username, record), identifier, u) ==> u
                == record.username,
{
    let after = users.insert(record.username, record);
    lemma_registration_keeps_sound(users, record);
    assert forall|u: Seq<char>| #[trigger] names_user(after, identifier, u) implies u
        == record.username by {
        lemma_names_one_user(after, identifier, u, record.username);
    }
}

/// A new session token keeps a registry sound and changes nothing but the
/// token: the user's other fields, the other users and the index stay as
/// they are.
pub proof fn lemma_rotation_keeps_sound(
    users: Map<Seq<char>, UserRecord>,
    username: Seq<char>,
    token: Seq<char>,
)
    requires
        users_wf(users),
        users.contains_key(username),
    ensures
        users_wf(users.insert(username, with_session(users[username], token))),
        index_of(users.insert(username, with_session(users[username], token))) == index_of(users),
        users.insert(username, with_session(users[username], token))[username].password
            == users[username].password,
{
    let after = users.insert(username, with_session(users[username], token));
    assert forall|u: Seq<char>| after.contains_key(u) implies (#[trigger] after[u]).email
        == users[u].email by {}
    assert(index_of(after) =~= index_of(users));
}

} // verus!
