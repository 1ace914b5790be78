//! The index of the registry: which email belongs to which username.

use crate::error::AuthError;
use crate::keyed::{
    distinct_keys, has_key, lemma_map_of_pairs, lemma_map_of_push, lemma_map_of_update, map_of,
    position_of,
};
use crate::text::{contains_at, lowercase, same_email, text_eq, to_lowercase};
use vstd::prelude::*;

verus! {

/// A map from username to email, kept in the order in which the usernames
/// were added.
#[derive(Debug)]
pub struct UserMap {
    entries: Vec<(String, String)>,
}

impl View for UserMap {
    type V = Map<Seq<char>, Seq<char>>;

    /// The map from each username to its email.
    open spec fn view(&self) -> Map<Seq<char>, Seq<char>> {
        map_of(self.pairs())
    }
}

impl UserMap {
    /// The pairs of username and email, in the order in which they were
    /// added.
    pub closed spec fn pairs(&self) -> Seq<(Seq<char>, Seq<char>)> {
        Seq::new(self.entries.len() as nat, |i: int| (self.entries[i].0@, self.entries[i].1@))
    }

    /// No username occurs twice.
    pub open spec fn wf(&self) -> bool {
        distinct_keys(self.pairs())
    }

    /// A map without entries.
    pub fn new() -> (map: UserMap)
        ensures
            map.wf(),
            map.pairs() == Seq::<(Seq<char>, Seq<char>)>::empty(),
            map@ == Map::<Seq<char>, Seq<char>>::empty(),
    {
        UserMap { entries: Vec::new() }
    }

    /// The number of entries.
    pub fn len(&self) -> (n: usize)
        ensures
            n == self.pairs().len(),
    {
        self.entries.len()
    }

    /// The username of the entry at `i`.
    pub fn key_at(&self, i: usize) -> (key: &String)
        requires
            i < self.pairs().len(),
        ensures
            key@ == self.pairs()[i as int].0,
    {
        &self.entries[i].0
    }

    /// The email of the entry at `i`.
    pub fn value_at(&self, i: usize) -> (value: &String)
        requires
            i < self.pairs().len(),
        ensures
            value@ == self.pairs()[i as int].1,
    {
        &self.entries[i].1
    }

    /// Where the entry of `key` stands, if there is one.
    pub fn position(&self, key: &str) -> (found: Option<usize>)
        ensures
            match found {
                Some(i) => i < self.pairs().len() && self.pairs()[i as int].0 == key@,
                None => !has_key(self.pairs(), key@),
            },
    {
        for i in 0..self.entries.len()
            invariant
                forall|j: int| 0 <= j < i ==> (#[trigger] self.pairs()[j]).0 != key@,
        {
            if text_eq(self.entries[i].0.as_str(), key) {
                return Some(i);
            }
        }
        None
    }

    /// Whether `key` has an entry.
    pub fn contains_key(&self, key: &str) -> (found: bool)
        ensures
            found == self@.contains_key(key@),
    {
        self.position(key).is_some()
    }

    /// The email of `key`, if `key` has an entry.
    pub fn get(&self, key: &str) -> (value: Option<&String>)
        requires
            self.wf(),
        ensures
            match value {
                Some(email) => self@.contains_pair(key@, email@),
                None => !self@.contains_key(key@),
            },
    {
        match self.position(key) {
            Some(i) => {
                proof {
                    lemma_map_of_pairs(self.pairs());
                }
                Some(&self.entries[i].1)
            },
            None => None,
        }
    }

    /// Gives `key` the email `value`, in place of the one it had or as a new
    /// entry at the end.
    pub fn insert(&mut self, key: String, value: String)
        requires
            old(self).wf(),
        ensures
            final(self).wf(),
            final(self)@ == old(self)@.insert(key@, value@),
            match old(self).spec_position(key@) {
                Some(i) => final(self).pairs() == old(self).pairs().update(i, (key@, value@)),
                None => final(self).pairs() == old(self).pairs().push((key@, value@)),
            },
    {
        match self.position(key.as_str()) {
            Some(i) => {
                proof {
                    lemma_map_of_update(self.pairs(), i as int, value@);
                }
                self.entries[i] = (key, value);
                assert(self.pairs() =~= old(self).pairs().update(i as int, (key@, value@)));
            },
            None => {
                proof {
                    lemma_map_of_push(self.pairs(), key@, value@);
                }
                self.entries.push((key, value));
                assert(self.pairs() =~= old(self).pairs().push((key@, value@)));
            },
        }
    }

    /// Where the entry of `key` stands, if there is one.
    pub open spec fn spec_position(&self, key: Seq<char>) -> Option<int> {
        if has_key(self.pairs(), key) {
            Some(position_of(self.pairs(), key))
        } else {
            None
        }
    }
}

/// Some username of `map` has an email that is the address `email`.
pub open spec fn email_known(map: Map<Seq<char>, Seq<char>>, email: Seq<char>) -> bool {
    exists|key: Seq<char>| map.contains_key(key) && same_email(#[trigger] map[key], email)
}

/// `username` is the user that `identifier` names: the user with that email
/// address where `identifier` holds an `@`, and `identifier` itself
/// otherwise.
pub open spec fn resolves_to(
    map: Map<Seq<char>, Seq<char>>,
    identifier: Seq<char>,
    username: Seq<char>,
) -> bool {
    if identifier.contains('@') {
        map.contains_key(username) && same_email(map[username], identifier)
    } else {
        username == identifier
    }
}

/// A key of `map` whose value, put in lower case, is `target_value`.
pub fn find_key_by_value(map: &UserMap, target_value: String) -> (found: Option<String>)
    requires
        map.wf(),
    ensures
        match found {
            Some(key) => map@.contains_key(key@) && lowercase(map@[key@]) == target_value@,
            None => forall|key: Seq<char>|
                map@.contains_key(key) ==> lowercase(#[trigger] map@[key]) != target_value@,
        },
{
    proof {
        lemma_map_of_pairs(map.pairs());
    }
    let n = map.len();
    for i in 0..n
        invariant
            n == map.pairs().len(),
            map.wf(),
            forall|j: int| 0 <= j < i ==> lowercase((#[trigger] map.pairs()[j]).1) != target_value@,
    {
        let lower = to_lowercase(map.value_at(i).as_str());
        if lower == target_value {
            let key = map.key_at(i).clone();
            proof {
                lemma_map_of_pairs(map.pairs());
            }
            return Some(key);
        }
    }
    None
}

/// The username that `email` names: the user registered with that email
/// address, whatever the case of its letters, where `email` holds an `@`,
/// and `email` itself otherwise.
pub fn email_lookup(user_map: &UserMap, email: &str) -> (resolved: Result<String, AuthError>)
    requires
        user_map.wf(),
    ensures
        match resolved {
            Ok(username) => resolves_to(user_map@, email@, username@),
            Err(e) => e == AuthError::NotFound && email@.contains('@') && !email_known(
                user_map@,
                email@,
            ),
        },
{
    if contains_at(email) {
        match find_key_by_value(user_map, to_lowercase(email)) {
            Some(username) => Ok(username),
            None => Err(AuthError::NotFound),
        }
    } else {
        Ok(email.to_owned())
    }
}

} // verus!
