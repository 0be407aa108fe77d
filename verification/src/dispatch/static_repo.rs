//! A repository that knows the kind of its storage.

use crate::dispatch::{Storage, User};
use std::marker::PhantomData;
use vstd::prelude::*;

verus! {

/// Users kept in a storage of kind `S`, under keys of kind `K`.
pub struct UserRepository<K, S> {
    storage: S,
    _data: PhantomData<K>,
}

impl<K, S: Storage<K, User>> UserRepository<K, S> {
    /// The users that the repository holds, by key.
    pub closed spec fn users(&self) -> Map<K, User> {
        self.storage.held()
    }

    /// A repository on top of `storage`.
    pub fn new(storage: S) -> (repo: Self)
        ensures
            repo.users() == storage.held(),
    {
        Self { storage, _data: PhantomData }
    }

    /// The user under `key`, if there is one.
    pub fn get(&self, key: &K) -> (val: Option<&User>)
        ensures
            val is Some <==> self.users().contains_key(*key),
            val matches Some(v) ==> *v == self.users()[*key],
    {
        self.storage.get(key)
    }

    /// Keeps `val` under `key`, in place of who was there.
    pub fn set(&mut self, key: K, val: User)
        ensures
            final(self).users() == old(self).users().insert(key, val),
    {
        self.storage.set(key, val);
    }

    /// Takes the user under `key` out, if there is one.
    pub fn remove(&mut self, key: &K) -> (val: Option<User>)
        ensures
            val is Some <==> old(self).users().contains_key(*key),
            val matches Some(v) ==> v == old(self).users()[*key],
            final(self).users() == old(self).users().remove(*key),
    {
        self.storage.remove(key)
    }
}

} // verus!
