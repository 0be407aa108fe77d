//! A repository that takes any storage behind a pointer.

use crate::dispatch::{Storage, User};
use std::marker::PhantomData;
use vstd::prelude::*;

verus! {

/// Users kept in some storage, under keys of kind `K`.
#[verifier::reject_recursive_types(K)]
pub struct UserRepository<K> {
    storage: Box<dyn Storage<K, User>>,
    _data: PhantomData<K>,
}

impl<K> UserRepository<K> {
    /// The users that the repository holds, by key.
    pub closed spec fn users(&self) -> Map<K, User> {
        self.storage.held()
    }

    /// A repository on top of `storage`. Behind the pointer the storage is
    /// known by what its operations ensure only, so nothing is said here of
    /// what the new repository holds.
    pub fn new<S>(storage: S) -> (repo: Self) where S: Storage<K, User> + 'static {
        Self { storage: Box::new(storage), _data: PhantomData }
    }

    /// The user under `key`, if there is one.
    pub fn get(&self, key: &K) -> (val: Option<&User>)
        ensures
            val is Some <==> self.users().contains_key(*key),
            val matches Some(v) ==> *v == self.users()[*key],
    {
        self.storage.get(key)
    }

    /// Keeps `val` under `key`, in place of who was there.
    pub fn set(&mut self, key: K, val: User)
        ensures
            final(self).users() == old(self).users().insert(key, val),
    {
        self.storage.set(key, val);
    }

    /// Takes the user under `key` out, if there is one.
    pub fn remove(&mut self, key: &K) -> (val: Option<User>)
        ensures
            val is Some <==> old(self).users().contains_key(*key),
            val matches Some(v) ==> v == old(self).users()[*key],
            final(self).users() == old(self).users().remove(*key),
    {
        self.storage.remove(key)
    }
}

} // verus!
