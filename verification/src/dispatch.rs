//! Storages, and two repositories of users built on them: one that knows
//! the kind of its storage, and one that takes any storage behind a
//! pointer.

use vstd::prelude::*;

pub mod dynamic_repo;
pub mod static_repo;

verus! {

/// A place that keeps values under keys.
pub trait Storage<K, V> {
    /// What the storage holds, by key. A storage that says nothing else is
    /// taken to hold nothing.
    open spec fn held(&self) -> Map<K, V> {
        Map::empty()
    }

    /// Keeps `val` under `key`, in place of what was there.
    fn set(&mut self, key: K, val: V)
        ensures
            final(self).held() == old(self).held().insert(key, val),
    ;

    /// The value under `key`, if there is one.
    fn get(&self, key: &K) -> (val: Option<&V>)
        ensures
            val is Some <==> self.held().contains_key(*key),
            val matches Some(v) ==> *v == self.held()[*key],
    ;

    /// Takes the value under `key` out, if there is one.
    fn remove(&mut self, key: &K) -> (val: Option<V>)
        ensures
            val is Some <==> old(self).held().contains_key(*key),
            val matches Some(v) ==> v == old(self).held()[*key],
            final(self).held() == old(self).held().remove(*key),
    ;
}

/// A user of the service.
#[derive(Debug, PartialEq, Eq, Hash)]
pub struct User {
    pub id: u64,
    pub email: String,
    pub activated: bool,
}

impl Clone for User {
    fn clone(&self) -> (copy: Self)
        ensures
            copy == *self,
    {
        User { id: self.id, email: self.email.clone(), activated: self.activated }
    }
}

} // verus!
