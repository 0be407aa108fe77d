//! Commands and the handlers that carry them out on a repository of users.

use crate::dispatch::{Storage, User};
use std::marker::PhantomData;
use vstd::prelude::*;

verus! {

/// A place that keeps users under keys of kind `K`.
pub trait UserRepository<K> {
    /// The users that the repository holds, by key. A repository that says
    /// nothing else is taken to hold nobody.
    open spec fn users(&self) -> Map<K, User> {
        Map::empty()
    }

    /// Keeps `val` under `key`, in place of who was there.
    fn set(&mut self, key: K, val: User)
        ensures
            final(self).users() == old(self).users().insert(key, val),
    ;

    /// The user under `key`, if there is one.
    fn get(&self, key: &K) -> (val: Option<&User>)
        ensures
            val is Some <==> self.users().contains_key(*key),
            val matches Some(v) ==> *v == self.users()[*key],
    ;

    /// Takes the user under `key` out, if there is one.
    fn remove(&mut self, key: &K) -> (val: Option<User>)
        ensures
            val is Some <==> old(self).users().contains_key(*key),
            val matches Some(v) ==> v == old(self).users()[*key],
            final(self).users() == old(self).users().remove(*key),
    ;
}

/// Something that can be asked of a handler.
pub trait Command {

}

/// Who carries out commands of kind `C`.
pub trait CommandHandler<C: Command> {
    /// What the handler works on.
    type Context: ?Sized;

    /// What the handler answers.
    type Result;

    /// Carries out `cmd` on `ctx`.
    fn handle_command(&self, cmd: &C, ctx: &mut Self::Context) -> Self::Result;
}

/// The command to enter a user under `id`.
pub struct CreateUser {
    pub id: u64,
}

impl Command for CreateUser {

}

/// The error of a command on users.
#[derive(Debug)]
pub struct UserError;

impl UserError {
    /// The words that describe the error.
    pub fn message(&self) -> (text: &'static str)
        ensures
            text@ == "user error"@,
    {
        "user error"
    }
}

impl CommandHandler<CreateUser> for User {
    type Context = dyn UserRepository<u64>;

    type Result = Result<(), UserError>;

    /// Enters the user into the repository under the identifier that the
    /// command names, in place of who was there.
    fn handle_command(&self, cmd: &CreateUser, ctx: &mut Self::Context) -> (done: Self::Result)
        ensures
            done is Ok,
            final(ctx).users() == old(ctx).users().insert(cmd.id, *self),
    {
        ctx.set(cmd.id, self.clone());

        Ok(())
    }
}

/// Users kept in a storage of kind `S`, under keys of kind `K`.
pub struct StaticUserRepository<K, S> {
    storage: S,
    _data: PhantomData<K>,
}

impl<K, S: Storage<K, User>> StaticUserRepository<K, S> {
    /// What the storage underneath holds.
    pub closed spec fn stored(&self) -> Map<K, User> {
        self.storage.held()
    }

    /// A repository on top of `storage`.
    pub fn new(storage: S) -> (repo: Self)
        ensures
            repo.users() == storage.held(),
    {
        Self { storage, _data: PhantomData }
    }
}

impl<K, S: Storage<K, User>> UserRepository<K> for StaticUserRepository<K, S> {
    open spec fn users(&self) -> Map<K, User> {
        self.stored()
    }

    fn get(&self, key: &K) -> (val: Option<&User>) {
        self.storage.get(key)
    }

    fn set(&mut self, key: K, val: User) {
        self.storage.set(key, val);
    }

    fn remove(&mut self, key: &K) -> (val: Option<User>) {
        self.storage.remove(key)
    }
}

} // verus!
