//! Users kept in a persistent ordered map, and the three ways to look them
//! up: by identifier, by several identifiers, and by a piece of their
//! nickname.

use crate::text::chars_of;
use im::{OrdMap, OrdSet};
use vstd::prelude::*;

verus! {

/// What identifies a user.
pub type UserId = u64;

/// A user.
#[derive(Debug, PartialEq, Eq)]
pub struct User {
    nickname: String,
}

impl View for User {
    type V = Seq<char>;

    closed spec fn view(&self) -> Seq<char> {
        self.nickname@
    }
}

impl Clone for User {
    fn clone(&self) -> (copy: Self)
        ensures
            copy@ == self@,
    {
        User { nickname: self.nickname.clone() }
    }
}

impl User {
    /// A user who goes by `nickname`.
    pub fn new(nickname: &str) -> (user: Self)
        ensures
            user@ == nickname@,
    {
        User { nickname: nickname.to_owned() }
    }

    /// The nickname.
    pub fn nickname(&self) -> (nickname: &str)
        ensures
            nickname@ == self@,
    {
        self.nickname.as_str()
    }
}

/// The persistent ordered map of the `im` crate.
#[verifier::external_type_specification]
#[verifier::external_body]
#[verifier::reject_recursive_types(K)]
#[verifier::reject_recursive_types(V)]
pub struct ExOrdMap<K, V>(OrdMap<K, V>);

/// The persistent ordered set of the `im` crate.
#[verifier::external_type_specification]
#[verifier::external_body]
#[verifier::reject_recursive_types(A)]
pub struct ExOrdSet<A>(OrdSet<A>);

/// Users by identifier.
pub type UserMap = OrdMap<UserId, User>;

/// Identifiers of users.
pub type UserIds = OrdSet<UserId>;

/// The nicknames of the users that a map holds, by identifier.
pub uninterp spec fn users_in(map: UserMap) -> Map<u64, Seq<char>>;

/// The identifiers that a set holds.
pub uninterp spec fn ids_in(set: UserIds) -> Set<u64>;

/// `im::OrdMap::new`: a map that holds nothing.
#[verifier::external_body]
fn map_new() -> (fresh: UserMap)
    ensures
        users_in(fresh).is_empty(),
{
    OrdMap::new()
}

/// `im::OrdMap::insert`: puts `user` under `id`, in place of what was there.
///
/// Not proved: that the map afterwards holds `user` under `id` and is
/// otherwise as before.
#[verifier::external_body]
fn map_insert(map: &mut UserMap, id: u64, user: User)
    ensures
        users_in(*final(map)) == users_in(*old(map)).insert(id, user@),
{
    map.insert(id, user);
}

/// `im::OrdMap::get`: the user under `id`, if there is one.
///
/// Not proved: that the answer is the user that the map holds under `id`,
/// and `None` exactly when it holds none.
#[verifier::external_body]
fn map_get(map: &UserMap, id: u64) -> (user: Option<&User>)
    ensures
        user is Some <==> users_in(*map).contains_key(id),
        user matches Some(u) ==> u@ == users_in(*map)[id],
{
    map.get(&id)
}

/// `im::OrdMap::keys`, collected: the identifiers under which the map holds
/// a user.
///
/// Not proved: that the identifiers that come are those of the map.
#[verifier::external_body]
fn map_keys(map: &UserMap) -> (ids: Vec<u64>)
    ensures
        forall|id: u64| ids@.contains(id) <==> users_in(*map).contains_key(id),
{
    map.keys().copied().collect()
}

/// `im::OrdSet::new`: a set that holds nothing.
#[verifier::external_body]
fn set_new() -> (fresh: UserIds)
    ensures
        ids_in(fresh) == Set::<u64>::empty(),
{
    OrdSet::new()
}

/// `im::OrdSet::insert`: puts `id` into the set.
///
/// Not proved: that the set afterwards holds `id` and what it held before.
#[verifier::external_body]
fn set_insert(set: &mut UserIds, id: u64)
    ensures
        ids_in(*final(set)) == ids_in(*old(set)).insert(id),
{
    set.insert(id);
}

/// Whether `needle` occurs in `hay` as a run of neighbouring characters.
pub open spec fn occurs_in(needle: Seq<char>, hay: Seq<char>) -> bool {
    exists|at: int| occurs_at(needle, hay, at)
}

/// Whether `needle` occurs in `hay` from position `at` on.
pub open spec fn occurs_at(needle: Seq<char>, hay: Seq<char>, at: int) -> bool {
    0 <= at <= hay.len() - needle.len() && hay.subrange(at, at + needle.len()) == needle
}

/// The users of `users` whose identifier is among `ids`.
pub open spec fn chosen(users: Map<u64, Seq<char>>, ids: Seq<u64>) -> Map<u64, Seq<char>> {
    users.restrict(ids.to_set())
}

/// The identifiers of the users of `users` in whose nickname `piece`
/// occurs.
pub open spec fn named_like(users: Map<u64, Seq<char>>, piece: Seq<char>) -> Set<u64> {
    Set::new(|id: u64| users.contains_key(id) && occurs_in(piece, users[id]))
}

fn matches_at(hay: &Vec<char>, needle: &Vec<char>, at: usize) -> (found: bool)
    requires
        at + needle@.len() <= hay@.len(),
    ensures
        found == occurs_at(needle@, hay@, at as int),
{
    let len = hay.len();
    let mut i: usize = 0;
    while i < needle.len()
        invariant
            i <= needle@.len(),
            at + needle@.len() <= hay@.len() <= usize::MAX,
            forall|j: int| 0 <= j < i ==> hay@[at + j] == needle@[j],
        decreases needle@.len() - i,
    {
        if hay[at + i] != needle[i] {
            assert(hay@.subrange(at as int, at + needle@.len())[i as int] != needle@[i as int]);
            return false;
        }
        i += 1;
    }
    assert(hay@.subrange(at as int, at + needle@.len()) =~= needle@);
    true
}

/// Whether `needle` occurs in `hay`.
pub fn contains_text(hay: &str, needle: &str) -> (found: bool)
    ensures
        found == occurs_in(needle@, hay@),
{
    let text = chars_of(hay);
    let piece = chars_of(needle);
    if piece.len() > text.len() {
        assert(forall|at: int| !occurs_at(needle@, hay@, at));
        return false;
    }
    let last = text.len() - piece.len();
    let mut at: usize = 0;
    loop
        invariant
            text@ == hay@,
            piece@ == needle@,
            last == hay@.len() - needle@.len(),
            at <= last,
            forall|before: int| 0 <= before < at ==> !occurs_at(needle@, hay@, before),
        decreases last - at,
    {
        if matches_at(&text, &piece, at) {
            assert(occurs_at(needle@, hay@, at as int));
            return true;
        }
        if at == last {
            assert(forall|any: int| !occurs_at(needle@, hay@, any));
            return false;
        }
        at += 1;
    }
}

/// The three ways to look users up.
pub trait UserRepository {
    /// The nicknames of the users that the repository holds, by
    /// identifier.
    spec fn users(&self) -> Map<u64, Seq<char>>;

    /// The user under `id`, if there is one.
    fn get_user(&self, id: UserId) -> (user: Option<User>)
        ensures
            user is Some <==> self.users().contains_key(id),
            user matches Some(u) ==> u@ == self.users()[id],
    ;

    /// The users whose identifier is among `ids`.
    fn get_users(&self, ids: &[UserId]) -> (found: UserMap)
        ensures
            users_in(found) == chosen(self.users(), ids@),
    ;

    /// The identifiers of the users in whose nickname `nickname` occurs.
    fn get_ids_by_nickname(&self, nickname: &str) -> (ids: UserIds)
        ensures
            ids_in(ids) == named_like(self.users(), nickname@),
    ;
}

impl UserRepository for UserMap {
    open spec fn users(&self) -> Map<u64, Seq<char>> {
        users_in(*self)
    }

    fn get_user(&self, id: UserId) -> (user: Option<User>) {
        match map_get(self, id) {
            Some(user) => Some(user.clone()),
            None => None,
        }
    }

    fn get_users(&self, ids: &[UserId]) -> (found: UserMap) {
        let mut found = map_new();
        let mut i: usize = 0;
        assert(users_in(found) =~= chosen(users_in(*self), ids@.take(0)));
        while i < ids.len()
            invariant
                i <= ids@.len(),
                users_in(found) == chosen(users_in(*self), ids@.take(i as int)),
            decreases ids@.len() - i,
        {
            let id = ids[i];
            proof {
                assert(ids@.take(i as int + 1) =~= ids@.take(i as int).push(id));
                ids@.take(i as int).lemma_push_to_set_commute(id);
            }
            if let Some(user) = map_get(self, id) {
                map_insert(&mut found, id, user.clone());
            }
            assert(users_in(found) =~= chosen(users_in(*self), ids@.take(i as int + 1)));
            i += 1;
        }
        assert(ids@.take(i as int) =~= ids@);
        found
    }

    fn get_ids_by_nickname(&self, nickname: &str) -> (ids: UserIds) {
        let keys = map_keys(self);
        let mut ids = set_new();
        let mut i: usize = 0;
        while i < keys.len()
            invariant
                i <= keys@.len(),
                forall|id: u64| keys@.contains(id) <==> users_in(*self).contains_key(id),
                forall|id: u64| #[trigger]
                    ids_in(ids).contains(id) <==> keys@.take(i as int).contains(id) && occurs_in(
                        nickname@,
                        users_in(*self)[id],
                    ),
            decreases keys@.len() - i,
        {
            let id = keys[i];
            let ghost seen = keys@.take(i as int);
            let ghost before = ids_in(ids);
            proof {
                assert(keys@.contains(id));
                assert(keys@.take(i as int + 1) =~= seen.push(id));
                assert forall|other: u64| #[trigger]
                    seen.push(id).contains(other) <==> seen.contains(other) || other == id by {
                    if seen.contains(other) {
                        let at = choose|at: int| 0 <= at < seen.len() && seen[at] == other;
                        assert(seen.push(id)[at] == other);
                    }
                    if other == id {
                        assert(seen.push(id)[seen.len() as int] == id);
                    }
                }
            }
            if let Some(user) = map_get(self, id) {
                if contains_text(user.nickname(), nickname) {
                    set_insert(&mut ids, id);
                }
            }
            proof {
                assert forall|other: u64| #[trigger]
                    ids_in(ids).contains(other) <==> seen.push(id).contains(other) && occurs_in(
                        nickname@,
                        users_in(*self)[other],
                    ) by {
                    assert(before.contains(other) <==> seen.contains(other) && occurs_in(
                        nickname@,
                        users_in(*self)[other],
                    ));
                    assert(seen.push(id).contains(other) <==> seen.contains(other) || other == id);
                }
            }
            i += 1;
        }
        assert(keys@.take(i as int) =~= keys@);
        assert(ids_in(ids) =~= named_like(users_in(*self), nickname@));
        ids
    }
}

} // verus!
