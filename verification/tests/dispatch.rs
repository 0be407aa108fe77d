use std::collections::HashMap;
use std::hash::Hash;
use vending_machine::dispatch::{dynamic_repo, static_repo, Storage, User};
use vending_machine::sized::{
    CommandHandler, CreateUser, StaticUserRepository, UserError, UserRepository,
};

struct UserStorage<K>(HashMap<K, User>);

impl<K> Storage<K, User> for UserStorage<K>
where
    K: Eq + Hash,
{
    fn set(&mut self, key: K, val: User) {
        self.0.insert(key, val);
    }

    fn get(&self, key: &K) -> Option<&User> {
        self.0.get(key)
    }

    fn remove(&mut self, key: &K) -> Option<User> {
        self.0.remove(key)
    }
}

#[test]
fn test_static_repo() {
    let key = String::from("valid");
    let storage = UserStorage::<String>(HashMap::new());
    let user = User {
        id: 1,
        email: "test@test.com".into(),
        activated: false,
    };
    let mut repo = static_repo::UserRepository::new(storage);
    assert!(repo.get(&key).is_none());

    repo.set(key.clone(), user);
    assert!(repo.get(&key).is_some());

    repo.remove(&key);
    assert!(repo.get(&key).is_none());
}

#[test]
fn test_dynamic_repo() {
    let key = String::from("valid");
    let storage = UserStorage::<String>(HashMap::new());
    let user = User {
        id: 1,
        email: "test@test.com".into(),
        activated: false,
    };
    let mut repo = dynamic_repo::UserRepository::new(storage);
    assert!(repo.get(&key).is_none());

    repo.set(key.clone(), user);
    assert!(repo.get(&key).is_some());

    repo.remove(&key);
    assert!(repo.get(&key).is_none());
}

#[test]
fn test_create_user() {
    let storage = UserStorage::<u64>(HashMap::new());
    let mut repo = StaticUserRepository::new(storage);
    let user_id = 1_u64;
    let user = User {
        id: user_id,
        email: "test@test.com".into(),
        activated: false,
    };
    let crate_user = CreateUser { id: user_id };

    assert!(repo.get(&user_id).is_none());
    let _ = user.handle_command(&crate_user, &mut repo);
    assert!(repo.get(&user_id).is_some());
}

#[test]
fn repositories_hand_back_what_was_stored() {
    let first = User {
        id: 1,
        email: "first@test.com".into(),
        activated: false,
    };
    let second = User {
        id: 2,
        email: "second@test.com".into(),
        activated: true,
    };

    let mut fixed = static_repo::UserRepository::new(UserStorage::<u8>(HashMap::new()));
    let mut boxed = dynamic_repo::UserRepository::new(UserStorage::<u8>(HashMap::new()));
    fixed.set(7, first.clone());
    fixed.set(7, second.clone());
    boxed.set(7, first.clone());
    boxed.set(8, second.clone());

    assert_eq!(fixed.get(&7), Some(&second));
    assert_eq!(fixed.remove(&7), Some(second.clone()));
    assert_eq!(fixed.remove(&7), None);
    assert_eq!(boxed.get(&7), Some(&first));
    assert_eq!(boxed.remove(&8), Some(second));
    assert_eq!(boxed.get(&8), None);
    assert_eq!(boxed.get(&7), Some(&first));
}

#[test]
fn create_user_replaces_who_was_there() {
    let mut repo = StaticUserRepository::new(UserStorage::<u64>(HashMap::new()));
    let old = User {
        id: 5,
        email: "old@test.com".into(),
        activated: true,
    };
    let new = User {
        id: 5,
        email: "new@test.com".into(),
        activated: false,
    };
    assert!(old.handle_command(&CreateUser { id: 5 }, &mut repo).is_ok());
    assert!(new.handle_command(&CreateUser { id: 5 }, &mut repo).is_ok());
    assert_eq!(repo.get(&5), Some(&new));
    assert_eq!(repo.remove(&5), Some(new));
    assert!(repo.get(&5).is_none());
    assert_eq!(UserError.message(), "user error");
}
