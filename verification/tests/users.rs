use im::{OrdMap, OrdSet};
use std::collections::BTreeMap;
use vending_machine::declarative::btreemap;
use vending_machine::users::{contains_text, User, UserId, UserMap, UserRepository};

const USER_1_ID: u64 = 1_u64;
const USER_2_ID: u64 = 2_u64;
const USER_3_ID: u64 = 3_u64;

fn get_etalon() -> UserMap {
    let mut map = OrdMap::new();
    map.insert(USER_1_ID, get_user1());
    map.insert(USER_2_ID, get_user2());
    map.insert(USER_3_ID, get_user3());
    map
}

fn get_user1() -> User {
    User::new("one")
}

fn get_user2() -> User {
    User::new("two")
}

fn get_user3() -> User {
    User::new("three")
}

#[test]
fn test_get_user() {
    let map = get_etalon();

    assert!(map.get_user(0_u64).is_none());

    assert_eq!(map.get_user(USER_1_ID), Some(get_user1()));
    assert_eq!(map.get_user(USER_2_ID), Some(get_user2()));
    assert_eq!(map.get_user(USER_3_ID), Some(get_user3()));
}

#[test]
fn test_get_users() {
    let map = get_etalon();
    let mut etalon_search_map = OrdMap::new();
    etalon_search_map.insert(USER_1_ID, get_user1());
    etalon_search_map.insert(USER_2_ID, get_user2());

    assert_eq!(map.get_users(&[USER_1_ID, USER_2_ID]), etalon_search_map);
}

#[test]
fn test_get_ids_by_nickname() {
    let map = get_etalon();
    let mut etalon_search_set = OrdSet::new();
    etalon_search_set.insert(USER_2_ID);
    etalon_search_set.insert(USER_3_ID);

    assert_eq!(map.get_ids_by_nickname("t"), etalon_search_set);
}

#[test]
fn users_that_are_not_there_are_left_out() {
    let map = get_etalon();
    let found = map.get_users(&[USER_3_ID, 7, USER_3_ID, 9, USER_1_ID]);
    let ids: Vec<UserId> = found.keys().copied().collect();
    assert_eq!(ids, vec![USER_1_ID, USER_3_ID]);
    assert_eq!(found.get(&USER_3_ID), Some(&get_user3()));
    assert!(map.get_users(&[]).is_empty());
    assert_eq!(map.len(), 3);
}

#[test]
fn nicknames_are_searched_for_a_piece() {
    let map = get_etalon();
    let ids = |piece: &str| -> Vec<UserId> {
        map.get_ids_by_nickname(piece).into_iter().collect()
    };
    assert_eq!(ids(""), vec![1, 2, 3]);
    assert_eq!(ids("o"), vec![1, 2]);
    assert_eq!(ids("ee"), vec![3]);
    assert_eq!(ids("three"), vec![3]);
    assert_eq!(ids("threes"), Vec::<UserId>::new());
    assert_eq!(ids("T"), Vec::<UserId>::new());
    assert_eq!(get_user3().nickname(), "three");
}

#[test]
fn text_search_agrees_with_the_standard_library() {
    for hay in ["", "a", "ab", "abab", "aab", "héllo wörld", "xxxy"] {
        for needle in ["", "a", "b", "ab", "ba", "aab", "abc", "ö", "xxy", "héllo wörld!"] {
            assert_eq!(
                contains_text(hay, needle),
                hay.contains(needle),
                "{:?} in {:?}",
                needle,
                hay
            );
        }
    }
}

fn get_etalon_map() -> BTreeMap<i32, &'static str> {
    BTreeMap::from([(1, "one"), (2, "two")])
}

#[test]
fn test_declarative() {
    let map = btreemap(vec![(1, "one"), (2, "two")]);
    assert_eq!(get_etalon_map(), map);
}

#[test]
fn of_two_pairs_with_one_key_the_later_stays() {
    let map = btreemap(vec![(2, "two"), (1, "uno"), (1, "one"), (3, "three"), (3, "drei")]);
    let pairs: Vec<(i32, &str)> = map.into_iter().collect();
    assert_eq!(pairs, vec![(1, "one"), (2, "two"), (3, "drei")]);
    assert!(btreemap(Vec::<(u8, u8)>::new()).is_empty());
}
