use vending_machine::crypto::{
    generate_password, get_file_hash, new_access_token, select_rand_val,
};
use vending_machine::random::Random;

#[test]
fn test_generate_password() {
    let chars = ('a'..='z').collect::<Vec<_>>();
    assert_eq!(generate_password(&chars, 0), Some(String::new()));
    assert!(generate_password(&[], 1).is_none());

    let password = generate_password(&chars, 10);
    assert!(password.is_some());
    assert_eq!(password.as_ref().unwrap().len(), 10);
    assert!(password
        .unwrap()
        .chars()
        .all(|ch| ch.is_alphabetic() && ch.is_lowercase()));
}

#[test]
fn test_new_access_token() {
    let token = new_access_token();
    assert_eq!(token.len(), 64);
    assert!(token.chars().all(char::is_alphanumeric));
}

#[test]
fn password_is_made_of_the_given_characters() {
    let chars = ['x', 'ß', '7'];
    let password = generate_password(&chars, 200).unwrap();
    assert_eq!(password.chars().count(), 200);
    assert!(password.chars().all(|ch| chars.contains(&ch)));
    assert_eq!(generate_password(&['q'], 5), Some(String::from("qqqqq")));
}

#[test]
fn access_tokens_are_ascii_letters_and_digits() {
    let token = new_access_token();
    assert!(token.chars().all(|ch| ch.is_ascii_alphanumeric()));
    assert_ne!(token, new_access_token());
}

#[test]
fn random_value_is_one_of_the_given() {
    let empty: [u8; 0] = [];
    assert_eq!(select_rand_val(&empty), None);
    assert_eq!(select_rand_val(&[9]), Some(&9));
    let values = [1, 2, 3, 4];
    for _ in 0..50 {
        let value = select_rand_val(&values).unwrap();
        assert!(values.contains(value));
    }
}

#[test]
fn file_hash_is_sha3_256() {
    let expected: [u8; 32] = [
        0x3a, 0x98, 0x5d, 0xa7, 0x4f, 0xe2, 0x25, 0xb2, 0x04, 0x5c, 0x17, 0x2d, 0x6b, 0xd3, 0x90,
        0xbd, 0x85, 0x5f, 0x08, 0x6e, 0x3e, 0x9d, 0x52, 0x5b, 0x46, 0xbf, 0xe2, 0x45, 0x11, 0x43,
        0x15, 0x32,
    ];
    assert_eq!(get_file_hash(b"abc"), expected.to_vec());
    assert_eq!(get_file_hash(b"").len(), 32);
    assert_ne!(get_file_hash(b""), get_file_hash(b"abc"));
}

#[test]
fn random_hands_out_one_of_its_three() {
    let random = Random::new([10, 20, 30]);
    for _ in 0..50 {
        let value = *random.get();
        assert!(value == 10 || value == 20 || value == 30);
    }
    assert_eq!(*random.at(0), 10);
    assert_eq!(*random.at(1), 20);
    assert_eq!(*random.at(2), 30);
    let seen: i32 = *random;
    assert!(seen == 10 || seen == 20 || seen == 30);
}

#[test]
fn random_takes_exactly_three_values_from_a_slice() {
    assert!(Random::<u8>::from_slice(&[]).is_none());
    assert!(Random::from_slice(&[1, 2]).is_none());
    assert!(Random::from_slice(&[1, 2, 3, 4]).is_none());
    let random = Random::from_slice(&[7, 8, 9]).unwrap();
    assert_eq!((*random.at(0), *random.at(1), *random.at(2)), (7, 8, 9));
}
