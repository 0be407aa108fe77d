use vending_machine::age::User;

#[test]
fn counts_age() {
    for ((y, m, d), expected) in [
        ((1990, 6, 4), 28),
        ((1990, 7, 4), 29),
        ((0, 1, 1), 2018),
        ((1970, 1, 1), 48),
        ((2019, 6, 25), 0),
    ] {
        let user = User::with_birthdate(y, m, d);
        assert_eq!(user.age(), expected);
        assert_eq!(User::try_with_birthdate(y, m, d), Some(user));
    }
}

#[test]
fn zero_if_birthdate_in_future() {
    for ((y, m, d), expected) in [
        ((2032, 6, 25), 0),
        ((2016, 6, 27), 3),
        ((3000, 6, 27), 0),
        ((9999, 6, 27), 0),
    ] {
        let user = User::with_birthdate(y, m, d);
        assert_eq!(user.age(), expected);
        assert_eq!(User::try_with_birthdate(y, m, d), Some(user));
    }
}

#[test]
fn days_that_the_calendar_lacks_make_no_user() {
    assert!(User::try_with_birthdate(2019, 2, 29).is_none());
    assert!(User::try_with_birthdate(2020, 2, 29).is_some());
    assert!(User::try_with_birthdate(2019, 0, 1).is_none());
    assert!(User::try_with_birthdate(2019, 13, 1).is_none());
    assert!(User::try_with_birthdate(2019, 4, 31).is_none());
    assert!(User::try_with_birthdate(2019, 4, 0).is_none());
}

#[test]
fn only_the_low_bits_of_month_and_day_count() {
    let plain = User::with_birthdate(1990, 6, 4);
    let wrapped = User::with_birthdate(1990, 256 + 6, 512 + 4);
    assert_eq!(plain, wrapped);
    assert_eq!(wrapped.age(), 28);
}

#[test]
fn adults_are_eighteen_or_older() {
    assert!(User::with_birthdate(2001, 6, 27).is_adult());
    assert_eq!(User::with_birthdate(2001, 6, 27).age(), 18);
    assert!(!User::with_birthdate(2001, 6, 26).is_adult());
    assert_eq!(User::with_birthdate(2001, 6, 26).age(), 17);
    assert!(!User::with_birthdate(2019, 1, 1).is_adult());
    assert!(User::with_birthdate(1950, 12, 31).is_adult());
}
