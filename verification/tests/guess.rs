use std::cmp::Ordering;
use vending_machine::guess::{FixedNumberGenerator, NumberGenerator, RandomNumberGenerator, State};

struct MockNumberGenerator {
    number: u32,
}

impl NumberGenerator for MockNumberGenerator {
    fn gen(&self) -> u32 {
        self.number
    }
}

fn check_state(secret: u32, number: u32) {
    let state = State::new(FixedNumberGenerator::new(secret));
    assert_eq!(state.guess(number), number.cmp(&secret));
}

fn check_guess(generator: impl NumberGenerator, guess: impl IntoIterator<Item = (u32, Ordering)>) {
    let state = State::new(generator);

    for (number, op) in guess {
        assert_eq!(state.guess(number), op);
    }
}

fn check_with_secret(secret: u32) {
    check_guess(
        FixedNumberGenerator::new(secret),
        [(secret, Ordering::Equal)],
    );

    check_guess(
        FixedNumberGenerator::new(secret),
        [(secret + 1, Ordering::Greater), (secret, Ordering::Equal)],
    );

    check_guess(
        FixedNumberGenerator::new(secret),
        [(secret - 1, Ordering::Less), (secret, Ordering::Equal)],
    );

    check_guess(
        FixedNumberGenerator::new(secret),
        [
            (secret - 1, Ordering::Less),
            (secret + 1, Ordering::Greater),
            (secret, Ordering::Equal),
        ],
    );
}

#[test]
fn test_check_state() {
    check_state(2, 2);
    check_state(2, 1);
    check_state(1, 2);
}

#[test]
fn test_with_fix_number() {
    check_with_secret(5);
}

#[test]
fn test_with_random_number() {
    // Kept off the two ends of the range, where a neighbour does not exist.
    let secret: u32 = rand::random::<u32>() % (u32::MAX - 1) + 1;
    check_with_secret(secret);
}

#[test]
fn test_with_mock_number_generator() {
    let secret = 5;
    let mock = MockNumberGenerator { number: secret };

    check_guess(
        mock,
        [
            (secret - 1, Ordering::Less),
            (secret + 1, Ordering::Greater),
            (secret, Ordering::Equal),
        ],
    );
}

#[test]
fn guesses_at_the_ends_of_the_range() {
    check_state(0, 0);
    check_state(0, u32::MAX);
    check_state(u32::MAX, 0);
    check_state(u32::MAX, u32::MAX);
}

#[test]
fn a_random_secret_is_judged_consistently() {
    let state = State::new(RandomNumberGenerator {});
    let low = state.guess(0);
    let high = state.guess(u32::MAX);
    assert!(low == Ordering::Less || low == Ordering::Equal);
    assert!(high == Ordering::Greater || high == Ordering::Equal);
}
