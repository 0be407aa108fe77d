//! A guessing game: a secret number, and for each guess whether it is too
//! small, too big or right.

use crate::chance::any_u32;
use std::cmp::Ordering;
use vstd::prelude::*;

verus! {

/// Where the secret number of a game comes from.
pub trait NumberGenerator {
    /// Whether the generator can hand out `number`. A generator that says
    /// nothing else can hand out any number.
    open spec fn yields(&self, number: u32) -> bool {
        true
    }

    /// Hands out a number.
    fn gen(&self) -> (number: u32)
        ensures
            self.yields(number),
    ;
}

/// Hands out numbers by chance.
pub struct RandomNumberGenerator {}

impl NumberGenerator for RandomNumberGenerator {
    fn gen(&self) -> (number: u32) {
        any_u32()
    }
}

/// Hands out the one number it was made with.
pub struct FixedNumberGenerator {
    number: u32,
}

impl FixedNumberGenerator {
    /// The number that the generator hands out.
    pub closed spec fn number(&self) -> u32 {
        self.number
    }

    /// A generator that hands out `number`.
    pub fn new(number: u32) -> (generator: Self)
        ensures
            generator.number() == number,
    {
        Self { number }
    }
}

impl NumberGenerator for FixedNumberGenerator {
    open spec fn yields(&self, number: u32) -> bool {
        number == self.number()
    }

    fn gen(&self) -> (number: u32) {
        self.number
    }
}

/// A game in progress.
#[derive(Debug)]
pub struct State {
    secret: u32,
}

impl State {
    /// The number to be guessed.
    pub closed spec fn secret(&self) -> u32 {
        self.secret
    }

    /// Starts a game on a number that `generator` hands out.
    pub fn new<G: NumberGenerator>(generator: G) -> (state: Self)
        ensures
            generator.yields(state.secret()),
    {
        Self { secret: generator.gen() }
    }

    /// Judges a guess: `Less` if it is too small, `Greater` if it is too
    /// big, `Equal` if it is the secret.
    pub fn guess(&self, number: u32) -> (verdict: Ordering)
        ensures
            verdict is Less <==> number < self.secret(),
            verdict is Equal <==> number == self.secret(),
            verdict is Greater <==> number > self.secret(),
    {
        number.cmp(&self.secret)
    }
}

} // verus!
