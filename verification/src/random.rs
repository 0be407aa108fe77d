//! A value that reads as one of three, picked by chance at every read.

use crate::chance::any_below;
use std::marker::PhantomData;
use vstd::prelude::*;

verus! {

/// How many values a `Random` holds.
pub const SIZE: usize = 3;

/// Three values of which one is handed out at a time.
#[derive(Debug)]
pub struct Random<T>([T; 3]);

impl<T> View for Random<T> {
    type V = Seq<T>;

    closed spec fn view(&self) -> Seq<T> {
        self.0@
    }
}

impl<T> Random<T> {
    /// Holds the three values of `points`.
    pub fn new(points: [T; 3]) -> (random: Self)
        ensures
            random@ == points@,
    {
        Self(points)
    }

    /// Hands out one of the three values.
    pub fn get(&self) -> (value: &T)
        ensures
            self@.contains(*value),
    {
        let index = any_below(SIZE);
        Random::at(self, index)
    }

    /// The value at `index`.
    pub fn at(&self, index: usize) -> (value: &T)
        requires
            index < SIZE,
        ensures
            *value == self@[index as int],
            self@.contains(*value),
    {
        assert(self@.len() == 3);
        &self.0[index]
    }
}

impl<T: Copy> Random<T> {
    /// Holds the values of `value` if there are exactly three.
    pub fn from_slice(value: &[T]) -> (random: Option<Self>)
        ensures
            random is Some <==> value@.len() == SIZE,
            random matches Some(r) ==> r@ == value@,
    {
        if value.len() == SIZE {
            let points = [value[0], value[1], value[2]];
            assert(points@ =~= value@);
            Some(Self(points))
        } else {
            None
        }
    }
}

/// The first thing worth knowing about vectors.
pub const FACT_HEAP: &'static str = "Vec is heap-allocated.";

/// The second thing worth knowing about vectors.
pub const FACT_GROWTH: &'static str = "Vec may re-allocate on growing";

/// A teller of facts about the type `T`.
pub struct Fact<T>(PhantomData<T>);

impl<T> Fact<T> {
    /// A teller of facts.
    pub fn new() -> (teller: Self) {
        Self(PhantomData)
    }

    /// Tells one of the facts, picked by chance.
    pub fn fact(&self) -> (told: &'static str)
        ensures
            told@ == FACT_HEAP@ || told@ == FACT_GROWTH@,
    {
        if any_below(2) == 0 {
            FACT_HEAP
        } else {
            FACT_GROWTH
        }
    }
}

impl<T> std::ops::Deref for Random<T> {
    type Target = T;

    fn deref(&self) -> (value: &T)
        ensures
            self@.contains(*value),
    {
        self.get()
    }
}

} // verus!
