//! A stack: the element put on last is the one taken off first.

use vstd::prelude::*;

verus! {

/// A stack of `T`. Its view lists the elements from the bottom to the top.
pub struct GlobalStack<T> {
    data: Vec<T>,
}

impl<T> View for GlobalStack<T> {
    type V = Seq<T>;

    closed spec fn view(&self) -> Seq<T> {
        self.data@
    }
}

impl<T> Default for GlobalStack<T> {
    fn default() -> (stack: Self)
        ensures
            stack@ == Seq::<T>::empty(),
    {
        Self { data: Vec::new() }
    }
}

impl<T> GlobalStack<T> {
    /// The empty stack.
    pub fn new() -> (stack: Self)
        ensures
            stack@ == Seq::<T>::empty(),
    {
        Default::default()
    }

    /// Puts `value` on top.
    pub fn push(&mut self, value: T)
        ensures
            final(self)@ == old(self)@.push(value),
    {
        self.get_data().push(value);
    }

    /// Takes the top element off, if there is one.
    pub fn pop(&mut self) -> (value: Option<T>)
        ensures
            old(self)@.len() == 0 ==> value is None && final(self)@ == old(self)@,
            old(self)@.len() > 0 ==> value == Some(old(self)@.last()) && final(self)@ == old(
                self,
            )@.drop_last(),
    {
        self.get_data().pop()
    }

    /// The number of elements.
    pub fn len(&self) -> (len: usize)
        ensures
            len == self@.len(),
    {
        self.data.len()
    }

    /// Whether the stack has no element.
    pub fn is_empty(&self) -> (empty: bool)
        ensures
            empty == (self@.len() == 0),
    {
        self.data.is_empty()
    }

    fn get_data(&mut self) -> (data: &mut Vec<T>)
        ensures
            data@ == old(self)@,
            final(self)@ == final(data)@,
    {
        &mut self.data
    }
}

} // verus!
