//! What the library takes from the thread's random number generator. Nothing
//! here says which value comes back, only what every value that can come back
//! has in common. The generator itself gives up, with a panic, only when the
//! operating system has no seed for it.

use vstd::prelude::*;

verus! {

/// Whether `c` is a digit or an unaccented Latin letter.
pub open spec fn is_alphanumeric(c: char) -> bool {
    ('0' <= c && c <= '9') || ('a' <= c && c <= 'z') || ('A' <= c && c <= 'Z')
}

/// `rand::thread_rng().gen::<u32>()`: some number. Nothing is claimed of it.
#[verifier::external_body]
pub(crate) fn any_u32() -> (number: u32) {
    rand::Rng::gen::<u32>(&mut rand::thread_rng())
}

/// `rand::thread_rng().gen_range(0..bound)`: some index below `bound`.
///
/// Not proved: that the index is below the bound. The call panics on an
/// empty range, which the precondition rules out.
#[verifier::external_body]
pub(crate) fn any_below(bound: usize) -> (index: usize)
    requires
        bound > 0,
    ensures
        index < bound,
{
    rand::Rng::gen_range(&mut rand::thread_rng(), 0..bound)
}

/// `rand::distributions::Slice::new` over `chars`, sampled `len` times by
/// `rand::thread_rng().sample_iter(..)` and collected into a string.
///
/// Not proved: that there is no string exactly when `chars` is empty, and
/// that otherwise the string has `len` characters, each one of `chars`.
#[verifier::external_body]
pub(crate) fn any_string_over(chars: &[char], len: usize) -> (text: Option<String>)
    ensures
        text is None <==> chars@.len() == 0,
        text matches Some(s) ==> s@.len() == len && forall|i: int|
            0 <= i < s@.len() ==> chars@.contains(#[trigger] s@[i]),
{
    match rand::distributions::Slice::new(chars) {
        Ok(slice) => Some(rand::Rng::sample_iter(rand::thread_rng(), &slice).take(len).collect()),
        Err(_) => None,
    }
}

/// `rand::distributions::Alphanumeric`, sampled `len` times by
/// `rand::thread_rng().sample_iter(..)` and collected into a string.
///
/// Not proved: that the string has `len` characters, each a digit or an
/// unaccented Latin letter.
#[verifier::external_body]
pub(crate) fn any_alphanumeric(len: usize) -> (text: String)
    ensures
        text@.len() == len,
        forall|i: int| 0 <= i < text@.len() ==> is_alphanumeric(#[trigger] text@[i]),
{
    rand::Rng::sample_iter(rand::thread_rng(), rand::distributions::Alphanumeric)
        .take(len)
        .map(char::from)
        .collect()
}

/// `rand::seq::SliceRandom::choose` with `rand::thread_rng()`: one element of
/// `items`.
///
/// Not proved: that there is no element exactly when `items` is empty, and
/// that otherwise the element is one of `items`.
#[verifier::external_body]
pub(crate) fn any_of<T>(items: &[T]) -> (item: Option<&T>)
    ensures
        item is None <==> items@.len() == 0,
        item matches Some(x) ==> items@.contains(*x),
{
    rand::seq::SliceRandom::choose(items, &mut rand::thread_rng())
}

} // verus!
