//! What identifies a post and what it says.

use vstd::prelude::*;

verus! {

/// The identifier of a post.
#[derive(Clone, Debug, PartialEq)]
pub struct Id(pub u64);

/// The title of a post.
#[derive(Clone, Debug, PartialEq)]
pub struct Title(pub String);

/// The text of a post.
#[derive(Clone, Debug, PartialEq)]
pub struct Body(pub String);

} // verus!
