//! What identifies the author of a post.

use vstd::prelude::*;

verus! {

/// The identifier of a user.
#[derive(Clone, Debug, PartialEq)]
pub struct Id(pub u64);

} // verus!
