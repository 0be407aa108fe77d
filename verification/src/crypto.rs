//! Passwords and tokens made by chance, and the fingerprint of a file's
//! content.

use crate::chance::{any_alphanumeric, any_of, any_string_over, is_alphanumeric};
use vstd::prelude::*;

verus! {

/// How many characters an access token has.
pub const ACCESS_TOKEN_LENGTH: usize = 64;

/// How many bytes a fingerprint has.
pub const HASH_LENGTH: usize = 32;

/// The SHA3-256 digest of `bytes`.
pub uninterp spec fn sha3_256(bytes: Seq<u8>) -> Seq<u8>;

/// `sha3::Sha3_256::digest`, copied into a vector.
///
/// Not proved: that the digest depends on the bytes alone, so that it can go
/// by the name `sha3_256`, and that it is 32 bytes long.
#[verifier::external_body]
fn digest(bytes: &[u8]) -> (hash: Vec<u8>)
    ensures
        hash@ == sha3_256(bytes@),
        hash@.len() == HASH_LENGTH,
{
    <sha3::Sha3_256 as sha3::Digest>::digest(bytes).to_vec()
}

/// A password of `len` characters, each picked by chance from `chars`, or
/// `None` if there is no character to pick from.
pub fn generate_password(chars: &[char], len: usize) -> (password: Option<String>)
    ensures
        password is None <==> chars@.len() == 0,
        password matches Some(p) ==> p@.len() == len && forall|i: int|
            0 <= i < p@.len() ==> chars@.contains(#[trigger] p@[i]),
{
    any_string_over(chars, len)
}

/// One element of `v`, picked by chance, or `None` if `v` is empty.
pub fn select_rand_val<T>(v: &[T]) -> (value: Option<&T>)
    ensures
        value is None <==> v@.len() == 0,
        value matches Some(x) ==> v@.contains(*x),
{
    any_of(v)
}

/// A fresh access token: 64 digits and unaccented Latin letters, picked by
/// chance.
pub fn new_access_token() -> (token: String)
    ensures
        token@.len() == ACCESS_TOKEN_LENGTH,
        forall|i: int| 0 <= i < token@.len() ==> is_alphanumeric(#[trigger] token@[i]),
{
    any_alphanumeric(ACCESS_TOKEN_LENGTH)
}

/// The fingerprint of a file, taken from its content: the SHA3-256 digest.
pub fn get_file_hash(content: &[u8]) -> (hash: Vec<u8>)
    ensures
        hash@ == sha3_256(content@),
        hash@.len() == HASH_LENGTH,
{
    digest(content)
}

} // verus!
