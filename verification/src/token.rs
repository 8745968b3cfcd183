//! Tokens, as they may be shown.
use sha2::{Digest, Sha256};
use vstd::prelude::*;

verus! {

/// The SHA-256 digest of some bytes.
pub uninterp spec fn sha256_of(data: Seq<u8>) -> Seq<u8>;

/// `Sha256::digest` of the crate sha2: 32 bytes, which depend on the data alone.
#[verifier::external_body]
fn sha256(data: &[u8]) -> (r: Vec<u8>)
    ensures
        r@ == sha256_of(data@),
        r@.len() == 32,
{
    Sha256::digest(data).to_vec()
}

/// The digit for a value below sixteen.
pub open spec fn hex_digit(n: int) -> char {
    seq!['0', '1', '2', '3', '4', '5', '6', '7', '8', '9', 'a', 'b', 'c', 'd', 'e', 'f'][n]
}

/// Bytes in hexadecimal: two lower-case digits for each, the high one first.
pub open spec fn hex_form(data: Seq<u8>) -> Seq<char> {
    data.flat_map(|b: u8| seq![hex_digit(b as int / 16), hex_digit(b as int % 16)])
}

/// `hex::encode`: two lower-case digits for each byte.
#[verifier::external_body]
fn hex(data: &[u8]) -> (r: String)
    ensures
        r@ == hex_form(data@),
{
    hex::encode(data)
}

/// The first four bytes of a digest in hexadecimal.
pub fn digest_prefix(digest: &Vec<u8>) -> (r: String)
    requires
        digest@.len() >= 4,
    ensures
        r@ == hex_form(digest@.take(4)),
{
    let head = vstd::slice::slice_subrange(digest.as_slice(), 0, 4);
    assert(head@ =~= digest@.take(4));
    hex(head)
}

/// A mark by which a token can be recognised but not used: the first four bytes of its digest.
pub fn short_token(token: &str) -> (r: String)
    ensures
        r@ == hex_form(sha256_of(vstd::utf8::encode_utf8(token@)).take(4)),
{
    digest_prefix(&sha256(token.as_bytes()))
}

} // verus!
