//! Credential hashing: a one-way transform of the password and a
//! constant-time verification against the stored representation.
//!
//! The scheme is a deterministic, unsalted SHA-256 digest rendered as
//! lowercase hex. It is retained for the non-security-critical path;
//! production credential storage should prefer a memory-hard,
//! per-password-salted scheme.

use sha2::Digest;
use subtle::ConstantTimeEq;
use vstd::prelude::*;

verus! {

use vstd::utf8::encode_utf8;
use crate::text::lemma_encode_utf8_injective;

/// The hex digit for a value below 16, lowercase.
pub open spec fn hex_digit(n: u8) -> char
    recommends
        n < 16,
{
    if n < 10 {
        (48 + n) as char
    } else {
        (87 + n) as char
    }
}

/// Lowercase hex rendering of a byte string, two digits per byte.
pub open spec fn hex_of(b: Seq<u8>) -> Seq<char>
    decreases b.len(),
{
    if b.len() == 0 {
        Seq::empty()
    } else {
        seq![hex_digit(b[0] / 16), hex_digit(b[0] % 16)] + hex_of(b.drop_first())
    }
}

/// A hex rendering is twice as long as its input.
pub proof fn lemma_hex_of_len(b: Seq<u8>)
    ensures
        hex_of(b).len() == 2 * b.len(),
    decreases b.len(),
{
    if b.len() > 0 {
        lemma_hex_of_len(b.drop_first());
    }
}

/// What SHA-256 digests the input to; a function of the bytes alone.
pub uninterp spec fn sha256_of(data: Seq<u8>) -> Seq<u8>;

/// Relies on `sha2::Sha256`: the digest depends on the input bytes
/// alone and is 32 bytes long.
#[verifier::external_body]
fn sha256(data: &[u8]) -> (r: Vec<u8>)
    ensures
        r@ == sha256_of(data@),
        r@.len() == 32,
{
    sha2::Sha256::digest(data).to_vec()
}

/// Relies on `hex::encode`: two lowercase hex digits per input byte, in
/// input order.
#[verifier::external_body]
pub(crate) fn hex_encode(data: &[u8]) -> (r: String)
    ensures
        r@ == hex_of(data@),
{
    hex::encode(data)
}

/// Relies on `subtle::ConstantTimeEq` on byte slices: the result is
/// exactly slice equality, and the comparison runs in constant time
/// regardless of where the slices first differ.
#[verifier::external_body]
fn ct_bytes_eq(a: &[u8], b: &[u8]) -> (r: bool)
    ensures
        r == (a@ == b@),
{
    a.ct_eq(b).into()
}

/// The stored representation of a password: lowercase hex of the
/// SHA-256 digest of its UTF-8 bytes.
pub open spec fn hash_of(p: Seq<char>) -> Seq<char> {
    hex_of(sha256_of(encode_utf8(p)))
}

/// Whether password `p` matches the stored representation `stored`.
pub open spec fn password_matches(p: Seq<char>, stored: Seq<char>) -> bool {
    hash_of(p) == stored
}

/// A password always matches its own hash: for every password `p`,
/// verifying `p` against `hash_of(p)` succeeds.
pub proof fn lemma_verify_own_hash(p: Seq<char>)
    ensures
        password_matches(p, hash_of(p)),
{
}

/// One-way transform of a password into its stored representation.
pub fn hash_password(password: &str) -> (r: String)
    ensures
        r@ == hash_of(password@),
        r@.len() == 64,
{
    let digest = sha256(password.as_bytes());
    let r = hex_encode(digest.as_slice());
    proof {
        lemma_hex_of_len(sha256_of(encode_utf8(password@)));
    }
    r
}

/// Recompute the hash of `password` and compare it with `stored_hash`
/// in constant time, without short-circuiting on the first differing
/// byte.
pub fn verify_password(password: &str, stored_hash: &str) -> (r: bool)
    ensures
        r == password_matches(password@, stored_hash@),
{
    let hashed_input = hash_password(password);
    let r = ct_bytes_eq(hashed_input.as_str().as_bytes(), stored_hash.as_bytes());
    proof {
        if encode_utf8(hashed_input@) == encode_utf8(stored_hash@) {
            lemma_encode_utf8_injective(hashed_input@, stored_hash@);
        }
    }
    r
}

} // verus!
