//! Account creation: generate a fresh identity and persist it.
//!
//! The username is a universally-unique random identifier and the
//! password is 32 bytes from a cryptographically secure random source,
//! hex-encoded to 64 characters. Only the hash is stored; the plaintext
//! password is returned to the caller exactly once.

use vstd::prelude::*;

verus! {

use crate::codec::{user_key, rec_bytes, rec_of_bytes};
use crate::errors::UserServiceError;
use crate::hashing::{hash_of, hash_password, hex_encode, hex_of, lemma_hex_of_len};
use crate::store::AccountStore;

/// A lowercase hex digit.
pub open spec fn is_lower_hex_char(c: char) -> bool {
    ('0' <= c && c <= '9') || ('a' <= c && c <= 'f')
}

/// The hyphenated textual form of a universally-unique identifier:
/// 36 characters, hyphens at the four fixed positions, lowercase hex
/// everywhere else.
pub open spec fn uuid_hyphenated(s: Seq<char>) -> bool {
    &&& s.len() == 36
    &&& forall|i: int|
        0 <= i < 36 ==> if i == 8 || i == 13 || i == 18 || i == 23 {
            #[trigger] s[i] == '-'
        } else {
            is_lower_hex_char(s[i])
        }
}

/// Relies on `uuid::Uuid::new_v4` and its hyphenated `Display`: the
/// textual form is 36 characters of lowercase hex and hyphens; the
/// value itself is random, so nothing more is assumed.
#[verifier::external_body]
fn new_uuid_string() -> (r: String)
    ensures
        uuid_hyphenated(r@),
{
    format!("{}", uuid::Uuid::new_v4())
}

/// Relies on `getrandom::fill`: fills the buffer from the operating
/// system's entropy source. Nothing is assumed of the contents; a
/// failure is ignored, and only the length is stated.
#[verifier::external_body]
fn random_bytes_32() -> (r: Vec<u8>)
    ensures
        r@.len() == 32,
{
    let mut buf = [0u8; 32];
    let _ = getrandom::fill(&mut buf);
    buf.to_vec()
}

/// The shape of a generated password: the lowercase hex encoding of
/// some 32 bytes, hence 64 hex characters.
pub open spec fn hex_of_32_bytes(s: Seq<char>) -> bool {
    exists|b: Seq<u8>| b.len() == 32 && s == #[trigger] hex_of(b)
}

/// Service that creates accounts with generated identities.
pub struct CreateUserService {
}

impl CreateUserService {
    pub fn new() -> (r: CreateUserService) {
        CreateUserService {}
    }

    /// A fresh random username.
    fn create_username() -> (r: String)
        ensures
            uuid_hyphenated(r@),
    {
        new_uuid_string()
    }

    /// A fresh random password: 32 random bytes, hex-encoded.
    fn create_password() -> (r: String)
        ensures
            r@.len() == 64,
            hex_of_32_bytes(r@),
    {
        let buf = random_bytes_32();
        let r = hex_encode(buf.as_slice());
        proof {
            lemma_hex_of_len(buf@);
            assert(buf@.len() == 32 && r@ == hex_of(buf@));
        }
        r
    }

    /// Create an account: generate the identity, hash the password,
    /// persist the record, and hand back the username and the plaintext
    /// password — the one time it is retrievable.
    pub fn create_user(&self, store: &mut AccountStore) -> (r: Result<
        (String, String),
        UserServiceError,
    >)
        requires
            old(store).inv(),
        ensures
            final(store).inv(),
            r is Ok,
            r matches Ok(up) ==> ({
                &&& uuid_hyphenated(up.0@)
                &&& up.1@.len() == 64
                &&& hex_of_32_bytes(up.1@)
                &&& final(store).contents() == old(store).contents().insert(
                    user_key(up.0@),
                    rec_bytes(up.0@, hash_of(up.1@), false),
                )
                &&& rec_of_bytes(final(store).contents()[user_key(up.0@)]) == Some(
                    (up.0@, hash_of(up.1@), false),
                )
            }),
    {
        let username = Self::create_username();
        let password = Self::create_password();
        let hashed = hash_password(password.as_str());
        match store.create_user(username.as_str(), hashed.as_str()) {
            Ok(()) => Ok((username, password)),
            Err(e) => Err(UserServiceError::Repository(e)),
        }
    }
}

} // verus!
