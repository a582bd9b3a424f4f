//! Two-layer error taxonomy.
//!
//! Store-level failures stay distinguishable by kind; the service layer
//! wraps them verbatim and adds its own outcomes. Validation failures
//! carry every violated field, never just the first.

use vstd::prelude::*;

verus! {

use vstd::string::StringExecFns;

/// A single input violation, named after the field it concerns.
#[derive(Debug)]
pub struct ValidationError {
    pub field: String,
    pub message: String,
}

/// Store-level failures.
#[derive(Debug)]
pub enum UserRepositoryError {
    /// Engine-level failure. The in-process engine cannot fail, so this
    /// kind is never produced here; it stays for the persistent-engine
    /// taxonomy.
    Database,
    /// A record could not be serialised. The codec is total, so this
    /// kind is never produced here either.
    Encode,
    /// A stored value exists but cannot be decoded as a record.
    Decode,
    /// A stored key cannot be interpreted as valid text.
    Utf8,
}

impl UserRepositoryError {
    /// Description of the failure kind.
    pub open spec fn message_spec(self) -> Seq<char> {
        match self {
            UserRepositoryError::Database => "Database error"@,
            UserRepositoryError::Encode => "Failed to serialize user"@,
            UserRepositoryError::Decode => "Failed to deserialize user"@,
            UserRepositoryError::Utf8 => "Stored key is not valid UTF-8"@,
        }
    }

    /// Every store-level failure maps to an internal server error.
    pub fn status_code(&self) -> (r: u16)
        ensures
            r == 500,
    {
        500
    }

    /// Human-readable description of the failure.
    pub fn message(&self) -> (r: String)
        ensures
            r@ == self.message_spec(),
    {
        match self {
            UserRepositoryError::Database => String::from_str("Database error"),
            UserRepositoryError::Encode => String::from_str("Failed to serialize user"),
            UserRepositoryError::Decode => String::from_str("Failed to deserialize user"),
            UserRepositoryError::Utf8 => String::from_str("Stored key is not valid UTF-8"),
        }
    }
}

/// Service-level failures.
#[derive(Debug)]
pub enum UserServiceError {
    /// A store failure, wrapped verbatim.
    Repository(UserRepositoryError),
    /// A password could not be hashed. The hash used here is total, so
    /// this kind is never produced; it stays for the taxonomy.
    Hashing(String),
    /// No record exists for the requested username.
    UserNotFound(String),
    /// Input validation failed; every violated field is listed.
    BadRequest(Vec<ValidationError>),
    /// The password does not match the stored hash.
    InvalidCredentials(String),
    /// The record exists but carries the tombstone flag.
    UserNotActive(String),
    /// The session token could not be issued.
    JwtError(String),
}

impl UserServiceError {
    /// The HTTP status code each outcome maps to.
    pub open spec fn status_code_spec(self) -> u16 {
        match self {
            UserServiceError::Repository(_) => 500,
            UserServiceError::Hashing(_) => 500,
            UserServiceError::UserNotFound(_) => 404,
            UserServiceError::BadRequest(_) => 400,
            UserServiceError::InvalidCredentials(_) => 401,
            UserServiceError::UserNotActive(_) => 403,
            UserServiceError::JwtError(_) => 500,
        }
    }

    /// Description of the failure, with its detail where one is carried.
    pub open spec fn message_spec(self) -> Seq<char> {
        match self {
            UserServiceError::Repository(e) => "Repository error: "@ + e.message_spec(),
            UserServiceError::Hashing(d) => "Hashing error: "@ + d@,
            UserServiceError::UserNotFound(d) => "User not found: "@ + d@,
            UserServiceError::BadRequest(_) => "Validation error"@,
            UserServiceError::InvalidCredentials(d) => "Invalid credentials: "@ + d@,
            UserServiceError::UserNotActive(d) => "User is not active or deleted: "@ + d@,
            UserServiceError::JwtError(d) => "JWT error: "@ + d@,
        }
    }

    pub fn status_code(&self) -> (r: u16)
        ensures
            r == self.status_code_spec(),
    {
        match self {
            UserServiceError::Repository(_) => 500,
            UserServiceError::Hashing(_) => 500,
            UserServiceError::UserNotFound(_) => 404,
            UserServiceError::BadRequest(_) => 400,
            UserServiceError::InvalidCredentials(_) => 401,
            UserServiceError::UserNotActive(_) => 403,
            UserServiceError::JwtError(_) => 500,
        }
    }

    pub fn message(&self) -> (r: String)
        ensures
            r@ == self.message_spec(),
    {
        match self {
            UserServiceError::Repository(e) => {
                let mut m = String::from_str("Repository error: ");
                let d = e.message();
                m.append(d.as_str());
                m
            },
            UserServiceError::Hashing(d) => {
                let mut m = String::from_str("Hashing error: ");
                m.append(d.as_str());
                m
            },
            UserServiceError::UserNotFound(d) => {
                let mut m = String::from_str("User not found: ");
                m.append(d.as_str());
                m
            },
            UserServiceError::BadRequest(_) => String::from_str("Validation error"),
            UserServiceError::InvalidCredentials(d) => {
                let mut m = String::from_str("Invalid credentials: ");
                m.append(d.as_str());
                m
            },
            UserServiceError::UserNotActive(d) => {
                let mut m = String::from_str("User is not active or deleted: ");
                m.append(d.as_str());
                m
            },
            UserServiceError::JwtError(d) => {
                let mut m = String::from_str("JWT error: ");
                m.append(d.as_str());
                m
            },
        }
    }
}

} // verus!
