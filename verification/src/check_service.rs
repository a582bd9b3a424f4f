//! Credential check: validate input, look the account up, and verify
//! the password.

use vstd::prelude::*;

verus! {

use vstd::string::StringExecFns;
use crate::codec::{user_key, rec_of_bytes};
use crate::dtos::CheckUserActiveDTO;
use crate::errors::{UserServiceError, ValidationError};
use crate::hashing::{password_matches, verify_password};
use crate::login_service::username_violation;
use crate::store::AccountStore;
use crate::text::{blank, is_blank};

/// The violation reported for a blank password.
pub open spec fn password_empty_violation(e: ValidationError) -> bool {
    e.field@ == "password"@ && e.message@ == "Password cannot be empty"@
}

/// A credential check passes validation when both fields are non-blank.
pub open spec fn check_valid(dto: CheckUserActiveDTO) -> bool {
    !blank(dto.username@) && !blank(dto.password@)
}

/// The exact violation list of an invalid credential check: the
/// username violation first when present, then the password violation.
pub open spec fn check_bad_list(es: Seq<ValidationError>, dto: CheckUserActiveDTO) -> bool {
    if blank(dto.username@) && blank(dto.password@) {
        es.len() == 2 && username_violation(es[0]) && password_empty_violation(es[1])
    } else if blank(dto.username@) {
        es.len() == 1 && username_violation(es[0])
    } else if blank(dto.password@) {
        es.len() == 1 && password_empty_violation(es[0])
    } else {
        false
    }
}

/// Service that verifies a caller's credentials against the store.
pub struct CheckUserActiveService {
}

impl CheckUserActiveService {
    pub fn new() -> (r: CheckUserActiveService) {
        CheckUserActiveService {}
    }

    /// Validate a credential check, collecting every violated field.
    fn user_input_validation(&self, dto: &CheckUserActiveDTO) -> (r: Result<
        bool,
        UserServiceError,
    >)
        ensures
            check_valid(*dto) ==> r == Ok::<bool, UserServiceError>(true),
            !check_valid(*dto) ==> (r matches Err(e) && e matches UserServiceError::BadRequest(es)
                && check_bad_list(es@, *dto)),
    {
        let mut errors: Vec<ValidationError> = Vec::new();
        if is_blank(dto.username.as_str()) {
            errors.push(
                ValidationError {
                    field: String::from_str("username"),
                    message: String::from_str("Username cannot be empty"),
                },
            );
        }
        if is_blank(dto.password.as_str()) {
            errors.push(
                ValidationError {
                    field: String::from_str("password"),
                    message: String::from_str("Password cannot be empty"),
                },
            );
        }
        if errors.len() > 0 {
            return Err(UserServiceError::BadRequest(errors));
        }
        Ok(true)
    }

    /// Check the caller's credentials: both fields must be present, the
    /// account must exist and be active, and the password must match
    /// the stored hash.
    pub fn check_user_active(&self, store: &AccountStore, dto: CheckUserActiveDTO) -> (r: Result<
        bool,
        UserServiceError,
    >)
        requires
            store.inv(),
        ensures
            !check_valid(dto) ==> (r matches Err(e) && e matches UserServiceError::BadRequest(es)
                && check_bad_list(es@, dto)),
            check_valid(dto) && !store.contents().contains_key(user_key(dto.username@)) ==> (
            r matches Err(e) && e matches UserServiceError::UserNotFound(d) && d@
                == "User not found"@),
            check_valid(dto) && store.contents().contains_key(user_key(dto.username@)) ==> (
            match rec_of_bytes(store.contents()[user_key(dto.username@)]) {
                None => r matches Err(e) && e matches UserServiceError::Repository(re)
                    && re is Decode,
                Some(f) => {
                    if f.2 {
                        r matches Err(e) && e matches UserServiceError::UserNotActive(d) && d@
                            == "User is not active or deleted"@
                    } else if password_matches(dto.password@, f.1) {
                        r == Ok::<bool, UserServiceError>(true)
                    } else {
                        r matches Err(e) && e matches UserServiceError::InvalidCredentials(d) && d@
                            == "Invalid credentials"@
                    }
                },
            }),
    {
        match self.user_input_validation(&dto) {
            Err(e) => {
                return Err(e);
            },
            Ok(_) => {},
        }
        let user = match store.check_user_active(dto.username.as_str()) {
            Err(e) => {
                return Err(UserServiceError::Repository(e));
            },
            Ok(None) => {
                return Err(UserServiceError::UserNotFound(String::from_str("User not found")));
            },
            Ok(Some(u)) => u,
        };
        if user.is_deleted {
            return Err(
                UserServiceError::UserNotActive(
                    String::from_str("User is not active or deleted"),
                ),
            );
        }
        let is_valid = verify_password(dto.password.as_str(), user.password.as_str());
        if !is_valid {
            return Err(
                UserServiceError::InvalidCredentials(String::from_str("Invalid credentials")),
            );
        }
        Ok(true)
    }
}

} // verus!
