//! Dual-mode login: credential verification or session-token issuance.

use vstd::prelude::*;

verus! {

use vstd::string::StringExecFns;
use crate::codec::{user_key, rec_of_bytes};
use crate::dtos::{AuthType, CheckUserActiveDTO};
use crate::errors::{UserRepositoryError, UserServiceError, ValidationError};
use crate::hashing::{password_matches, verify_password};
use crate::store::AccountStore;
use crate::text::{blank, is_blank};
use crate::token::{create_jwt, issued_token};

/// The violation reported for a blank username.
pub open spec fn username_violation(e: ValidationError) -> bool {
    e.field@ == "username"@ && e.message@ == "Username cannot be empty"@
}

/// The violation reported for a missing login method.
pub open spec fn method_violation(e: ValidationError) -> bool {
    e.field@ == "method"@ && e.message@ == "method cannot be empty"@
}

/// The violation reported for a blank password in credentials mode.
pub open spec fn password_violation(e: ValidationError) -> bool {
    e.field@ == "password"@ && e.message@ == "Password is required for credentials login"@
}

/// A login request passes validation when the username is non-blank, a
/// method is present, and credentials mode carries a non-blank password.
pub open spec fn login_valid(dto: CheckUserActiveDTO) -> bool {
    &&& !blank(dto.username@)
    &&& dto.method is Some
    &&& (dto.method == Some(AuthType::Credentials) ==> !blank(dto.password@))
}

/// The exact violation list of an invalid login request: the username
/// violation comes first when present; a missing method is reported and
/// cuts validation short; otherwise the password violation follows.
pub open spec fn login_bad_list(es: Seq<ValidationError>, dto: CheckUserActiveDTO) -> bool {
    match dto.method {
        None => {
            if blank(dto.username@) {
                es.len() == 2 && username_violation(es[0]) && method_violation(es[1])
            } else {
                es.len() == 1 && method_violation(es[0])
            }
        },
        Some(m) => {
            let pbad = m == AuthType::Credentials && blank(dto.password@);
            if blank(dto.username@) && pbad {
                es.len() == 2 && username_violation(es[0]) && password_violation(es[1])
            } else if blank(dto.username@) {
                es.len() == 1 && username_violation(es[0])
            } else if pbad {
                es.len() == 1 && password_violation(es[0])
            } else {
                false
            }
        },
    }
}

/// Login service: validates input, checks the account, and either
/// verifies the password or issues a session token.
pub struct UserLoginService {
    secret_key: String,
}

impl UserLoginService {
    /// The symmetric signing secret this service was built with.
    pub closed spec fn secret_spec(self) -> Seq<char> {
        self.secret_key@
    }

    pub fn new(secret_key: String) -> (r: UserLoginService)
        ensures
            r.secret_spec() == secret_key@,
    {
        UserLoginService { secret_key }
    }

    /// Validate a login request. Either the request is valid, or the
    /// full list of violations is returned — never a partial report.
    pub fn user_input_credentials_validation(&self, dto: &CheckUserActiveDTO) -> (r: Result<
        bool,
        UserServiceError,
    >)
        ensures
            login_valid(*dto) ==> r == Ok::<bool, UserServiceError>(true),
            !login_valid(*dto) ==> (r matches Err(e) && e matches UserServiceError::BadRequest(es)
                && login_bad_list(es@, *dto)),
    {
        let mut errors: Vec<ValidationError> = Vec::new();
        if is_blank(dto.username.as_str()) {
            errors.push(
                ValidationError {
                    field: String::from_str("username"),
                    message: String::from_str("Username cannot be empty"),
                },
            );
        }
        let method = match &dto.method {
            Some(m) => m,
            None => {
                errors.push(
                    ValidationError {
                        field: String::from_str("method"),
                        message: String::from_str("method cannot be empty"),
                    },
                );
                return Err(UserServiceError::BadRequest(errors));
            },
        };
        if *method == AuthType::Credentials && is_blank(dto.password.as_str()) {
            errors.push(
                ValidationError {
                    field: String::from_str("password"),
                    message: String::from_str("Password is required for credentials login"),
                },
            );
        }
        if errors.len() > 0 {
            return Err(UserServiceError::BadRequest(errors));
        }
        Ok(true)
    }

    /// Two-mode login. After validation and the account checks, the
    /// credentials mode verifies the password and returns no token; the
    /// token mode issues a signed session token without checking the
    /// password at all (the documented behaviour of this mode), and
    /// succeeds whenever the signing secret is non-empty.
    pub fn login_with_credentials(&self, store: &AccountStore, dto: CheckUserActiveDTO) -> (r:
        Result<(bool, String), UserServiceError>)
        requires
            store.inv(),
        ensures
            blank(dto.username@) ==> (r matches Err(e) && e matches UserServiceError::BadRequest(es)
                && exists|i: int|
                0 <= i < es@.len() && (#[trigger] es@[i]).field@ == "username"@),
            dto.method is None ==> (r matches Err(e) && e matches UserServiceError::BadRequest(es)
                && exists|i: int|
                0 <= i < es@.len() && (#[trigger] es@[i]).field@ == "method"@),
            !login_valid(dto) ==> (r matches Err(e) && e matches UserServiceError::BadRequest(es)
                && login_bad_list(es@, dto)),
            login_valid(dto) && !store.contents().contains_key(user_key(dto.username@)) ==> (
            r matches Err(e) && e matches UserServiceError::UserNotFound(d) && d@
                == "User not found"@),
            login_valid(dto) && store.contents().contains_key(user_key(dto.username@)) ==> (
            match rec_of_bytes(store.contents()[user_key(dto.username@)]) {
                None => r matches Err(e) && e matches UserServiceError::Repository(re)
                    && re is Decode,
                Some(f) => {
                    if f.2 {
                        r matches Err(e) && e matches UserServiceError::UserNotActive(d) && d@
                            == "User is not active or deleted"@
                    } else if dto.method == Some(AuthType::Credentials) {
                        if password_matches(dto.password@, f.1) {
                            r matches Ok(p) && p.0 == true && p.1@ == Seq::<char>::empty()
                        } else {
                            r matches Err(e) && e matches UserServiceError::InvalidCredentials(d)
                                && d@ == "Invalid credentials"@
                        }
                    } else {
                        if self.secret_spec().len() > 0 {
                            r matches Ok(p) && p.0 == true && issued_token(
                                p.1@,
                                dto.username@,
                                self.secret_spec(),
                            ) && p.1@.len() > 0
                        } else {
                            r matches Err(e) && e matches UserServiceError::JwtError(d) && d@
                                == "Signing secret is empty"@
                        }
                    }
                },
            }),
    {
        match self.user_input_credentials_validation(&dto) {
            Err(e) => {
                return Err(e);
            },
            Ok(_) => {},
        }
        let user = match store.check_user_active(dto.username.as_str()) {
            Err(e) => {
                return Err(UserServiceError::Repository(e));
            },
            Ok(None) => {
                return Err(UserServiceError::UserNotFound(String::from_str("User not found")));
            },
            Ok(Some(u)) => u,
        };
        if user.is_deleted {
            return Err(
                UserServiceError::UserNotActive(
                    String::from_str("User is not active or deleted"),
                ),
            );
        }
        match &dto.method {
            None => {
                proof {
                    assert(false);
                }
                Err(UserServiceError::BadRequest(Vec::new()))
            },
            Some(AuthType::Credentials) => {
                let is_valid = verify_password(dto.password.as_str(), user.password.as_str());
                if !is_valid {
                    return Err(
                        UserServiceError::InvalidCredentials(
                            String::from_str("Invalid credentials"),
                        ),
                    );
                }
                Ok((true, String::new()))
            },
            Some(AuthType::Jwt) => {
                match create_jwt(dto.username.as_str(), self.secret_key.as_str()) {
                    Ok(token) => Ok((true, token)),
                    Err(e) => Err(UserServiceError::JwtError(e.message)),
                }
            },
        }
    }
}

} // verus!
