//! Request and response shapes of the service layer.

use vstd::prelude::*;

verus! {

/// One account as the listing returns it. The stored password
/// representation is exposed here; see the listing service for the
/// caveat on that.
pub struct UserDTO {
    pub username: String,
    pub password: String,
    pub is_deleted: bool,
}

/// The listing response.
pub struct GetUserListDTO {
    pub users: Vec<UserDTO>,
}

/// The creation response: the generated username and the plaintext
/// password, returned exactly once.
pub struct CreateUserDTO {
    pub username: String,
    pub password: String,
}

/// A credential-check or login request. `method` selects the login
/// mode; a missing method is a validation error.
pub struct CheckUserActiveDTO {
    pub username: String,
    pub password: String,
    pub method: Option<AuthType>,
}

/// The token response of a token-mode login.
pub struct UserJwtDTO {
    pub token: String,
}

/// The two login modes.
#[derive(PartialEq, Eq, Structural, Clone, Copy, Debug)]
pub enum AuthType {
    Credentials,
    Jwt,
}

/// A caller-supplied creation request of the legacy write path.
pub struct CreateUserRequest {
    pub username: String,
    pub password: String,
}

} // verus!
