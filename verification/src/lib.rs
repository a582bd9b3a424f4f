//! Account store and authentication core.
//!
//! The crate persists account records in an in-process ordered
//! key-value engine and authenticates callers against those records,
//! optionally issuing a signed session token. It covers the record
//! codec and keyspace, the account store with its durability and read
//! tuning, credential hashing with constant-time verification, the
//! session token issuer, and the services that orchestrate them.

pub mod check_service;
pub mod codec;
pub mod create_service;
pub mod dtos;
pub mod engine;
pub mod entity;
pub mod errors;
pub mod hashing;
pub mod list_service;
pub mod login_service;
pub mod store;
pub mod text;
pub mod token;
pub mod user_service;

pub use check_service::CheckUserActiveService;
pub use create_service::CreateUserService;
pub use dtos::{
    AuthType, CheckUserActiveDTO, CreateUserDTO, CreateUserRequest, GetUserListDTO, UserDTO,
    UserJwtDTO,
};
pub use engine::{KvEngine, ReadOptions, WriteOptions};
pub use entity::{User, UserEntity};
pub use errors::{UserRepositoryError, UserServiceError, ValidationError};
pub use hashing::{hash_password, verify_password};
pub use list_service::GetUserListService;
pub use login_service::UserLoginService;
pub use store::{AccountStore, StoreConfig};
pub use token::{create_jwt, Claims, SigningError};
pub use user_service::{build_user_create_response, UserRepository, UserService};
