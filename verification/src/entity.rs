//! Account record types.

use vstd::prelude::*;

verus! {

/// A persisted account record.
///
/// A record exists for a username iff it was created and never physically
/// removed; deletion is logical only (`is_deleted` is flipped, the record
/// is never erased).
#[derive(Debug)]
pub struct UserEntity {
    pub username: String,
    pub password: String,
    pub is_deleted: bool,
}

impl UserEntity {
    /// Build a fresh, non-deleted record.
    pub fn create(username: String, password: String) -> (r: UserEntity)
        ensures
            r.username@ == username@,
            r.password@ == password@,
            !r.is_deleted,
    {
        UserEntity { username, password, is_deleted: false }
    }
}

/// Account model used by the legacy repository write path.
#[derive(Debug)]
pub struct User {
    pub username: String,
    pub password: String,
    pub is_deleted: bool,
}

impl User {
    pub fn new(username: String, password: String, is_deleted: bool) -> (r: User)
        ensures
            r.username@ == username@,
            r.password@ == password@,
            r.is_deleted == is_deleted,
    {
        User { username, password, is_deleted }
    }
}

} // verus!
