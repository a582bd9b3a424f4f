//! Listing of active accounts.
//!
//! The listing exposes the stored password representation in its
//! output. That mirrors a development-only affordance of the store's
//! lineage; callers should treat it as such.

use vstd::prelude::*;

verus! {

use crate::dtos::UserDTO;
use crate::errors::UserServiceError;
use crate::store::{AccountStore, scan_users, user_views};

/// The fields of the DTOs a listing returns, in order.
pub open spec fn dto_views(v: Seq<UserDTO>) -> Seq<(Seq<char>, Seq<char>, bool)> {
    v.map_values(|u: UserDTO| (u.username@, u.password@, u.is_deleted))
}

/// Service that lists every active (non-deleted) account.
pub struct GetUserListService {
}

impl GetUserListService {
    pub fn new() -> (r: GetUserListService) {
        GetUserListService {}
    }

    /// All non-deleted accounts, in storage key order. Store failures
    /// are wrapped verbatim. Linear in the total number of stored keys;
    /// not for latency-sensitive paths.
    pub fn get_user_list(&self, store: &AccountStore) -> (r: Result<Vec<UserDTO>, UserServiceError>)
        requires
            store.inv(),
        ensures
            (match scan_users(store.entries()) {
                Ok(rs) => r matches Ok(v) && dto_views(v@) == rs,
                Err(e) => r matches Err(se) && se matches UserServiceError::Repository(e2) && e2
                    == e,
            }),
            r matches Ok(v) ==> forall|i: int|
                0 <= i < v@.len() ==> !(#[trigger] v@[i]).is_deleted,
    {
        let users = match store.get_user_list() {
            Err(e) => {
                return Err(UserServiceError::Repository(e));
            },
            Ok(us) => us,
        };
        let n = users.len();
        let mut out: Vec<UserDTO> = Vec::new();
        let mut i: usize = 0;
        proof {
            assert(dto_views(out@) =~= user_views(users@.subrange(0, 0)));
        }
        while i < n
            invariant
                0 <= i <= n,
                n == users@.len(),
                dto_views(out@) == user_views(users@.subrange(0, i as int)),
                forall|j: int| 0 <= j < users@.len() ==> !(#[trigger] users@[j]).is_deleted,
                forall|j: int| 0 <= j < out@.len() ==> !(#[trigger] out@[j]).is_deleted,
            decreases n - i,
        {
            let u = &users[i];
            let ghost out0 = out@;
            out.push(
                UserDTO {
                    username: u.username.clone(),
                    password: u.password.clone(),
                    is_deleted: u.is_deleted,
                },
            );
            proof {
                let s1 = users@.subrange(0, i as int + 1);
                assert(dto_views(out0).len() == out0.len());
                assert(user_views(users@.subrange(0, i as int)).len() == i);
                assert(out0.len() == i);
                assert(out@.len() == i + 1 && s1.len() == i + 1);
                assert forall|j: int| 0 <= j < i + 1 implies dto_views(out@)[j] == user_views(s1)[j]
                    by {
                    assert(s1[j] == users@[j]);
                    if j < i {
                        assert(dto_views(out@)[j] == dto_views(out0)[j]);
                        assert(dto_views(out0)[j] == user_views(users@.subrange(0, i as int))[j]);
                        assert(users@.subrange(0, i as int)[j] == users@[j]);
                    } else {
                        assert(out@[j].username@ == users@[j].username@);
                        assert(out@[j].password@ == users@[j].password@);
                        assert(out@[j].is_deleted == users@[j].is_deleted);
                    }
                }
                assert(dto_views(out@) =~= user_views(s1));
            }
            i += 1;
        }
        proof {
            assert(users@.subrange(0, n as int) =~= users@);
        }
        Ok(out)
    }
}

} // verus!
