//! Legacy caller-supplied account creation.
//!
//! An earlier write path of the store: the caller supplies the username
//! and password, and the record is written as a small JSON document
//! under the `"user:"` namespace, with no hashing and no encoding
//! scheme shared with the account codec. This is deliberate
//! preservation, not a second reading of the account keyspace: the
//! `"users:"` namespace and the binary codec remain the canonical
//! scheme, records written here are invisible to the account store's
//! get and scan, and the generated-identity path in `create_service`
//! supersedes this one.

use vstd::prelude::*;

verus! {

use vstd::string::{StrSliceExecFns, StringExecFns};
use vstd::utf8::encode_utf8;
use crate::engine::{KvEngine, WriteOptions, upsert_entries};
use crate::entity::User;
use crate::errors::UserRepositoryError;
use crate::text::{escape_json, escape_json_str};

/// Storage key of a legacy record: the `"user:"` namespace prefix
/// followed by the UTF-8 bytes of the username.
pub open spec fn legacy_user_key(u: Seq<char>) -> Seq<u8> {
    encode_utf8("user:"@) + encode_utf8(u)
}

/// The JSON document a legacy record is stored as. The fields are
/// embedded verbatim, unescaped, exactly as the write path always did.
pub open spec fn legacy_user_value(u: Seq<char>, p: Seq<char>, deleted: bool) -> Seq<u8> {
    encode_utf8("{\"username\":\""@) + encode_utf8(u) + encode_utf8("\",\"password\":\""@)
        + encode_utf8(p) + encode_utf8("\",\"is_deleted\":"@) + (if deleted {
        encode_utf8("true"@)
    } else {
        encode_utf8("false"@)
    }) + encode_utf8("}"@)
}

/// Repository of the legacy write path; owns its engine handle.
pub struct UserRepository {
    engine: KvEngine,
}

impl UserRepository {
    /// The stored bytes, keyed by key bytes.
    pub closed spec fn contents(self) -> Map<Seq<u8>, Seq<u8>> {
        self.engine.contents()
    }

    /// The stored entries in ascending lexicographic key order.
    pub closed spec fn entries(self) -> Seq<(Seq<u8>, Seq<u8>)> {
        self.engine.entry_views()
    }

    pub closed spec fn inv(self) -> bool {
        self.engine.wf()
    }

    /// Wrap the given engine handle.
    pub fn new(engine: KvEngine) -> (r: UserRepository)
        requires
            engine.wf(),
        ensures
            r.inv(),
            r.contents() == engine.contents(),
            r.entries() == engine.entry_views(),
    {
        UserRepository { engine }
    }

    /// Write the record for `user` at its legacy key, overwriting any
    /// existing value. Cannot fail here; the `Result` carries the
    /// store-level taxonomy.
    pub fn create_user(&mut self, user: &User) -> (r: Result<(), UserRepositoryError>)
        requires
            old(self).inv(),
        ensures
            final(self).inv(),
            r is Ok,
            final(self).contents() == old(self).contents().insert(
                legacy_user_key(user.username@),
                legacy_user_value(user.username@, user.password@, user.is_deleted),
            ),
            final(self).entries() == upsert_entries(
                old(self).entries(),
                legacy_user_key(user.username@),
                legacy_user_value(user.username@, user.password@, user.is_deleted),
            ),
    {
        let mut key: Vec<u8> = "user:".as_bytes_vec();
        let mut kb = user.username.as_str().as_bytes_vec();
        key.append(&mut kb);
        let mut value: Vec<u8> = "{\"username\":\"".as_bytes_vec();
        let mut ub = user.username.as_str().as_bytes_vec();
        value.append(&mut ub);
        let mut sep1 = "\",\"password\":\"".as_bytes_vec();
        value.append(&mut sep1);
        let mut pb = user.password.as_str().as_bytes_vec();
        value.append(&mut pb);
        let mut sep2 = "\",\"is_deleted\":".as_bytes_vec();
        value.append(&mut sep2);
        let mut flag = if user.is_deleted {
            "true".as_bytes_vec()
        } else {
            "false".as_bytes_vec()
        };
        value.append(&mut flag);
        let mut close = "}".as_bytes_vec();
        value.append(&mut close);
        proof {
            assert(key@ =~= legacy_user_key(user.username@));
            assert(value@ =~= legacy_user_value(
                user.username@,
                user.password@,
                user.is_deleted,
            ));
        }
        let wopts = WriteOptions::new();
        self.engine.put_opt(key, value, &wopts);
        Ok(())
    }
}

/// Service over the legacy repository: builds the domain model and
/// delegates persistence.
pub struct UserService {
    repo: UserRepository,
}

impl UserService {
    /// The stored bytes of the underlying repository.
    pub closed spec fn contents(self) -> Map<Seq<u8>, Seq<u8>> {
        self.repo.contents()
    }

    pub closed spec fn inv(self) -> bool {
        self.repo.inv()
    }

    /// Build the service around a repository.
    pub fn new(repo: UserRepository) -> (r: UserService)
        requires
            repo.inv(),
        ensures
            r.inv(),
            r.contents() == repo.contents(),
    {
        UserService { repo }
    }

    /// Create a user from caller-supplied fields, stored non-deleted.
    /// Repository errors would surface as a plain message; the
    /// in-process repository cannot produce one.
    pub fn create_user(&mut self, username: &str, password: &str) -> (r: Result<(), String>)
        requires
            old(self).inv(),
        ensures
            final(self).inv(),
            r is Ok,
            final(self).contents() == old(self).contents().insert(
                legacy_user_key(username@),
                legacy_user_value(username@, password@, false),
            ),
    {
        let user = User::new(username.to_owned(), password.to_owned(), false);
        match self.repo.create_user(&user) {
            Ok(()) => Ok(()),
            Err(e) => {
                let mut m = String::from_str("DB Error: ");
                let d = e.message();
                m.append(d.as_str());
                Err(m)
            },
        }
    }
}

/// The JSON body answering a legacy creation request.
pub open spec fn create_response_of(username: Option<Seq<char>>, ok: bool, msg: Seq<char>) -> Seq<
    char,
> {
    "{\"success\":"@ + (if ok {
        "true"@
    } else {
        "false"@
    }) + ",\"message\":\""@ + escape_json(msg) + "\",\"data\":"@ + (match username {
        Some(u) => "{\"username\":\""@ + escape_json(u) + "\"}"@,
        None => "null"@,
    }) + "}"@
}

/// Render the response to a legacy creation request: success flag, an
/// escaped message, and the username when one was created.
pub fn build_user_create_response(username: Option<&str>, is_success: bool, message: &str) -> (r:
    String)
    ensures
        r@ == create_response_of(
            match username {
                Some(u) => Some(u@),
                None => None,
            },
            is_success,
            message@,
        ),
{
    let mut out = String::from_str("{\"success\":");
    out.append(if is_success {
        "true"
    } else {
        "false"
    });
    out.append(",\"message\":\"");
    let msg = escape_json_str(message);
    out.append(msg.as_str());
    out.append("\",\"data\":");
    match username {
        Some(u) => {
            out.append("{\"username\":\"");
            let eu = escape_json_str(u);
            out.append(eu.as_str());
            out.append("\"}");
        },
        None => {
            out.append("null");
        },
    }
    out.append("}");
    out
}

} // verus!
