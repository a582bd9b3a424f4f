//! Account store: the single source of truth for account persistence.
//!
//! The store owns the ordered key-value engine and exposes the narrow
//! contract the service layer talks to: put, get and an ordered scan,
//! each over encoded records under the `"users:"` keyspace. Creation
//! overwrites unconditionally: a second creation with the same username
//! silently replaces the first.

use vstd::prelude::*;

verus! {

use vstd::slice::slice_to_vec;
use vstd::seq_lib::*;
use vstd::utf8::{valid_utf8, decode_utf8, encode_utf8};
use crate::codec::{
    encode_user, decode_user, make_user_key, user_key, rec_bytes, rec_of_bytes,
    lemma_record_round_trip,
};
use crate::engine::{KvEngine, ReadOptions, WriteOptions, upsert_entries};
use crate::entity::UserEntity;
use crate::errors::UserRepositoryError;
use crate::text::{bytes_to_string, starts_with_chars};

/// Tuning of the store, chosen explicitly by the operator.
#[derive(Clone, Copy)]
pub struct StoreConfig {
    /// Acknowledge writes before they are crash-durable: the write-ahead
    /// log is bypassed and the write left unsynced, trading a window of
    /// possible data loss on crash for lower write latency.
    pub fast_writes: bool,
    /// Skip checksum verification on reads and populate the read cache,
    /// trading integrity checking for latency.
    pub skip_checksums: bool,
}

impl StoreConfig {
    /// The conservative settings: durable writes, verified reads.
    pub fn new() -> (r: StoreConfig)
        ensures
            !r.fast_writes,
            !r.skip_checksums,
    {
        StoreConfig { fast_writes: false, skip_checksums: false }
    }
}

/// The fields of the records yielded by a scan, in scan order.
pub open spec fn user_views(v: Seq<UserEntity>) -> Seq<(Seq<char>, Seq<char>, bool)> {
    v.map_values(|u: UserEntity| (u.username@, u.password@, u.is_deleted))
}

/// Outcome of scanning `s` in storage order: every key must be valid
/// text, every value under the `"users:"` prefix must decode, and of the
/// decoded records exactly the non-deleted ones are kept, in order.
pub open spec fn scan_users(s: Seq<(Seq<u8>, Seq<u8>)>) -> Result<
    Seq<(Seq<char>, Seq<char>, bool)>,
    UserRepositoryError,
>
    decreases s.len(),
{
    if s.len() == 0 {
        Ok(Seq::empty())
    } else if !valid_utf8(s[0].0) {
        Err(UserRepositoryError::Utf8)
    } else if !"users:"@.is_prefix_of(decode_utf8(s[0].0)) {
        scan_users(s.drop_first())
    } else {
        match rec_of_bytes(s[0].1) {
            None => Err(UserRepositoryError::Decode),
            Some(f) => match scan_users(s.drop_first()) {
                Err(e) => Err(e),
                Ok(rest) => Ok(
                    if f.2 {
                        rest
                    } else {
                        seq![f] + rest
                    },
                ),
            },
        }
    }
}

/// A successful scan never yields a record with the tombstone flag set,
/// whatever mix of deleted and non-deleted records is stored.
pub proof fn lemma_scan_yields_only_active(s: Seq<(Seq<u8>, Seq<u8>)>)
    ensures
        scan_users(s) matches Ok(rs) ==> forall|i: int| 0 <= i < rs.len() ==> !(#[trigger] rs[i]).2,
    decreases s.len(),
{
    if s.len() > 0 {
        lemma_scan_yields_only_active(s.drop_first());
    }
}

/// Reading a username straight after its record was written finds the
/// key, and the stored value decodes to exactly the record that
/// creation builds: the username, the given hash, and no tombstone.
pub proof fn lemma_read_after_write(m: Map<Seq<u8>, Seq<u8>>, u: Seq<char>, h: Seq<char>)
    requires
        encode_utf8(u).len() <= u64::MAX,
        encode_utf8(h).len() <= u64::MAX,
    ensures
        ({
            let m2 = m.insert(user_key(u), rec_bytes(u, h, false));
            m2.contains_key(user_key(u)) && rec_of_bytes(m2[user_key(u)]) == Some((u, h, false))
        }),
{
    lemma_record_round_trip(u, h, false);
}

/// Adapter over the embedded ordered key-value engine.
pub struct AccountStore {
    engine: KvEngine,
    config: StoreConfig,
}

impl AccountStore {
    /// The stored bytes, as a map from key bytes to value bytes.
    pub closed spec fn contents(self) -> Map<Seq<u8>, Seq<u8>> {
        self.engine.contents()
    }

    /// The stored entries in ascending lexicographic key order.
    pub closed spec fn entries(self) -> Seq<(Seq<u8>, Seq<u8>)> {
        self.engine.entry_views()
    }

    /// The engine keeps its entries strictly ordered.
    pub closed spec fn inv(self) -> bool {
        self.engine.wf()
    }

    /// A store over an injected engine handle, with the given tuning.
    pub fn new(engine: KvEngine, config: StoreConfig) -> (r: AccountStore)
        requires
            engine.wf(),
        ensures
            r.inv(),
            r.contents() == engine.contents(),
            r.entries() == engine.entry_views(),
    {
        AccountStore { engine, config }
    }

    /// Create (or silently replace) the record for `username`: it is
    /// stored non-deleted, encoded, at `user_key(username)`. The write
    /// goes through the configured durability mode. It cannot fail here;
    /// the `Result` carries the store-level taxonomy.
    pub fn create_user(&mut self, username: &str, password_hash: &str) -> (r: Result<
        (),
        UserRepositoryError,
    >)
        requires
            old(self).inv(),
        ensures
            final(self).inv(),
            r is Ok,
            final(self).contents() == old(self).contents().insert(
                user_key(username@),
                rec_bytes(username@, password_hash@, false),
            ),
            final(self).entries() == upsert_entries(
                old(self).entries(),
                user_key(username@),
                rec_bytes(username@, password_hash@, false),
            ),
            rec_of_bytes(final(self).contents()[user_key(username@)]) == Some(
                (username@, password_hash@, false),
            ),
    {
        let user = UserEntity::create(username.to_owned(), password_hash.to_owned());
        let value = encode_user(&user);
        let key = make_user_key(username);
        let mut wopts = WriteOptions::new();
        if self.config.fast_writes {
            wopts.set_sync(false);
            wopts.disable_wal(true);
        } else {
            wopts.set_sync(true);
            wopts.disable_wal(false);
        }
        self.engine.put_opt(key, value, &wopts);
        Ok(())
    }

    /// Look the record for `username` up: `None` when no value exists at
    /// the key, the decoded record when one does, and a decode failure
    /// when a value exists but cannot be read back.
    pub fn check_user_active(&self, username: &str) -> (r: Result<
        Option<UserEntity>,
        UserRepositoryError,
    >)
        requires
            self.inv(),
        ensures
            !self.contents().contains_key(user_key(username@)) ==> r == Ok::<
                Option<UserEntity>,
                UserRepositoryError,
            >(None),
            self.contents().contains_key(user_key(username@)) ==> match rec_of_bytes(
                self.contents()[user_key(username@)],
            ) {
                Some(f) => r matches Ok(o) && o matches Some(rec) && rec.username@ == f.0
                    && rec.password@ == f.1 && rec.is_deleted == f.2,
                None => r == Err::<Option<UserEntity>, UserRepositoryError>(
                    UserRepositoryError::Decode,
                ),
            },
    {
        let key = make_user_key(username);
        let mut ropts = ReadOptions::new();
        ropts.set_verify_checksums(!self.config.skip_checksums);
        ropts.set_fill_cache(true);
        match self.engine.get_opt(key.as_slice(), &ropts) {
            None => Ok(None),
            Some(value) => match decode_user(value.as_slice()) {
                Some(rec) => Ok(Some(rec)),
                None => Err(UserRepositoryError::Decode),
            },
        }
    }

    /// Scan the whole keyspace in ascending key order and yield the
    /// non-deleted account records. Linear in the total number of stored
    /// keys, tombstones included; not for latency-sensitive paths.
    pub fn get_user_list(&self) -> (r: Result<Vec<UserEntity>, UserRepositoryError>)
        requires
            self.inv(),
        ensures
            (match scan_users(self.entries()) {
                Ok(rs) => r matches Ok(v) && user_views(v@) == rs,
                Err(e) => r == Err::<Vec<UserEntity>, UserRepositoryError>(e),
            }),
            r matches Ok(v) ==> forall|i: int|
                0 <= i < v@.len() ==> !(#[trigger] v@[i]).is_deleted,
    {
        let ghost s = self.entries();
        let mut ropts = ReadOptions::new();
        ropts.set_verify_checksums(!self.config.skip_checksums);
        ropts.set_fill_cache(true);
        let n = self.engine.entry_count();
        let mut users: Vec<UserEntity> = Vec::new();
        let mut i: usize = 0;
        proof {
            assert(s.skip(0) =~= s);
            assert(user_views(users@) =~= Seq::<(Seq<char>, Seq<char>, bool)>::empty());
            match scan_users(s) {
                Ok(rest) => {
                    assert(user_views(users@) + rest =~= rest);
                },
                Err(_) => {},
            }
        }
        while i < n
            invariant
                0 <= i <= n,
                n == s.len(),
                s == self.entries(),
                self.inv(),
                (match scan_users(s.skip(i as int)) {
                    Ok(rest) => scan_users(s) == Ok::<_, UserRepositoryError>(
                        user_views(users@) + rest,
                    ),
                    Err(e) => scan_users(s) == Err::<Seq<(Seq<char>, Seq<char>, bool)>, _>(e),
                }),
                forall|j: int| 0 <= j < users@.len() ==> !(#[trigger] users@[j]).is_deleted,
            decreases n - i,
        {
            let (kref, vref) = self.engine.entry_at(i);
            proof {
                assert(s.skip(i as int)[0] == s[i as int]);
                assert(s.skip(i as int).drop_first() =~= s.skip(i as int + 1));
            }
            let kcopy = slice_to_vec(kref.as_slice());
            let key_str = match bytes_to_string(kcopy) {
                None => {
                    return Err(UserRepositoryError::Utf8);
                },
                Some(st) => st,
            };
            if !starts_with_chars(key_str.as_str(), "users:") {
                // a key outside the account namespace is skipped
            } else {
                match decode_user(vref.as_slice()) {
                    None => {
                        return Err(UserRepositoryError::Decode);
                    },
                    Some(rec) => {
                        let ghost f = (rec.username@, rec.password@, rec.is_deleted);
                        if !rec.is_deleted {
                            let ghost users0 = users@;
                            users.push(rec);
                            proof {
                                assert(user_views(users@) =~= user_views(users0) + seq![f]);
                                match scan_users(s.skip(i as int + 1)) {
                                    Ok(rest) => {
                                        assert(user_views(users0) + (seq![f] + rest)
                                            =~= user_views(users@) + rest);
                                    },
                                    Err(_) => {},
                                }
                            }
                        }
                    },
                }
            }
            i += 1;
        }
        proof {
            assert(s.skip(n as int) =~= Seq::<(Seq<u8>, Seq<u8>)>::empty());
            assert(user_views(users@) + Seq::<(Seq<char>, Seq<char>, bool)>::empty() =~= user_views(
                users@,
            ));
        }
        Ok(users)
    }
}

} // verus!
