//! Record codec and keyspace.
//!
//! An account record is serialised to a deterministic, compact binary
//! form: the UTF-8 bytes of the username and of the password
//! representation, each preceded by a little-endian 8-byte length, and a
//! single trailing flag byte for the tombstone. There is no version tag;
//! any change to the shape is a breaking change.
//!
//! Storage keys live in the `"users:"` namespace: the key of an account
//! is the prefix followed by the UTF-8 bytes of the username.

use vstd::prelude::*;

verus! {

use vstd::string::StrSliceExecFns;
use vstd::slice::{slice_subrange, slice_to_vec};
use vstd::utf8::{
    encode_utf8, decode_utf8, valid_utf8, encode_utf8_valid_utf8, encode_utf8_decode_utf8,
};
use crate::entity::UserEntity;
use crate::text::bytes_to_string;

/// Little-endian 8-byte encoding of a 64-bit length.
pub open spec fn le64(n: u64) -> Seq<u8> {
    seq![
        (n & 0xff) as u8,
        ((n >> 8) & 0xff) as u8,
        ((n >> 16) & 0xff) as u8,
        ((n >> 24) & 0xff) as u8,
        ((n >> 32) & 0xff) as u8,
        ((n >> 40) & 0xff) as u8,
        ((n >> 48) & 0xff) as u8,
        ((n >> 56) & 0xff) as u8,
    ]
}

/// The 64-bit value spelled by 8 little-endian bytes.
pub open spec fn le64_val(s: Seq<u8>) -> u64
    recommends
        s.len() == 8,
{
    ((s[0] as u64) | ((s[1] as u64) << 8) | ((s[2] as u64) << 16) | ((s[3] as u64) << 24)
        | ((s[4] as u64) << 32) | ((s[5] as u64) << 40) | ((s[6] as u64) << 48)
        | ((s[7] as u64) << 56)) as u64
}

/// Reading back the 8 little-endian bytes of `n` yields `n`.
pub proof fn lemma_le64_round_trip(n: u64)
    ensures
        le64_val(le64(n)) == n,
{
    assert((((n & 0xff) as u8) as u64) | ((((n >> 8) & 0xff) as u8) as u64) << 8 | ((((n >> 16)
        & 0xff) as u8) as u64) << 16 | ((((n >> 24) & 0xff) as u8) as u64) << 24 | ((((n >> 32)
        & 0xff) as u8) as u64) << 32 | ((((n >> 40) & 0xff) as u8) as u64) << 40 | ((((n >> 48)
        & 0xff) as u8) as u64) << 48 | ((((n >> 56) & 0xff) as u8) as u64) << 56 == n)
        by (bit_vector);
}

/// The encoded bytes of one record.
pub open spec fn rec_bytes(u: Seq<char>, p: Seq<char>, deleted: bool) -> Seq<u8> {
    le64(encode_utf8(u).len() as u64) + encode_utf8(u) + le64(encode_utf8(p).len() as u64)
        + encode_utf8(p) + seq![if deleted { 1u8 } else { 0u8 }]
}

/// Length of the username field, read from the first length prefix.
pub open spec fn n1_of(b: Seq<u8>) -> int {
    le64_val(b.subrange(0, 8)) as int
}

/// Length of the password field, read from the second length prefix.
pub open spec fn n2_of(b: Seq<u8>) -> int {
    le64_val(b.subrange(8 + n1_of(b), 16 + n1_of(b))) as int
}

/// Structural validity of an encoded record: both length prefixes are
/// consistent with the total length, nothing trails the flag byte, and
/// the flag byte is 0 or 1.
pub open spec fn rec_shape_ok(b: Seq<u8>) -> bool {
    &&& b.len() >= 17
    &&& n1_of(b) <= b.len() - 17
    &&& b.len() == 17 + n1_of(b) + n2_of(b)
    &&& (b.last() == 0 || b.last() == 1)
}

/// The username bytes of a structurally valid record.
pub open spec fn u_field(b: Seq<u8>) -> Seq<u8> {
    b.subrange(8, 8 + n1_of(b))
}

/// The password bytes of a structurally valid record.
pub open spec fn p_field(b: Seq<u8>) -> Seq<u8> {
    b.subrange(16 + n1_of(b), 16 + n1_of(b) + n2_of(b))
}

/// The record spelled by `b`: `Some((username, password, is_deleted))`
/// when `b` is structurally valid and both text fields are valid UTF-8,
/// `None` otherwise.
pub open spec fn rec_of_bytes(b: Seq<u8>) -> Option<(Seq<char>, Seq<char>, bool)> {
    if rec_shape_ok(b) && valid_utf8(u_field(b)) && valid_utf8(p_field(b)) {
        Some((decode_utf8(u_field(b)), decode_utf8(p_field(b)), b.last() == 1))
    } else {
        None
    }
}

/// Decoding an encoded record yields the record back, for every record
/// whose fields fit the length prefixes.
pub proof fn lemma_record_round_trip(u: Seq<char>, p: Seq<char>, deleted: bool)
    requires
        encode_utf8(u).len() <= u64::MAX,
        encode_utf8(p).len() <= u64::MAX,
    ensures
        rec_of_bytes(rec_bytes(u, p, deleted)) == Some((u, p, deleted)),
{
    broadcast use encode_utf8_valid_utf8, encode_utf8_decode_utf8;

    let ub = encode_utf8(u);
    let pb = encode_utf8(p);
    let b = rec_bytes(u, p, deleted);
    assert(b.subrange(0, 8) =~= le64(ub.len() as u64));
    lemma_le64_round_trip(ub.len() as u64);
    assert(n1_of(b) == ub.len());
    assert(b.subrange(8 + n1_of(b), 16 + n1_of(b)) =~= le64(pb.len() as u64));
    lemma_le64_round_trip(pb.len() as u64);
    assert(n2_of(b) == pb.len());
    assert(u_field(b) =~= ub);
    assert(p_field(b) =~= pb);
    assert(b.last() == (if deleted { 1u8 } else { 0u8 }));
    assert(rec_shape_ok(b));
    assert(rec_of_bytes(b) == Some((u, p, deleted)));
}

/// Append the little-endian 8-byte form of `n` to `out`.
fn push_le64(out: &mut Vec<u8>, n: u64)
    ensures
        final(out)@ == old(out)@ + le64(n),
{
    out.push((n & 0xff) as u8);
    out.push(((n >> 8) & 0xff) as u8);
    out.push(((n >> 16) & 0xff) as u8);
    out.push(((n >> 24) & 0xff) as u8);
    out.push(((n >> 32) & 0xff) as u8);
    out.push(((n >> 40) & 0xff) as u8);
    out.push(((n >> 48) & 0xff) as u8);
    out.push(((n >> 56) & 0xff) as u8);
    proof {
        assert(out@ =~= old(out)@ + le64(n));
    }
}

/// Read the 64-bit little-endian value at offset `at`.
fn read_le64(b: &[u8], at: usize) -> (n: u64)
    requires
        at + 8 <= b@.len(),
    ensures
        n == le64_val(b@.subrange(at as int, at as int + 8)),
{
    let n = (b[at] as u64) | ((b[at + 1] as u64) << 8) | ((b[at + 2] as u64) << 16) | ((b[at + 3]
        as u64) << 24) | ((b[at + 4] as u64) << 32) | ((b[at + 5] as u64) << 40) | ((b[at + 6]
        as u64) << 48) | ((b[at + 7] as u64) << 56);
    proof {
        let s = b@.subrange(at as int, at as int + 8);
        assert(s[0] == b@[at as int] && s[1] == b@[at as int + 1] && s[2] == b@[at as int + 2]
            && s[3] == b@[at as int + 3] && s[4] == b@[at as int + 4] && s[5] == b@[at as int + 5]
            && s[6] == b@[at as int + 6] && s[7] == b@[at as int + 7]);
    }
    n
}

/// Serialise a record. The result decodes back to the record exactly.
pub fn encode_user(rec: &UserEntity) -> (r: Vec<u8>)
    ensures
        r@ == rec_bytes(rec.username@, rec.password@, rec.is_deleted),
        rec_of_bytes(r@) == Some((rec.username@, rec.password@, rec.is_deleted)),
{
    let mut ub: Vec<u8> = rec.username.as_str().as_bytes_vec();
    let mut pb: Vec<u8> = rec.password.as_str().as_bytes_vec();
    let mut out: Vec<u8> = Vec::new();
    push_le64(&mut out, ub.len() as u64);
    out.append(&mut ub);
    push_le64(&mut out, pb.len() as u64);
    out.append(&mut pb);
    out.push(if rec.is_deleted { 1 } else { 0 });
    proof {
        assert(out@ =~= rec_bytes(rec.username@, rec.password@, rec.is_deleted));
        lemma_record_round_trip(rec.username@, rec.password@, rec.is_deleted);
    }
    out
}

/// Deserialise a record. Returns `None` exactly when the bytes are
/// truncated or structurally invalid; business invariants (such as empty
/// usernames) are not checked here.
pub fn decode_user(b: &[u8]) -> (r: Option<UserEntity>)
    ensures
        r matches Some(rec) ==> rec_of_bytes(b@) == Some(
            (rec.username@, rec.password@, rec.is_deleted),
        ),
        r is None ==> rec_of_bytes(b@) is None,
{
    if b.len() < 17 {
        return None;
    }
    let n1 = read_le64(b, 0);
    proof {
        assert(b@.subrange(0, 8) =~= b@.subrange(0 as int, 0 as int + 8));
    }
    if n1 > (b.len() - 17) as u64 {
        return None;
    }
    let n1s = n1 as usize;
    let n2 = read_le64(b, 8 + n1s);
    proof {
        assert(b@.subrange(8 + n1_of(b@), 16 + n1_of(b@)) =~= b@.subrange(
            (8 + n1s) as int,
            (8 + n1s) as int + 8,
        ));
    }
    let n2s = b.len() - 17 - n1s;
    if n2 != n2s as u64 {
        return None;
    }
    let flag = b[b.len() - 1];
    if flag > 1 {
        return None;
    }
    let ub = slice_to_vec(slice_subrange(b, 8, 8 + n1s));
    let pb = slice_to_vec(slice_subrange(b, 16 + n1s, 16 + n1s + n2s));
    proof {
        assert(rec_shape_ok(b@));
        assert(ub@ =~= u_field(b@));
        assert(pb@ =~= p_field(b@));
    }
    let username = match bytes_to_string(ub) {
        Some(s) => s,
        None => {
            return None;
        },
    };
    let password = match bytes_to_string(pb) {
        Some(s) => s,
        None => {
            return None;
        },
    };
    Some(UserEntity { username, password, is_deleted: flag == 1 })
}

/// Storage key of an account: the namespace prefix `"users:"` followed
/// by the UTF-8 bytes of the username. There is no escaping; callers
/// must supply identifiers that cannot collide with other namespaces.
pub open spec fn user_key(u: Seq<char>) -> Seq<u8> {
    encode_utf8("users:"@) + encode_utf8(u)
}

/// Build the storage key for `username`.
pub fn make_user_key(username: &str) -> (r: Vec<u8>)
    ensures
        r@ == user_key(username@),
{
    let mut k: Vec<u8> = "users:".as_bytes_vec();
    let mut ub: Vec<u8> = username.as_bytes_vec();
    k.append(&mut ub);
    k
}

} // verus!
