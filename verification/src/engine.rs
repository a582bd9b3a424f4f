//! In-process ordered key-value engine.
//!
//! Entries are held in ascending lexicographic key order, so a forward
//! scan visits keys exactly as an embedded ordered storage engine would.
//! The view of an engine is the map from key bytes to value bytes.
//!
//! Write and read options express the durability and integrity
//! trade-offs of a storage engine (acknowledging writes before they are
//! crash-durable; skipping checksum verification on reads). They are
//! explicit configuration carried with each operation; by design they
//! never change the contents observed through the map view, and no
//! operation of this in-process engine can fail.

use vstd::prelude::*;

verus! {

use crate::text::bytes_eq;

/// Strict lexicographic order on byte strings: a proper prefix comes
/// first, otherwise the first differing byte decides.
pub open spec fn lex_lt(a: Seq<u8>, b: Seq<u8>) -> bool
    decreases a.len(),
{
    if b.len() == 0 {
        false
    } else if a.len() == 0 {
        true
    } else if a[0] < b[0] {
        true
    } else if a[0] > b[0] {
        false
    } else {
        lex_lt(a.drop_first(), b.drop_first())
    }
}

/// No byte string precedes itself.
pub proof fn lemma_lex_lt_irrefl(a: Seq<u8>)
    ensures
        !lex_lt(a, a),
    decreases a.len(),
{
    if a.len() > 0 {
        lemma_lex_lt_irrefl(a.drop_first());
    }
}

/// Lexicographic order is transitive.
pub proof fn lemma_lex_lt_trans(a: Seq<u8>, b: Seq<u8>, c: Seq<u8>)
    requires
        lex_lt(a, b),
        lex_lt(b, c),
    ensures
        lex_lt(a, c),
    decreases a.len(),
{
    if a.len() == 0 {
    } else if a[0] == b[0] && b[0] == c[0] {
        lemma_lex_lt_trans(a.drop_first(), b.drop_first(), c.drop_first());
    }
}

/// Two distinct byte strings are ordered one way or the other.
pub proof fn lemma_lex_lt_connected(a: Seq<u8>, b: Seq<u8>)
    requires
        a != b,
        !lex_lt(a, b),
    ensures
        lex_lt(b, a),
    decreases a.len(),
{
    if b.len() == 0 {
        if a.len() == 0 {
            assert(a =~= b);
        }
        assert(lex_lt(b, a));
    } else if a.len() == 0 {
        assert(lex_lt(a, b));
    } else if a[0] != b[0] {
        if a[0] < b[0] {
            assert(lex_lt(a, b));
        } else {
            assert(lex_lt(b, a));
        }
    } else if a[0] == b[0] {
        if a.drop_first() == b.drop_first() {
            assert(a.drop_first().len() == a.len() - 1);
            assert(b.drop_first().len() == b.len() - 1);
            assert(a.len() == b.len());
            assert forall|i: int| 0 <= i < a.len() implies a[i] == b[i] by {
                if i > 0 {
                    assert(a[i] == a.drop_first()[i - 1]);
                    assert(b[i] == b.drop_first()[i - 1]);
                }
            }
            assert(a =~= b);
        } else {
            lemma_lex_lt_connected(a.drop_first(), b.drop_first());
        }
    }
}

/// Decide `lex_lt(a@, b@)`.
pub fn lex_lt_exec(a: &[u8], b: &[u8]) -> (r: bool)
    ensures
        r == lex_lt(a@, b@),
    decreases a@.len(),
{
    if b.len() == 0 {
        false
    } else if a.len() == 0 {
        true
    } else if a[0] < b[0] {
        true
    } else if a[0] > b[0] {
        false
    } else {
        let ra = vstd::slice::slice_subrange(a, 1, a.len());
        let rb = vstd::slice::slice_subrange(b, 1, b.len());
        proof {
            assert(ra@ =~= a@.drop_first());
            assert(rb@ =~= b@.drop_first());
        }
        lex_lt_exec(ra, rb)
    }
}

/// The value at the first entry whose key is `k`, if any.
pub open spec fn seq_find(s: Seq<(Seq<u8>, Seq<u8>)>, k: Seq<u8>) -> Option<Seq<u8>>
    decreases s.len(),
{
    if s.len() == 0 {
        None
    } else if s[0].0 == k {
        Some(s[0].1)
    } else {
        seq_find(s.drop_first(), k)
    }
}

/// `seq_find` returns the entry at the first index holding `k`.
proof fn lemma_seq_find_index(s: Seq<(Seq<u8>, Seq<u8>)>, k: Seq<u8>, i: int)
    requires
        0 <= i < s.len(),
        s[i].0 == k,
        forall|j: int| 0 <= j < i ==> (#[trigger] s[j]).0 != k,
    ensures
        seq_find(s, k) == Some(s[i].1),
    decreases i,
{
    if i > 0 {
        lemma_seq_find_index(s.drop_first(), k, i - 1);
    }
}

/// `seq_find` misses exactly when no entry holds `k`.
proof fn lemma_seq_find_none(s: Seq<(Seq<u8>, Seq<u8>)>, k: Seq<u8>)
    requires
        forall|j: int| 0 <= j < s.len() ==> (#[trigger] s[j]).0 != k,
    ensures
        seq_find(s, k) is None,
    decreases s.len(),
{
    if s.len() > 0 {
        lemma_seq_find_none(s.drop_first(), k);
    }
}

/// Inserting an entry under a fresh key changes `seq_find` only at that
/// key.
proof fn lemma_seq_find_insert(s: Seq<(Seq<u8>, Seq<u8>)>, pos: int, e: (Seq<u8>, Seq<u8>), k: Seq<u8>)
    requires
        0 <= pos <= s.len(),
        forall|j: int| 0 <= j < s.len() ==> (#[trigger] s[j]).0 != e.0,
    ensures
        seq_find(s.insert(pos, e), k) == if k == e.0 {
            Some(e.1)
        } else {
            seq_find(s, k)
        },
    decreases pos,
{
    let t = s.insert(pos, e);
    if pos == 0 {
        assert(t[0] == e);
        if k != e.0 {
            assert(t.drop_first() =~= s);
        }
    } else {
        assert(t[0] == s[0]);
        if s[0].0 == k {
        } else {
            assert(t.drop_first() =~= s.drop_first().insert(pos - 1, e));
            lemma_seq_find_insert(s.drop_first(), pos - 1, e, k);
        }
    }
}

/// Removing the only entry with key `s[pos].0` erases exactly that key
/// from `seq_find`.
proof fn lemma_seq_find_remove(s: Seq<(Seq<u8>, Seq<u8>)>, pos: int, k: Seq<u8>)
    requires
        0 <= pos < s.len(),
        forall|j: int| 0 <= j < s.len() && j != pos ==> (#[trigger] s[j]).0 != s[pos].0,
    ensures
        seq_find(s.remove(pos), k) == if k == s[pos].0 {
            None::<Seq<u8>>
        } else {
            seq_find(s, k)
        },
    decreases pos,
{
    let t = s.remove(pos);
    if pos == 0 {
        assert(t =~= s.drop_first());
        if k == s[0].0 {
            assert(forall|j: int| 0 <= j < t.len() ==> (#[trigger] t[j]).0 != k);
            lemma_seq_find_none(t, k);
        }
    } else {
        assert(t[0] == s[0]);
        if s[0].0 == k {
        } else {
            assert(t.drop_first() =~= s.drop_first().remove(pos - 1));
            lemma_seq_find_remove(s.drop_first(), pos - 1, k);
        }
    }
}

/// The entry sequence after storing `v` under `k`: entries whose keys
/// precede `k` keep their places; at the first other position `(k, v)`
/// replaces an entry that carries `k`, or is inserted before one that
/// carries a later key.
pub open spec fn upsert_entries(
    s: Seq<(Seq<u8>, Seq<u8>)>,
    k: Seq<u8>,
    v: Seq<u8>,
) -> Seq<(Seq<u8>, Seq<u8>)>
    decreases s.len(),
{
    if s.len() == 0 {
        seq![(k, v)]
    } else if lex_lt(s[0].0, k) {
        seq![s[0]] + upsert_entries(s.drop_first(), k, v)
    } else if s[0].0 == k {
        seq![(k, v)] + s.drop_first()
    } else {
        seq![(k, v)] + s
    }
}

/// At the first position whose key does not precede `k`, the upsert is
/// an update (same key) or an insertion (later key).
proof fn lemma_upsert_at(s: Seq<(Seq<u8>, Seq<u8>)>, pos: int, k: Seq<u8>, v: Seq<u8>)
    requires
        0 <= pos <= s.len(),
        forall|j: int| 0 <= j < pos ==> lex_lt((#[trigger] s[j]).0, k),
        pos < s.len() ==> !lex_lt(s[pos].0, k),
    ensures
        upsert_entries(s, k, v) == if pos < s.len() && s[pos].0 == k {
            s.update(pos, (k, v))
        } else {
            s.insert(pos, (k, v))
        },
    decreases pos,
{
    if pos == 0 {
        if s.len() == 0 {
            assert(upsert_entries(s, k, v) =~= s.insert(0, (k, v)));
        } else if s[0].0 == k {
            assert(upsert_entries(s, k, v) =~= s.update(0, (k, v)));
        } else {
            assert(upsert_entries(s, k, v) =~= s.insert(0, (k, v)));
        }
    } else {
        assert(lex_lt(s[0].0, k));
        let t = s.drop_first();
        assert forall|j: int| 0 <= j < pos - 1 implies lex_lt((#[trigger] t[j]).0, k) by {
            assert(t[j] == s[j + 1]);
        }
        if pos - 1 < t.len() {
            assert(t[pos - 1] == s[pos]);
        }
        lemma_upsert_at(t, pos - 1, k, v);
        if pos < s.len() && s[pos].0 == k {
            assert(upsert_entries(s, k, v) =~= s.update(pos, (k, v)));
        } else {
            assert(upsert_entries(s, k, v) =~= s.insert(pos, (k, v)));
        }
    }
}

/// Options for one write: whether to wait for the write to be made
/// crash-durable before acknowledging it, and whether to bypass the
/// write-ahead log entirely. The defaults are the durable settings;
/// relaxing them is an explicit performance choice.
pub struct WriteOptions {
    pub sync: bool,
    pub disable_wal: bool,
}

impl WriteOptions {
    /// Durable defaults: unsynced writes off, write-ahead log on.
    pub fn new() -> (r: WriteOptions)
        ensures
            !r.sync,
            !r.disable_wal,
    {
        WriteOptions { sync: false, disable_wal: false }
    }

    pub fn set_sync(&mut self, sync: bool)
        ensures
            final(self).sync == sync,
            final(self).disable_wal == old(self).disable_wal,
    {
        self.sync = sync;
    }

    pub fn disable_wal(&mut self, disable: bool)
        ensures
            final(self).disable_wal == disable,
            final(self).sync == old(self).sync,
    {
        self.disable_wal = disable;
    }
}

/// Options for one read: whether to verify checksums and whether to
/// populate the read cache. Skipping checksum verification is an
/// explicit latency/integrity trade-off.
pub struct ReadOptions {
    pub verify_checksums: bool,
    pub fill_cache: bool,
}

impl ReadOptions {
    /// Defaults: checksums verified, cache filled.
    pub fn new() -> (r: ReadOptions)
        ensures
            r.verify_checksums,
            r.fill_cache,
    {
        ReadOptions { verify_checksums: true, fill_cache: true }
    }

    pub fn set_verify_checksums(&mut self, verify: bool)
        ensures
            final(self).verify_checksums == verify,
            final(self).fill_cache == old(self).fill_cache,
    {
        self.verify_checksums = verify;
    }

    pub fn set_fill_cache(&mut self, fill: bool)
        ensures
            final(self).fill_cache == fill,
            final(self).verify_checksums == old(self).verify_checksums,
    {
        self.fill_cache = fill;
    }
}

/// An ordered key-value engine held in process memory.
pub struct KvEngine {
    entries: Vec<(Vec<u8>, Vec<u8>)>,
}

impl KvEngine {
    /// The entries, in storage order, as byte sequences.
    pub closed spec fn entry_views(self) -> Seq<(Seq<u8>, Seq<u8>)> {
        self.entries@.map_values(|p: (Vec<u8>, Vec<u8>)| (p.0@, p.1@))
    }

    /// The entries are strictly ascending in lexicographic key order.
    pub open spec fn wf(self) -> bool {
        forall|i: int, j: int|
            0 <= i < j < self.entry_views().len() ==> lex_lt(
                (#[trigger] self.entry_views()[i]).0,
                (#[trigger] self.entry_views()[j]).0,
            )
    }

    /// The engine as a map from key bytes to value bytes.
    pub open spec fn contents(self) -> Map<Seq<u8>, Seq<u8>> {
        Map::new(
            |k: Seq<u8>| seq_find(self.entry_views(), k) is Some,
            |k: Seq<u8>| seq_find(self.entry_views(), k)->0,
        )
    }

    /// Sorted entries have pairwise distinct keys.
    proof fn lemma_distinct_keys(self)
        requires
            self.wf(),
        ensures
            forall|i: int, j: int|
                0 <= i < self.entry_views().len() && 0 <= j < self.entry_views().len() && i != j
                    ==> (#[trigger] self.entry_views()[i]).0 != (#[trigger] self.entry_views()[j]).0,
    {
        let s = self.entry_views();
        assert forall|i: int, j: int|
            0 <= i < s.len() && 0 <= j < s.len() && i != j implies (#[trigger] s[i]).0 != (
        #[trigger] s[j]).0 by {
            if i < j {
                if s[i].0 == s[j].0 {
                    lemma_lex_lt_irrefl(s[i].0);
                }
            } else {
                if s[i].0 == s[j].0 {
                    lemma_lex_lt_irrefl(s[i].0);
                }
            }
        }
    }

    /// An empty engine.
    pub fn new() -> (r: KvEngine)
        ensures
            r.wf(),
            r.contents() == Map::<Seq<u8>, Seq<u8>>::empty(),
            r.entry_views() == Seq::<(Seq<u8>, Seq<u8>)>::empty(),
    {
        let e = KvEngine { entries: Vec::new() };
        proof {
            assert(e.entry_views() =~= Seq::<(Seq<u8>, Seq<u8>)>::empty());
            assert(e.contents() =~= Map::<Seq<u8>, Seq<u8>>::empty());
        }
        e
    }

    /// Number of stored entries, tombstones included.
    pub fn entry_count(&self) -> (n: usize)
        ensures
            n == self.entry_views().len(),
    {
        self.entries.len()
    }

    /// The key and value bytes of the entry at scan position `i`.
    pub fn entry_at(&self, i: usize) -> (r: (&Vec<u8>, &Vec<u8>))
        requires
            i < self.entry_views().len(),
        ensures
            r.0@ == self.entry_views()[i as int].0,
            r.1@ == self.entry_views()[i as int].1,
    {
        let e = &self.entries[i];
        (&e.0, &e.1)
    }

    /// Look the key up; the read options do not affect the result.
    pub fn get_opt<'a>(&'a self, key: &[u8], _opts: &ReadOptions) -> (r: Option<&'a Vec<u8>>)
        requires
            self.wf(),
        ensures
            r matches Some(v) ==> self.contents().contains_key(key@) && v@ == self.contents()[key@],
            r is None ==> !self.contents().contains_key(key@),
    {
        let n = self.entries.len();
        let mut i: usize = 0;
        while i < n
            invariant
                0 <= i <= n,
                n == self.entry_views().len(),
                forall|j: int| 0 <= j < i ==> (#[trigger] self.entry_views()[j]).0 != key@,
            decreases n - i,
        {
            let e = &self.entries[i];
            if bytes_eq(e.0.as_slice(), key) {
                proof {
                    lemma_seq_find_index(self.entry_views(), key@, i as int);
                }
                return Some(&e.1);
            }
            i += 1;
        }
        proof {
            lemma_seq_find_none(self.entry_views(), key@);
        }
        None
    }

    /// Index of the first entry whose key does not precede `key`.
    fn lower_bound(&self, key: &[u8]) -> (pos: usize)
        requires
            self.wf(),
        ensures
            0 <= pos <= self.entry_views().len(),
            forall|j: int| 0 <= j < pos ==> lex_lt((#[trigger] self.entry_views()[j]).0, key@),
            pos < self.entry_views().len() ==> !lex_lt(
                self.entry_views()[pos as int].0,
                key@,
            ),
    {
        let n = self.entries.len();
        let mut pos: usize = 0;
        while pos < n
            invariant
                0 <= pos <= n,
                n == self.entry_views().len(),
                forall|j: int| 0 <= j < pos ==> lex_lt((#[trigger] self.entry_views()[j]).0, key@),
            decreases n - pos,
        {
            let e = &self.entries[pos];
            if !lex_lt_exec(e.0.as_slice(), key) {
                return pos;
            }
            pos += 1;
        }
        pos
    }

    /// Store `value` under `key`, replacing any existing value. The
    /// write options pick the durability trade-off; they do not affect
    /// the contents. Both views are stated: the map gains the pair, and
    /// the ordered entry sequence undergoes the corresponding upsert.
    pub fn put_opt(&mut self, key: Vec<u8>, value: Vec<u8>, _opts: &WriteOptions)
        requires
            old(self).wf(),
        ensures
            final(self).wf(),
            final(self).contents() == old(self).contents().insert(key@, value@),
            final(self).entry_views() == upsert_entries(old(self).entry_views(), key@, value@),
    {
        let ghost s0 = self.entry_views();
        let n = self.entries.len();
        let pos = self.lower_bound(key.as_slice());
        let replace = if pos < n {
            let e = &self.entries[pos];
            bytes_eq(e.0.as_slice(), key.as_slice())
        } else {
            false
        };
        if replace {
            proof {
                self.lemma_distinct_keys();
            }
            self.entries.remove(pos);
            let ghost s1 = self.entry_views();
            self.entries.insert(pos, (key, value));
            proof {
                let s2 = self.entry_views();
                assert(s1 =~= s0.remove(pos as int));
                assert(s2 =~= s1.insert(pos as int, (key@, value@)));
                // sortedness: the key set at each index is unchanged
                assert forall|i: int, j: int| 0 <= i < j < s2.len() implies lex_lt(
                    (#[trigger] s2[i]).0,
                    (#[trigger] s2[j]).0,
                ) by {
                    assert(s2[i].0 == s0[i].0);
                    assert(s2[j].0 == s0[j].0);
                }
                // contents: remove the key, then put it back with the new value
                assert forall|k: Seq<u8>| true implies seq_find(s2, k) == (if k == key@ {
                    Some(value@)
                } else {
                    seq_find(s0, k)
                }) by {
                    lemma_seq_find_remove(s0, pos as int, k);
                    lemma_seq_find_insert(s1, pos as int, (key@, value@), k);
                }
                assert(self.contents() =~= old(self).contents().insert(key@, value@));
                assert(s2 =~= s0.update(pos as int, (key@, value@)));
                lemma_upsert_at(s0, pos as int, key@, value@);
            }
        } else {
            proof {
                // key is absent: earlier keys precede it, later keys follow it
                if pos < n {
                    lemma_lex_lt_connected(s0[pos as int].0, key@);
                }
                assert forall|j: int| 0 <= j < s0.len() implies (#[trigger] s0[j]).0 != key@ by {
                    if j < pos {
                        lemma_lex_lt_irrefl(key@);
                    } else if j > pos {
                        lemma_lex_lt_trans(key@, s0[pos as int].0, s0[j].0);
                        lemma_lex_lt_irrefl(key@);
                    } else if j == pos {
                        lemma_lex_lt_irrefl(key@);
                    }
                }
            }
            self.entries.insert(pos, (key, value));
            proof {
                let s2 = self.entry_views();
                assert(s2 =~= s0.insert(pos as int, (key@, value@)));
                assert forall|i: int, j: int| 0 <= i < j < s2.len() implies lex_lt(
                    (#[trigger] s2[i]).0,
                    (#[trigger] s2[j]).0,
                ) by {
                    if i < pos && j == pos {
                        assert(s2[i].0 == s0[i].0);
                    } else if i == pos && j > pos {
                        assert(s2[j].0 == s0[j - 1].0);
                        if j - 1 > pos {
                            assert(lex_lt(s0[pos as int].0, s0[j - 1].0));
                            lemma_lex_lt_trans(key@, s0[pos as int].0, s0[j - 1].0);
                        }
                    } else if i < pos && j > pos {
                        assert(s2[i].0 == s0[i].0);
                        assert(s2[j].0 == s0[j - 1].0);
                        assert(lex_lt(s0[i].0, s0[j - 1].0));
                    } else if j < pos {
                        assert(s2[i].0 == s0[i].0);
                        assert(s2[j].0 == s0[j].0);
                    } else if i > pos {
                        assert(s2[i].0 == s0[i - 1].0);
                        assert(s2[j].0 == s0[j - 1].0);
                    }
                }
                assert forall|k: Seq<u8>| true implies seq_find(s2, k) == (if k == key@ {
                    Some(value@)
                } else {
                    seq_find(s0, k)
                }) by {
                    lemma_seq_find_insert(s0, pos as int, (key@, value@), k);
                }
                assert(self.contents() =~= old(self).contents().insert(key@, value@));
                lemma_upsert_at(s0, pos as int, key@, value@);
            }
        }
    }
}

} // verus!
