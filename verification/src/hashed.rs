//! The content-addressed blackboard: entries keyed by their digest, staged
//! in a pending buffer, promoted to the live map on epoch advance, and
//! snapshotted in a canonical order with a cache thumbprint.
//!
//! The store is a sequential structure; an embedding program that shares it
//! across threads wraps it in a lock of its choosing.

use vstd::prelude::*;
use vstd::string::StringExecFns;
use vstd::seq_lib::*;
use crate::clock::now_millis;
use crate::config::{BlackboardConfig, ConfigView, stm_ttl_ms_spec};
use crate::digest::{Digest32, digest_lt, lemma_digest_order};
use crate::entry::{BlackboardEntry, EntryType, EntryView, is_expired_spec};
use crate::index::{TypeIndex, AuthorIndex, ParentIndex, bucket_of, has_pair};
use crate::snapshot::{BlackboardSnapshot, CacheThumbprint, SnapshotView, snapshot_wf,
    thumbprint_spec, render_spec};
use crate::store::{BlackboardError, ErrorView, BlackboardResult, BlackboardQuery,
    QueryView, CompactionStats, passes_filters, entry_passes_filters};

verus! {

// ─── Spec helpers over entry sequences ──────────────────────────────────

/// The hashes of an entry sequence, in order.
pub open spec fn hashes_of(s: Seq<EntryView>) -> Seq<Digest32> {
    Seq::new(s.len(), |i: int| s[i].content_hash)
}

/// Whether an entry with hash `h` occurs in `s`.
pub open spec fn contains_hash(s: Seq<EntryView>, h: Digest32) -> bool {
    exists|i: int| 0 <= i < s.len() && s[i].content_hash == h
}

/// The index of the entry with hash `h` in `s`.
pub open spec fn index_of_hash(s: Seq<EntryView>, h: Digest32) -> int {
    choose|i: int| 0 <= i < s.len() && s[i].content_hash == h
}

/// The entry with hash `h` in `s`.
pub open spec fn entry_at(s: Seq<EntryView>, h: Digest32) -> EntryView {
    s[index_of_hash(s, h)]
}

/// No two entries of `s` share a hash.
pub open spec fn unique_hashes(s: Seq<EntryView>) -> bool {
    forall|i: int, j: int| 0 <= i < j < s.len()
        ==> s[i].content_hash != s[j].content_hash
}

/// An entry view with its tombstone flag set.
pub open spec fn tombstoned_view(e: EntryView) -> EntryView {
    EntryView { tombstoned: true, ..e }
}

/// `s` with the entry of hash `h`, if present, tombstoned.
pub open spec fn mark_one(s: Seq<EntryView>, h: Digest32) -> Seq<EntryView> {
    Seq::new(s.len(), |i: int| if s[i].content_hash == h {
        tombstoned_view(s[i])
    } else {
        s[i]
    })
}

/// `s` with the entries named by `sup` tombstoned, in order.
pub open spec fn mark_all(s: Seq<EntryView>, sup: Seq<Digest32>) -> Seq<EntryView>
    decreases sup.len(),
{
    if sup.len() == 0 {
        s
    } else {
        mark_one(mark_all(s, sup.drop_last()), sup.last())
    }
}

/// Marking changes no field but the tombstone flag, and only ever sets it.
pub proof fn lemma_mark_all_fields(s: Seq<EntryView>, sup: Seq<Digest32>, i: int)
    requires
        0 <= i < s.len(),
    ensures
        mark_all(s, sup).len() == s.len(),
        mark_all(s, sup)[i] == s[i] || mark_all(s, sup)[i] == tombstoned_view(s[i]),
        mark_all(s, sup)[i].content_hash == s[i].content_hash,
        mark_all(s, sup)[i].entry_type == s[i].entry_type,
        mark_all(s, sup)[i].author == s[i].author,
        mark_all(s, sup)[i].parent_hash == s[i].parent_hash,
        s[i].tombstoned ==> mark_all(s, sup)[i].tombstoned,
    decreases sup.len(),
{
    if sup.len() > 0 {
        lemma_mark_all_fields(s, sup.drop_last(), i);
    }
}

/// After marking, every present hash in `sup` names a tombstoned entry.
pub proof fn lemma_mark_all_tombstones(s: Seq<EntryView>, sup: Seq<Digest32>, j: int)
    requires
        unique_hashes(s),
        0 <= j < sup.len(),
        contains_hash(s, sup[j]),
    ensures
        contains_hash(mark_all(s, sup), sup[j]),
        entry_at(mark_all(s, sup), sup[j]).tombstoned,
    decreases sup.len(),
{
    let h = sup[j];
    let i = index_of_hash(s, h);
    lemma_mark_all_fields(s, sup, i);
    let m = mark_all(s, sup);
    assert(m[i].content_hash == h);
    assert(contains_hash(m, h));
    // uniqueness carries over, so the entry at h in m is m[i]
    assert forall|a: int, b: int| 0 <= a < b < m.len()
        implies m[a].content_hash != m[b].content_hash by {
        lemma_mark_all_fields(s, sup, a);
        lemma_mark_all_fields(s, sup, b);
    }
    let i2 = index_of_hash(m, h);
    assert(m[i2].content_hash == h);
    lemma_mark_all_fields(s, sup, i2);
    assert(i2 == i);
    // m[i] is tombstoned: induction on sup
    lemma_mark_sets_flag(s, sup, j, i);
}

/// The marking step for `sup[j]` sets the flag of the entry at that hash.
proof fn lemma_mark_sets_flag(s: Seq<EntryView>, sup: Seq<Digest32>, j: int, i: int)
    requires
        0 <= j < sup.len(),
        0 <= i < s.len(),
        s[i].content_hash == sup[j],
    ensures
        mark_all(s, sup)[i].tombstoned,
    decreases sup.len(),
{
    if j == sup.len() - 1 {
        lemma_mark_all_fields(s, sup.drop_last(), i);
    } else {
        lemma_mark_sets_flag(s, sup.drop_last(), j, i);
        lemma_mark_all_fields(s, sup.drop_last(), i);
    }
}

// ─── Batch ordering ─────────────────────────────────────────────────────

/// `e` inserted into `s` before the first entry whose hash lies above it.
pub open spec fn insert_by_hash(s: Seq<EntryView>, e: EntryView) -> Seq<EntryView>
    decreases s.len(),
{
    if s.len() == 0 {
        seq![e]
    } else if digest_lt(e.content_hash, s[0].content_hash) {
        seq![e] + s
    } else {
        seq![s[0]] + insert_by_hash(s.drop_first(), e)
    }
}

/// `s` sorted by ascending hash byte order: the deterministic order in
/// which a staged batch is promoted, reproducible across processes.
pub open spec fn sort_by_hash(s: Seq<EntryView>) -> Seq<EntryView>
    decreases s.len(),
{
    if s.len() == 0 {
        Seq::empty()
    } else {
        insert_by_hash(sort_by_hash(s.drop_last()), s.last())
    }
}

/// Non-decreasing hash byte order.
pub open spec fn hash_sorted(s: Seq<EntryView>) -> bool {
    forall|i: int, j: int| 0 <= i < j < s.len()
        ==> !digest_lt(s[j].content_hash, s[i].content_hash)
}

/// Insertion grows the length by one.
pub proof fn lemma_insert_len(s: Seq<EntryView>, e: EntryView)
    ensures
        insert_by_hash(s, e).len() == s.len() + 1,
    decreases s.len(),
{
    if s.len() > 0 && !digest_lt(e.content_hash, s[0].content_hash) {
        lemma_insert_len(s.drop_first(), e);
    }
}

/// Insertion adds exactly the inserted entry.
pub proof fn lemma_insert_elem(s: Seq<EntryView>, e: EntryView, x: EntryView)
    ensures
        insert_by_hash(s, e).contains(x) == (s.contains(x) || x == e),
    decreases s.len(),
{
    let out = insert_by_hash(s, e);
    if s.len() == 0 {
        if x == e {
            assert(out[0] == e);
        }
    } else if digest_lt(e.content_hash, s[0].content_hash) {
        assert(out == seq![e] + s);
        if out.contains(x) {
            let i = choose|i: int| 0 <= i < out.len() && out[i] == x;
            if i == 0 {
                assert(x == e);
            } else {
                assert(s[i - 1] == x);
            }
        }
        if s.contains(x) {
            let i = choose|i: int| 0 <= i < s.len() && s[i] == x;
            assert(out[i + 1] == x);
        }
        if x == e {
            assert(out[0] == x);
        }
    } else {
        lemma_insert_elem(s.drop_first(), e, x);
        let tail = insert_by_hash(s.drop_first(), e);
        assert(out == seq![s[0]] + tail);
        if out.contains(x) {
            let i = choose|i: int| 0 <= i < out.len() && out[i] == x;
            if i == 0 {
                assert(s[0] == x);
            } else {
                assert(tail[i - 1] == x);
                assert(tail.contains(x));
                if s.drop_first().contains(x) {
                    let j = choose|j: int| 0 <= j < s.drop_first().len()
                        && s.drop_first()[j] == x;
                    assert(s[j + 1] == x);
                }
            }
        }
        if s.contains(x) {
            let i = choose|i: int| 0 <= i < s.len() && s[i] == x;
            if i == 0 {
                assert(out[0] == x);
            } else {
                assert(s.drop_first()[i - 1] == x);
                assert(tail.contains(x));
                let j = choose|j: int| 0 <= j < tail.len() && tail[j] == x;
                assert(out[j + 1] == x);
            }
        }
        if x == e {
            assert(tail.contains(x));
            let j = choose|j: int| 0 <= j < tail.len() && tail[j] == x;
            assert(out[j + 1] == x);
        }
    }
}

/// Sorting keeps exactly the same entries.
pub proof fn lemma_sort_elem(s: Seq<EntryView>, x: EntryView)
    ensures
        sort_by_hash(s).contains(x) == s.contains(x),
    decreases s.len(),
{
    if s.len() > 0 {
        lemma_sort_elem(s.drop_last(), x);
        lemma_insert_elem(sort_by_hash(s.drop_last()), s.last(), x);
        if s.contains(x) {
            let i = choose|i: int| 0 <= i < s.len() && s[i] == x;
            if i < s.len() - 1 {
                assert(s.drop_last()[i] == x);
            }
        }
        if s.drop_last().contains(x) {
            let i = choose|i: int| 0 <= i < s.drop_last().len()
                && s.drop_last()[i] == x;
            assert(s[i] == x);
        }
    }
}

/// Sorting keeps exactly the same hashes.
pub proof fn lemma_sort_hash(s: Seq<EntryView>, h: Digest32)
    ensures
        contains_hash(sort_by_hash(s), h) == contains_hash(s, h),
{
    if contains_hash(sort_by_hash(s), h) {
        let i = choose|i: int| 0 <= i < sort_by_hash(s).len()
            && sort_by_hash(s)[i].content_hash == h;
        lemma_sort_elem(s, sort_by_hash(s)[i]);
        let j = choose|j: int| 0 <= j < s.len() && s[j] == sort_by_hash(s)[i];
        assert(s[j].content_hash == h);
    }
    if contains_hash(s, h) {
        let i = choose|i: int| 0 <= i < s.len() && s[i].content_hash == h;
        lemma_sort_elem(s, s[i]);
        let j = choose|j: int| 0 <= j < sort_by_hash(s).len()
            && sort_by_hash(s)[j] == s[i];
        assert(sort_by_hash(s)[j].content_hash == h);
    }
}

/// Hash uniqueness of a cons cell, decomposed.
proof fn lemma_unique_cons(x: EntryView, u: Seq<EntryView>)
    ensures
        unique_hashes(seq![x] + u) == (unique_hashes(u)
            && !contains_hash(u, x.content_hash)),
{
    let c = seq![x] + u;
    if unique_hashes(c) {
        assert forall|i: int, j: int| 0 <= i < j < u.len()
            implies u[i].content_hash != u[j].content_hash by {
            assert(c[i + 1] == u[i]);
            assert(c[j + 1] == u[j]);
        }
        if contains_hash(u, x.content_hash) {
            let i = choose|i: int| 0 <= i < u.len()
                && u[i].content_hash == x.content_hash;
            assert(c[0].content_hash == c[i + 1].content_hash);
        }
    }
    if unique_hashes(u) && !contains_hash(u, x.content_hash) {
        assert forall|i: int, j: int| 0 <= i < j < c.len()
            implies c[i].content_hash != c[j].content_hash by {
            if i == 0 {
                assert(c[j] == u[j - 1]);
                if c[0].content_hash == u[j - 1].content_hash {
                    assert(contains_hash(u, x.content_hash));
                }
            } else {
                assert(c[i] == u[i - 1]);
                assert(c[j] == u[j - 1]);
            }
        }
    }
}

/// Inserting a fresh hash keeps hash uniqueness.
pub proof fn lemma_insert_unique(s: Seq<EntryView>, e: EntryView)
    requires
        unique_hashes(s),
        !contains_hash(s, e.content_hash),
    ensures
        unique_hashes(insert_by_hash(s, e)),
    decreases s.len(),
{
    if s.len() == 0 {
        assert(unique_hashes(seq![e]));
    } else if digest_lt(e.content_hash, s[0].content_hash) {
        lemma_unique_cons(e, s);
    } else {
        lemma_unique_cons(s[0], s.drop_first());
        assert(!contains_hash(s.drop_first(), e.content_hash)) by {
            if contains_hash(s.drop_first(), e.content_hash) {
                let i = choose|i: int| 0 <= i < s.drop_first().len()
                    && s.drop_first()[i].content_hash == e.content_hash;
                assert(s[i + 1].content_hash == e.content_hash);
            }
        }
        lemma_insert_unique(s.drop_first(), e);
        lemma_unique_cons(s[0], insert_by_hash(s.drop_first(), e));
        assert(!contains_hash(insert_by_hash(s.drop_first(), e),
            s[0].content_hash)) by {
            if contains_hash(insert_by_hash(s.drop_first(), e),
                s[0].content_hash) {
                let i = choose|i: int| 0 <= i < insert_by_hash(s.drop_first(),
                    e).len() && insert_by_hash(s.drop_first(),
                    e)[i].content_hash == s[0].content_hash;
                lemma_insert_elem(s.drop_first(), e,
                    insert_by_hash(s.drop_first(), e)[i]);
                if s.drop_first().contains(insert_by_hash(s.drop_first(), e)[i]) {
                    let j = choose|j: int| 0 <= j < s.drop_first().len()
                        && s.drop_first()[j]
                        == insert_by_hash(s.drop_first(), e)[i];
                    assert(s[j + 1].content_hash == s[0].content_hash);
                } else {
                    lemma_digest_order(e.content_hash, s[0].content_hash);
                    assert(e.content_hash == s[0].content_hash);
                    assert(contains_hash(s, e.content_hash)) by {
                        assert(s[0].content_hash == e.content_hash);
                    }
                }
            }
        }
    }
}

/// Sorting keeps hash uniqueness.
pub proof fn lemma_sort_unique(s: Seq<EntryView>)
    requires
        unique_hashes(s),
    ensures
        unique_hashes(sort_by_hash(s)),
    decreases s.len(),
{
    if s.len() > 0 {
        assert(unique_hashes(s.drop_last()));
        lemma_sort_unique(s.drop_last());
        assert(!contains_hash(sort_by_hash(s.drop_last()),
            s.last().content_hash)) by {
            lemma_sort_hash(s.drop_last(), s.last().content_hash);
            if contains_hash(s.drop_last(), s.last().content_hash) {
                let i = choose|i: int| 0 <= i < s.drop_last().len()
                    && s.drop_last()[i].content_hash == s.last().content_hash;
                assert(s[i].content_hash == s[s.len() - 1].content_hash);
            }
        }
        lemma_insert_unique(sort_by_hash(s.drop_last()), s.last());
    }
}

/// Insertion keeps the order sorted.
pub proof fn lemma_insert_sorted(s: Seq<EntryView>, e: EntryView)
    requires
        hash_sorted(s),
    ensures
        hash_sorted(insert_by_hash(s, e)),
    decreases s.len(),
{
    let out = insert_by_hash(s, e);
    if s.len() == 0 {
    } else if digest_lt(e.content_hash, s[0].content_hash) {
        assert forall|i: int, j: int| 0 <= i < j < out.len()
            implies !digest_lt(out[j].content_hash, out[i].content_hash) by {
            if i == 0 {
                assert(out[j] == s[j - 1]);
                // e is below the head, hence below every entry of s
                if j == 1 {
                    lemma_digest_order(e.content_hash, s[0].content_hash);
                } else {
                    assert(!digest_lt(s[j - 1].content_hash, s[0].content_hash));
                    lemma_digest_order(e.content_hash, s[0].content_hash);
                    lemma_digest_order(s[j - 1].content_hash, s[0].content_hash);
                    lemma_digest_order(s[j - 1].content_hash, e.content_hash);
                    if digest_lt(s[j - 1].content_hash, e.content_hash) {
                        // then s[j-1] < e < s[0], contradicting sortedness
                        assert(digest_lt(s[j - 1].content_hash,
                            s[0].content_hash)) by {
                            lemma_digest_lt_trans(s[j - 1].content_hash,
                                e.content_hash, s[0].content_hash);
                        }
                    }
                }
            } else {
                assert(out[i] == s[i - 1]);
                assert(out[j] == s[j - 1]);
            }
        }
    } else {
        assert(hash_sorted(s.drop_first())) by {
            assert forall|i: int, j: int| 0 <= i < j < s.drop_first().len()
                implies !digest_lt(s.drop_first()[j].content_hash,
                s.drop_first()[i].content_hash) by {
                assert(s.drop_first()[i] == s[i + 1]);
                assert(s.drop_first()[j] == s[j + 1]);
            }
        }
        lemma_insert_sorted(s.drop_first(), e);
        let tail = insert_by_hash(s.drop_first(), e);
        assert forall|i: int, j: int| 0 <= i < j < out.len()
            implies !digest_lt(out[j].content_hash, out[i].content_hash) by {
            if i == 0 {
                assert(out[j] == tail[j - 1]);
                lemma_insert_elem(s.drop_first(), e, tail[j - 1]);
                if tail[j - 1] == e {
                    // the branch condition says the head is not above e
                } else {
                    let x = choose|x: int| 0 <= x < s.drop_first().len()
                        && s.drop_first()[x] == tail[j - 1];
                    assert(s[x + 1] == tail[j - 1]);
                    assert(!digest_lt(s[x + 1].content_hash, s[0].content_hash));
                }
            } else {
                assert(out[i] == tail[i - 1]);
                assert(out[j] == tail[j - 1]);
            }
        }
    }
}

/// Byte order is transitive.
pub proof fn lemma_digest_lt_trans(a: Digest32, b: Digest32, c: Digest32)
    requires
        digest_lt(a, b),
        digest_lt(b, c),
    ensures
        digest_lt(a, c),
{
}

/// The sorted batch is sorted.
pub proof fn lemma_sort_sorted(s: Seq<EntryView>)
    ensures
        hash_sorted(sort_by_hash(s)),
    decreases s.len(),
{
    if s.len() > 0 {
        lemma_sort_sorted(s.drop_last());
        lemma_insert_sorted(sort_by_hash(s.drop_last()), s.last());
    }
}

/// Two sorted, duplicate-free listings of the same entries are equal.
pub proof fn lemma_sorted_canonical(s1: Seq<EntryView>, s2: Seq<EntryView>)
    requires
        hash_sorted(s1),
        hash_sorted(s2),
        unique_hashes(s1),
        unique_hashes(s2),
        s1.len() == s2.len(),
        forall|x: EntryView| s1.contains(x) == s2.contains(x),
    ensures
        s1 == s2,
    decreases s1.len(),
{
    if s1.len() > 0 {
        // the heads agree: each head is the unique hash-minimal entry
        assert(s2.contains(s1[0])) by {
            assert(s1.contains(s1[0]));
        }
        let i = choose|i: int| 0 <= i < s2.len() && s2[i] == s1[0];
        assert(s1.contains(s2[0])) by {
            assert(s2.contains(s2[0]));
        }
        let j = choose|j: int| 0 <= j < s1.len() && s1[j] == s2[0];
        if i > 0 {
            assert(!digest_lt(s2[i].content_hash, s2[0].content_hash));
            if j > 0 {
                assert(!digest_lt(s1[j].content_hash, s1[0].content_hash));
                lemma_digest_order(s1[0].content_hash, s2[0].content_hash);
                if s1[0].content_hash == s2[0].content_hash {
                    // two distinct positions of s1 would share a hash
                    assert(s1[0].content_hash == s1[j].content_hash);
                    assert(false);
                }
            } else {
                assert(s1[0] == s2[0]);
                assert(s2[i].content_hash == s2[0].content_hash);
                assert(false);
            }
        }
        assert(s1[0] == s2[0]);
        let t1 = s1.drop_first();
        let t2 = s2.drop_first();
        assert(hash_sorted(t1) && hash_sorted(t2)) by {
            assert forall|a: int, b: int| 0 <= a < b < t1.len()
                implies !digest_lt(t1[b].content_hash, t1[a].content_hash) by {
                assert(t1[a] == s1[a + 1] && t1[b] == s1[b + 1]);
            }
            assert forall|a: int, b: int| 0 <= a < b < t2.len()
                implies !digest_lt(t2[b].content_hash, t2[a].content_hash) by {
                assert(t2[a] == s2[a + 1] && t2[b] == s2[b + 1]);
            }
        }
        assert(unique_hashes(t1) && unique_hashes(t2)) by {
            assert forall|a: int, b: int| 0 <= a < b < t1.len()
                implies t1[a].content_hash != t1[b].content_hash by {
                assert(t1[a] == s1[a + 1] && t1[b] == s1[b + 1]);
            }
            assert forall|a: int, b: int| 0 <= a < b < t2.len()
                implies t2[a].content_hash != t2[b].content_hash by {
                assert(t2[a] == s2[a + 1] && t2[b] == s2[b + 1]);
            }
        }
        assert forall|x: EntryView| t1.contains(x) == t2.contains(x) by {
            if t1.contains(x) {
                let a = choose|a: int| 0 <= a < t1.len() && t1[a] == x;
                assert(s1[a + 1] == x);
                assert(s2.contains(x));
                let b = choose|b: int| 0 <= b < s2.len() && s2[b] == x;
                if b == 0 {
                    assert(s1[0].content_hash == s1[a + 1].content_hash);
                    assert(false);
                }
                assert(t2[b - 1] == x);
            }
            if t2.contains(x) {
                let a = choose|a: int| 0 <= a < t2.len() && t2[a] == x;
                assert(s2[a + 1] == x);
                assert(s1.contains(x));
                let b = choose|b: int| 0 <= b < s1.len() && s1[b] == x;
                if b == 0 {
                    assert(s2[0].content_hash == s2[a + 1].content_hash);
                    assert(false);
                }
                assert(t1[b - 1] == x);
            }
        }
        lemma_sorted_canonical(t1, t2);
        assert forall|x: int| 0 <= x < s1.len() implies s1[x] == s2[x] by {
            if x > 0 {
                assert(t1[x - 1] == s1[x]);
                assert(t2[x - 1] == s2[x]);
            }
        }
        assert(s1 =~= s2);
    } else {
        assert(s1 =~= s2);
    }
}

// ─── The store ──────────────────────────────────────────────────────────

/// The content-addressed, epoch-aware blackboard.
pub struct HashedBlackboard {
    config: BlackboardConfig,
    /// Committed entries.
    live: Vec<BlackboardEntry>,
    /// Entries posted since the last epoch advance.
    pending: Vec<BlackboardEntry>,
    by_type: TypeIndex,
    by_author: AuthorIndex,
    by_parent: ParentIndex,
    /// The deterministic sequence that defines prompt order.
    canonical_order: Vec<Digest32>,
    epoch: u64,
    /// Memoized snapshot, invalidated on any observable change, together
    /// with the instant it was built at.
    cached_snapshot: Option<BlackboardSnapshot>,
    cached_at: Ghost<u64>,
}

/// The mathematical image of the store.
pub ghost struct HashedView {
    pub config: ConfigView,
    pub live: Seq<EntryView>,
    pub pending: Seq<EntryView>,
    pub by_type: Seq<(EntryType, Digest32)>,
    pub by_author: Seq<(Seq<char>, Digest32)>,
    pub by_parent: Seq<(Digest32, Digest32)>,
    pub order: Seq<Digest32>,
    pub epoch: u64,
    pub cached: Option<SnapshotView>,
}

impl View for HashedBlackboard {
    type V = HashedView;

    closed spec fn view(&self) -> HashedView {
        HashedView {
            config: self.config@,
            live: self.live.deep_view(),
            pending: self.pending.deep_view(),
            by_type: self.by_type@,
            by_author: self.by_author@,
            by_parent: self.by_parent@,
            order: self.canonical_order@,
            epoch: self.epoch,
            cached: match self.cached_snapshot {
                Option::Some(ref s) => Option::Some(s@),
                Option::None => Option::None,
            },
        }
    }
}

/// The entries a snapshot of the given state holds at instant `now_ms`:
/// walk the canonical order, keep each hash's live entry unless it is
/// tombstoned or expired.
pub open spec fn snap_entries(live: Seq<EntryView>, order: Seq<Digest32>,
    stm_ttl_ms: u64, now_ms: u64) -> Seq<EntryView>
    decreases order.len(),
{
    if order.len() == 0 {
        Seq::empty()
    } else {
        snap_entries(live, order.drop_last(), stm_ttl_ms, now_ms)
            + if contains_hash(live, order.last()) {
                let e = entry_at(live, order.last());
                if !e.tombstoned && !is_expired_spec(e, stm_ttl_ms, now_ms) {
                    seq![e]
                } else {
                    Seq::empty()
                }
            } else {
                Seq::empty()
            }
    }
}

/// The snapshot of the given state at instant `now_ms`.
pub open spec fn snapshot_spec(v: HashedView, now_ms: u64) -> SnapshotView {
    let es = snap_entries(v.live, v.order, stm_ttl_ms_spec(v.config), now_ms);
    SnapshotView {
        epoch: v.epoch,
        entries: es,
        thumbprint: thumbprint_spec(es),
        rendered: render_spec(es),
    }
}

/// All entries of the store, committed before staged.
pub open spec fn all_entries(v: HashedView) -> Seq<EntryView> {
    v.live + v.pending
}

/// Well-formedness of the store's maps, indexes and order.
pub open spec fn store_wf_parts(live: Seq<EntryView>, pending: Seq<EntryView>,
    by_type: Seq<(EntryType, Digest32)>, by_author: Seq<(Seq<char>, Digest32)>,
    by_parent: Seq<(Digest32, Digest32)>, order: Seq<Digest32>) -> bool
{
    &&& unique_hashes(live)
    &&& unique_hashes(pending)
    &&& (forall|h: Digest32| !(#[trigger] contains_hash(live, h)
        && contains_hash(pending, h)))
    &&& order.no_duplicates()
    &&& (forall|h: Digest32| #[trigger] order.contains(h)
        == contains_hash(live, h))
    &&& (forall|k: EntryType, h: Digest32| #[trigger] has_pair(by_type, k, h)
        == exists|i: int| 0 <= i < (live + pending).len()
            && (#[trigger] (live + pending)[i]).content_hash == h
            && (live + pending)[i].entry_type == k)
    &&& (forall|k: Seq<char>, h: Digest32| #[trigger] has_pair(by_author, k, h)
        == exists|i: int| 0 <= i < (live + pending).len()
            && (#[trigger] (live + pending)[i]).content_hash == h
            && (live + pending)[i].author == k)
    &&& (forall|k: Digest32, h: Digest32| #[trigger] has_pair(by_parent, k, h)
        == exists|i: int| 0 <= i < (live + pending).len()
            && (#[trigger] (live + pending)[i]).content_hash == h
            && (live + pending)[i].parent_hash == Option::Some(k))
}

/// Well-formedness of the store.
pub open spec fn store_wf(v: HashedView) -> bool {
    store_wf_parts(v.live, v.pending, v.by_type, v.by_author, v.by_parent, v.order)
}

/// The memoized snapshot, when present, is the snapshot of the current
/// state at the instant it was built.
pub open spec fn cache_ok(v: HashedView, cached_at: u64) -> bool {
    match v.cached {
        Option::Some(s) => s == snapshot_spec(v, cached_at),
        Option::None => true,
    }
}

/// Find the position of an entry with the given hash.
fn find_by_hash(v: &Vec<BlackboardEntry>, h: &Digest32) -> (r: Option<usize>)
    ensures
        match r {
            Option::Some(i) => i < v@.len() && v.deep_view()[i as int].content_hash == h
                && contains_hash(v.deep_view(), *h),
            Option::None => !contains_hash(v.deep_view(), *h),
        },
{
    let n = v.len();
    for i in 0..n
        invariant
            n == v@.len(),
            forall|j: int| 0 <= j < i ==> v.deep_view()[j].content_hash != h,
    {
        if v[i].content_hash == *h {
            proof {
                assert(v.deep_view()[i as int].content_hash == h);
            }
            return Option::Some(i);
        }
        proof {
            assert(v.deep_view()[i as int] == v@[i as int]@);
        }
    }
    Option::None
}

impl HashedBlackboard {
    /// The store's well-formedness; every operation preserves it.
    pub closed spec fn wf(&self) -> bool {
        store_wf(self@) && cache_ok(self@, self.cached_at@)
    }

    /// Well-formedness implies the structural invariants of the view.
    pub proof fn lemma_wf_store(&self)
        requires
            self.wf(),
        ensures
            store_wf(self@),
    {
    }

    /// Create an empty store with the given configuration.
    pub fn new(config: BlackboardConfig) -> (r: Self)
        ensures
            r.wf(),
            r@.config == config@,
            r@.live =~= Seq::<EntryView>::empty(),
            r@.pending =~= Seq::<EntryView>::empty(),
            r@.order =~= Seq::<Digest32>::empty(),
            r@.epoch == 0,
            r@.cached is None,
    {
        let r = HashedBlackboard {
            config,
            live: Vec::new(),
            pending: Vec::new(),
            by_type: TypeIndex::new(),
            by_author: AuthorIndex::new(),
            by_parent: ParentIndex::new(),
            canonical_order: Vec::new(),
            epoch: 0,
            cached_snapshot: Option::None,
            cached_at: Ghost(0),
        };
        proof {
            assert(r@.live =~= Seq::<EntryView>::empty());
            assert(r@.pending =~= Seq::<EntryView>::empty());
            assert forall|k: EntryType, h: Digest32|
                !(#[trigger] has_pair(r@.by_type, k, h)) by {}
            assert forall|k: Seq<char>, h: Digest32|
                !(#[trigger] has_pair(r@.by_author, k, h)) by {}
            assert forall|k: Digest32, h: Digest32|
                !(#[trigger] has_pair(r@.by_parent, k, h)) by {}
        }
        r
    }

    /// The store's configuration.
    pub fn config(&self) -> (r: &BlackboardConfig)
        ensures
            r@ == self@.config,
    {
        &self.config
    }

    /// The current epoch.
    pub fn epoch(&self) -> (r: u64)
        ensures
            r == self@.epoch,
    {
        self.epoch
    }

    /// Count of committed plus staged entries, saturating.
    pub fn len(&self) -> (r: usize)
        ensures
            r as int == if self@.live.len() + self@.pending.len() <= usize::MAX as int {
                self@.live.len() + self@.pending.len() as int
            } else {
                usize::MAX as int
            },
    {
        match self.live.len().checked_add(self.pending.len()) {
            Option::Some(n) => n,
            Option::None => usize::MAX,
        }
    }

    /// Whether the store holds no entries at all.
    pub fn is_empty(&self) -> (r: bool)
        ensures
            r == (self@.live.len() + self@.pending.len() == 0),
    {
        self.live.len() == 0 && self.pending.len() == 0
    }

    /// Fetch an entry by hash, from live first, then pending. Absence is a
    /// success value, not an error.
    pub fn get(&self, hash: &Digest32) -> (r: BlackboardResult<Option<BlackboardEntry>>)
        requires
            self.wf(),
        ensures
            r is Ok,
            contains_hash(self@.live, *hash) ==> r.unwrap() is Some
                && r.unwrap().unwrap()@ == entry_at(self@.live, *hash),
            !contains_hash(self@.live, *hash) && contains_hash(self@.pending, *hash)
                ==> r.unwrap() is Some
                && r.unwrap().unwrap()@ == entry_at(self@.pending, *hash),
            !contains_hash(self@.live, *hash) && !contains_hash(self@.pending, *hash)
                ==> r.unwrap() is None,
    {
        match find_by_hash(&self.live, hash) {
            Option::Some(i) => {
                let e = self.live[i].clone();
                proof {
                    lemma_unique_entry_at(self@.live, i as int);
                }
                return Result::Ok(Option::Some(e));
            }
            Option::None => {}
        }
        match find_by_hash(&self.pending, hash) {
            Option::Some(i) => {
                let e = self.pending[i].clone();
                proof {
                    lemma_unique_entry_at(self@.pending, i as int);
                }
                return Result::Ok(Option::Some(e));
            }
            Option::None => {}
        }
        Result::Ok(Option::None)
    }
}

/// Marking preserves length.
pub proof fn lemma_mark_all_len(s: Seq<EntryView>, sup: Seq<Digest32>)
    ensures
        mark_all(s, sup).len() == s.len(),
    decreases sup.len(),
{
    if sup.len() > 0 {
        lemma_mark_all_len(s, sup.drop_last());
    }
}

/// The pointwise facts of `mark_all`, quantified.
pub proof fn lemma_mark_all_all(s: Seq<EntryView>, sup: Seq<Digest32>)
    ensures
        mark_all(s, sup).len() == s.len(),
        forall|i: int| 0 <= i < s.len() ==> (#[trigger] mark_all(s, sup)[i])
            == s[i] || mark_all(s, sup)[i] == tombstoned_view(s[i]),
        forall|i: int| 0 <= i < s.len() ==> (#[trigger] mark_all(s, sup)[i]).content_hash
            == s[i].content_hash
            && mark_all(s, sup)[i].entry_type == s[i].entry_type
            && mark_all(s, sup)[i].author == s[i].author
            && mark_all(s, sup)[i].parent_hash == s[i].parent_hash,
{
    lemma_mark_all_len(s, sup);
    assert forall|i: int| 0 <= i < s.len() implies (#[trigger] mark_all(s, sup)[i])
        == s[i] || mark_all(s, sup)[i] == tombstoned_view(s[i]) by {
        lemma_mark_all_fields(s, sup, i);
    }
    assert forall|i: int| 0 <= i < s.len()
        implies (#[trigger] mark_all(s, sup)[i]).content_hash == s[i].content_hash
        && mark_all(s, sup)[i].entry_type == s[i].entry_type
        && mark_all(s, sup)[i].author == s[i].author
        && mark_all(s, sup)[i].parent_hash == s[i].parent_hash by {
        lemma_mark_all_fields(s, sup, i);
    }
}

impl HashedBlackboard {
    /// Post an entry: stage it in the pending buffer and index it, after
    /// tombstoning every entry it supersedes, committed or still staged.
    /// Posting an entry whose hash is already present changes nothing and
    /// returns that hash.
    pub fn post(&mut self, entry: BlackboardEntry) -> (r: BlackboardResult<Digest32>)
        requires
            old(self).wf(),
        ensures
            final(self).wf(),
            r is Ok && r.unwrap() == entry@.content_hash,
            final(self)@.epoch == old(self)@.epoch,
            final(self)@.config == old(self)@.config,
            final(self)@.order == old(self)@.order,
            (contains_hash(old(self)@.live, entry@.content_hash)
                || contains_hash(old(self)@.pending, entry@.content_hash))
                ==> final(self)@ == old(self)@,
            !(contains_hash(old(self)@.live, entry@.content_hash)
                || contains_hash(old(self)@.pending, entry@.content_hash)) ==> {
                &&& final(self)@.live == mark_all(old(self)@.live, entry@.supersedes)
                &&& final(self)@.pending == mark_all(old(self)@.pending,
                    entry@.supersedes).push(entry@)
                &&& final(self)@.by_type == old(self)@.by_type.push((
                    entry@.entry_type, entry@.content_hash))
                &&& final(self)@.by_author =~= old(self)@.by_author.push((
                    entry@.author, entry@.content_hash))
                &&& final(self)@.by_parent == match entry@.parent_hash {
                    Option::Some(p) => old(self)@.by_parent.push((p,
                        entry@.content_hash)),
                    Option::None => old(self)@.by_parent,
                }
                &&& final(self)@.cached is None
            },
    {
        let hash = entry.content_hash;
        match find_by_hash(&self.live, &hash) {
            Option::Some(_) => {
                return Result::Ok(hash);
            }
            Option::None => {}
        }
        match find_by_hash(&self.pending, &hash) {
            Option::Some(_) => {
                return Result::Ok(hash);
            }
            Option::None => {}
        }
        let ghost live0 = self@.live;
        let ghost sup = entry@.supersedes;
        proof {
            assert(store_wf(old(self)@));
        }
        // Tombstone superseded live entries in place.
        let ns = entry.supersedes.len();
        let mut k: usize = 0;
        while k < ns
            invariant
                k <= ns,
                ns == entry.supersedes@.len(),
                sup == entry@.supersedes,
                live0 == old(self)@.live,
                unique_hashes(live0),
                self@.live.len() == live0.len(),
                self@.live == mark_all(live0, sup.take(k as int)),
                self.config == old(self).config,
                self.pending == old(self).pending,
                self.by_type == old(self).by_type,
                self.by_author == old(self).by_author,
                self.by_parent == old(self).by_parent,
                self.canonical_order == old(self).canonical_order,
                self.epoch == old(self).epoch,
                self.cached_snapshot == old(self).cached_snapshot,
                self.cached_at == old(self).cached_at,
            decreases ns - k,
        {
            let ghost live_k = self@.live;
            let h = entry.supersedes[k];
            proof {
                assert(sup.take(k + 1).drop_last() =~= sup.take(k as int));
                assert(sup.take(k + 1).last() == sup[k as int]);
                assert(h == sup[k as int]);
            }
            proof {
                lemma_mark_all_all(live0, sup.take(k as int));
            }
            match find_by_hash(&self.live, &h) {
                Option::Some(j) => {
                    let e = vstd::std_specs::vec::vec_index_mut(&mut self.live, j);
                    e.tombstoned = true;
                    proof {
                        assert(self.live@[j as int]@
                            == tombstoned_view(live_k[j as int]));
                        assert forall|i: int| 0 <= i < live_k.len()
                            implies #[trigger] self@.live[i]
                            == mark_one(live_k, h)[i] by {
                            if i != j {
                                assert(self.live@[i]@ == live_k[i]);
                                assert(live_k[i].content_hash
                                    == live0[i].content_hash);
                                assert(live_k[j as int].content_hash
                                    == live0[j as int].content_hash);
                                if i < j {
                                    assert(live0[i].content_hash
                                        != live0[j as int].content_hash);
                                } else {
                                    assert(live0[j as int].content_hash
                                        != live0[i].content_hash);
                                }
                            }
                        }
                        assert(self@.live =~= mark_one(live_k, h));
                        assert(self@.live == mark_all(live0, sup.take(k + 1)));
                    }
                }
                Option::None => {
                    proof {
                        assert forall|i: int| 0 <= i < live_k.len()
                            implies #[trigger] mark_one(live_k, h)[i]
                            == live_k[i] by {
                            assert(live_k[i].content_hash == live0[i].content_hash);
                        }
                        assert(mark_one(live_k, h) =~= live_k);
                        assert(self@.live == mark_all(live0, sup.take(k + 1)));
                    }
                }
            }
            k = k + 1;
        }
        proof {
            assert(sup.take(ns as int) =~= sup);
        }
        // Tombstone superseded staged entries in place.
        let ghost pend_orig = old(self)@.pending;
        let mut k2: usize = 0;
        while k2 < ns
            invariant
                k2 <= ns,
                ns == entry.supersedes@.len(),
                sup == entry@.supersedes,
                pend_orig == old(self)@.pending,
                unique_hashes(pend_orig),
                self@.pending.len() == pend_orig.len(),
                self@.pending == mark_all(pend_orig, sup.take(k2 as int)),
                self@.live == mark_all(old(self)@.live, sup),
                self.config == old(self).config,
                self.by_type == old(self).by_type,
                self.by_author == old(self).by_author,
                self.by_parent == old(self).by_parent,
                self.canonical_order == old(self).canonical_order,
                self.epoch == old(self).epoch,
                self.cached_snapshot == old(self).cached_snapshot,
                self.cached_at == old(self).cached_at,
            decreases ns - k2,
        {
            let ghost pend_k = self@.pending;
            let h = entry.supersedes[k2];
            proof {
                assert(sup.take(k2 + 1).drop_last() =~= sup.take(k2 as int));
                assert(sup.take(k2 + 1).last() == sup[k2 as int]);
                assert(h == sup[k2 as int]);
                lemma_mark_all_all(pend_orig, sup.take(k2 as int));
            }
            match find_by_hash(&self.pending, &h) {
                Option::Some(j) => {
                    let e = vstd::std_specs::vec::vec_index_mut(&mut self.pending, j);
                    e.tombstoned = true;
                    proof {
                        assert(self.pending@[j as int]@
                            == tombstoned_view(pend_k[j as int]));
                        assert forall|i: int| 0 <= i < pend_k.len()
                            implies #[trigger] self@.pending[i]
                            == mark_one(pend_k, h)[i] by {
                            if i != j {
                                assert(self.pending@[i]@ == pend_k[i]);
                                assert(pend_k[i].content_hash
                                    == pend_orig[i].content_hash);
                                assert(pend_k[j as int].content_hash
                                    == pend_orig[j as int].content_hash);
                                if i < j {
                                    assert(pend_orig[i].content_hash
                                        != pend_orig[j as int].content_hash);
                                } else {
                                    assert(pend_orig[j as int].content_hash
                                        != pend_orig[i].content_hash);
                                }
                            }
                        }
                        assert(self@.pending =~= mark_one(pend_k, h));
                        assert(self@.pending == mark_all(pend_orig,
                            sup.take(k2 + 1)));
                    }
                }
                Option::None => {
                    proof {
                        assert forall|i: int| 0 <= i < pend_k.len()
                            implies #[trigger] mark_one(pend_k, h)[i]
                            == pend_k[i] by {
                            assert(pend_k[i].content_hash
                                == pend_orig[i].content_hash);
                        }
                        assert(mark_one(pend_k, h) =~= pend_k);
                        assert(self@.pending == mark_all(pend_orig,
                            sup.take(k2 + 1)));
                    }
                }
            }
            k2 = k2 + 1;
        }
        proof {
            assert(sup.take(ns as int) =~= sup);
        }
        // Index the entry.
        self.by_type.add(entry.entry_type, hash);
        self.by_author.add(&entry.author, hash);
        match &entry.parent_hash {
            Option::Some(p) => {
                self.by_parent.add(*p, hash);
            }
            Option::None => {}
        }
        // Stage it and drop the memoized snapshot.
        let ghost eview = entry@;
        let ghost pend0 = self@.pending;
        self.pending.push(entry);
        self.cached_snapshot = Option::None;
        proof {
            assert(self.pending@.len() == pend0.len() + 1);
            assert forall|i: int| 0 <= i < self.pending@.len()
                implies #[trigger] self@.pending[i] == pend0.push(eview)[i] by {
                if i < pend0.len() {
                    assert(self.pending@[i]@ == pend0[i]);
                } else {
                    assert(self.pending@[i] == entry);
                }
            }
            assert(self@.pending =~= pend0.push(eview));
            self.lemma_post_wf(*old(self), eview);
        }
        Result::Ok(hash)
    }

    /// Re-establish well-formedness after the staging branch of `post`.
    proof fn lemma_post_wf(&self, pre: Self, e: EntryView)
        requires
            pre.wf(),
            !contains_hash(pre@.live, e.content_hash),
            !contains_hash(pre@.pending, e.content_hash),
            self@.live == mark_all(pre@.live, e.supersedes),
            self@.pending == mark_all(pre@.pending, e.supersedes).push(e),
            self@.by_type == pre@.by_type.push((e.entry_type, e.content_hash)),
            self@.by_author =~= pre@.by_author.push((e.author, e.content_hash)),
            self@.by_parent == match e.parent_hash {
                Option::Some(p) => pre@.by_parent.push((p, e.content_hash)),
                Option::None => pre@.by_parent,
            },
            self@.order == pre@.order,
            self@.cached is None,
        ensures
            self.wf(),
    {
        let v = self@;
        let p = pre@;
        lemma_mark_all_all(p.live, e.supersedes);
        lemma_mark_all_all(p.pending, e.supersedes);
        let marked_pending = mark_all(p.pending, e.supersedes);
        assert(unique_hashes(v.live));
        assert(unique_hashes(v.pending)) by {
            assert forall|i: int, j: int| 0 <= i < j < v.pending.len()
                implies v.pending[i].content_hash != v.pending[j].content_hash by {
                if j < v.pending.len() - 1 {
                    assert(v.pending[i] == marked_pending[i]);
                    assert(v.pending[j] == marked_pending[j]);
                    assert(marked_pending[i].content_hash
                        == p.pending[i].content_hash);
                    assert(marked_pending[j].content_hash
                        == p.pending[j].content_hash);
                } else {
                    assert(v.pending[i] == marked_pending[i]);
                    assert(marked_pending[i].content_hash
                        == p.pending[i].content_hash);
                    assert(contains_hash(p.pending, p.pending[i].content_hash));
                }
            }
        }
        assert forall|h: Digest32| !(#[trigger] contains_hash(v.live, h)
            && contains_hash(v.pending, h)) by {
            if contains_hash(v.live, h) {
                let i = choose|i: int| 0 <= i < v.live.len()
                    && v.live[i].content_hash == h;
                assert(p.live[i].content_hash == h);
                assert(contains_hash(p.live, h));
                if contains_hash(v.pending, h) {
                    let j = choose|j: int| 0 <= j < v.pending.len()
                        && v.pending[j].content_hash == h;
                    if j < v.pending.len() - 1 {
                        assert(v.pending[j] == marked_pending[j]);
                        assert(p.pending[j].content_hash == h);
                        assert(contains_hash(p.pending, h));
                    } else {
                        assert(h == e.content_hash);
                    }
                }
            }
        }
        assert forall|h: Digest32| #[trigger] v.order.contains(h)
            == contains_hash(v.live, h) by {
            assert(v.order.contains(h) == contains_hash(p.live, h));
            if contains_hash(p.live, h) {
                let i = choose|i: int| 0 <= i < p.live.len()
                    && p.live[i].content_hash == h;
                assert(v.live[i].content_hash == h);
            }
            if contains_hash(v.live, h) {
                let i = choose|i: int| 0 <= i < v.live.len()
                    && v.live[i].content_hash == h;
                assert(p.live[i].content_hash == h);
            }
        }
        let alln = all_entries(v);
        let allo = all_entries(p);
        assert(alln.len() == allo.len() + 1);
        assert forall|i: int| 0 <= i < allo.len()
            implies (#[trigger] alln[i]).content_hash == allo[i].content_hash
            && alln[i].entry_type == allo[i].entry_type
            && alln[i].author == allo[i].author
            && alln[i].parent_hash == allo[i].parent_hash by {
            if i < v.live.len() {
                assert(alln[i] == v.live[i]);
                assert(allo[i] == p.live[i]);
            } else {
                assert(alln[i] == v.pending[i - v.live.len()]);
                assert(allo[i] == p.pending[i - p.live.len()]);
                assert(v.pending[i - v.live.len()]
                    == marked_pending[i - v.live.len()]);
            }
        }
        assert(alln[alln.len() - 1] == e);
        assert forall|k: EntryType, h: Digest32| #[trigger] has_pair(v.by_type, k, h)
            == exists|i: int| 0 <= i < alln.len()
                && (#[trigger] alln[i]).content_hash == h
                && alln[i].entry_type == k by {
            lemma_pair_push_entry(p.by_type, allo, alln, k, h, e.entry_type,
                e.content_hash, k == e.entry_type);
        }
        assert forall|k: Seq<char>, h: Digest32| #[trigger] has_pair(v.by_author, k, h)
            == exists|i: int| 0 <= i < alln.len()
                && (#[trigger] alln[i]).content_hash == h
                && alln[i].author == k by {
            lemma_pair_push_entry_author(p.by_author, allo, alln, k, h, e.author,
                e.content_hash);
        }
        match e.parent_hash {
            Option::Some(pp) => {
                assert forall|k: Digest32, h: Digest32|
                    #[trigger] has_pair(v.by_parent, k, h)
                    == exists|i: int| 0 <= i < alln.len()
                        && (#[trigger] alln[i]).content_hash == h
                        && alln[i].parent_hash == Option::Some(k) by {
                    lemma_pair_push_entry_parent(p.by_parent, allo, alln, k, h, pp,
                        e.content_hash);
                }
            }
            Option::None => {
                assert forall|k: Digest32, h: Digest32|
                    #[trigger] has_pair(v.by_parent, k, h)
                    == exists|i: int| 0 <= i < alln.len()
                        && (#[trigger] alln[i]).content_hash == h
                        && alln[i].parent_hash == Option::Some(k) by {
                    assert(has_pair(v.by_parent, k, h) == has_pair(p.by_parent, k, h));
                    if has_pair(p.by_parent, k, h) {
                        let i = choose|i: int| 0 <= i < allo.len()
                            && (#[trigger] allo[i]).content_hash == h
                            && allo[i].parent_hash == Option::Some(k);
                        assert(alln[i].content_hash == h
                            && alln[i].parent_hash == Option::Some(k));
                    }
                    if exists|i: int| 0 <= i < alln.len()
                        && (#[trigger] alln[i]).content_hash == h
                        && alln[i].parent_hash == Option::Some(k) {
                        let i = choose|i: int| 0 <= i < alln.len()
                            && (#[trigger] alln[i]).content_hash == h
                            && alln[i].parent_hash == Option::Some(k);
                        if i < allo.len() {
                            assert(allo[i].content_hash == h
                                && allo[i].parent_hash == Option::Some(k));
                        } else {
                            assert(alln[i] == e);
                            assert(false);
                        }
                    }
                }
            }
        }
    }
}

/// Index-invariant transfer across one pushed pair and one appended entry
/// (by-kind form).
proof fn lemma_pair_push_entry(idx: Seq<(EntryType, Digest32)>, allo: Seq<EntryView>,
    alln: Seq<EntryView>, k: EntryType, h: Digest32, ek: EntryType, eh: Digest32,
    matches_kind: bool)
    requires
        alln.len() == allo.len() + 1,
        forall|i: int| 0 <= i < allo.len() ==> (#[trigger] alln[i]).content_hash
            == allo[i].content_hash && alln[i].entry_type == allo[i].entry_type,
        alln[alln.len() - 1].content_hash == eh,
        alln[alln.len() - 1].entry_type == ek,
        matches_kind == (k == ek),
        has_pair(idx, k, h) == exists|i: int| 0 <= i < allo.len()
            && (#[trigger] allo[i]).content_hash == h && allo[i].entry_type == k,
    ensures
        has_pair(idx.push((ek, eh)), k, h) == exists|i: int| 0 <= i < alln.len()
            && (#[trigger] alln[i]).content_hash == h && alln[i].entry_type == k,
{
    let idx2 = idx.push((ek, eh));
    if has_pair(idx2, k, h) {
        let i = choose|i: int| 0 <= i < idx2.len() && idx2[i] == (k, h);
        if i < idx.len() {
            assert(has_pair(idx, k, h));
            let j = choose|j: int| 0 <= j < allo.len()
                && (#[trigger] allo[j]).content_hash == h && allo[j].entry_type == k;
            assert(alln[j].content_hash == h && alln[j].entry_type == k);
        } else {
            assert((k, h) == (ek, eh));
            assert(alln[alln.len() - 1].content_hash == h
                && alln[alln.len() - 1].entry_type == k);
        }
    }
    if exists|i: int| 0 <= i < alln.len() && (#[trigger] alln[i]).content_hash == h
        && alln[i].entry_type == k {
        let i = choose|i: int| 0 <= i < alln.len()
            && (#[trigger] alln[i]).content_hash == h && alln[i].entry_type == k;
        if i < allo.len() {
            assert(allo[i].content_hash == h && allo[i].entry_type == k);
            assert(has_pair(idx, k, h));
            let j = choose|j: int| 0 <= j < idx.len() && idx[j] == (k, h);
            assert(idx2[j] == (k, h));
        } else {
            assert(h == eh && k == ek);
            assert(idx2[idx2.len() - 1] == (k, h));
        }
    }
}

/// Index-invariant transfer across one pushed pair (by-author form).
proof fn lemma_pair_push_entry_author(idx: Seq<(Seq<char>, Digest32)>,
    allo: Seq<EntryView>, alln: Seq<EntryView>, k: Seq<char>, h: Digest32,
    ea: Seq<char>, eh: Digest32)
    requires
        alln.len() == allo.len() + 1,
        forall|i: int| 0 <= i < allo.len() ==> (#[trigger] alln[i]).content_hash
            == allo[i].content_hash && alln[i].author == allo[i].author,
        alln[alln.len() - 1].content_hash == eh,
        alln[alln.len() - 1].author == ea,
        has_pair(idx, k, h) == exists|i: int| 0 <= i < allo.len()
            && (#[trigger] allo[i]).content_hash == h && allo[i].author == k,
    ensures
        has_pair(idx.push((ea, eh)), k, h) == exists|i: int| 0 <= i < alln.len()
            && (#[trigger] alln[i]).content_hash == h && alln[i].author == k,
{
    let idx2 = idx.push((ea, eh));
    if has_pair(idx2, k, h) {
        let i = choose|i: int| 0 <= i < idx2.len() && idx2[i] == (k, h);
        if i < idx.len() {
            assert(has_pair(idx, k, h));
            let j = choose|j: int| 0 <= j < allo.len()
                && (#[trigger] allo[j]).content_hash == h && allo[j].author == k;
            assert(alln[j].content_hash == h && alln[j].author == k);
        } else {
            assert(alln[alln.len() - 1].content_hash == h
                && alln[alln.len() - 1].author == k);
        }
    }
    if exists|i: int| 0 <= i < alln.len() && (#[trigger] alln[i]).content_hash == h
        && alln[i].author == k {
        let i = choose|i: int| 0 <= i < alln.len()
            && (#[trigger] alln[i]).content_hash == h && alln[i].author == k;
        if i < allo.len() {
            assert(allo[i].content_hash == h && allo[i].author == k);
            assert(has_pair(idx, k, h));
            let j = choose|j: int| 0 <= j < idx.len() && idx[j] == (k, h);
            assert(idx2[j] == (k, h));
        } else {
            assert(idx2[idx2.len() - 1] == (k, h));
        }
    }
}

/// Index-invariant transfer across one pushed pair (by-parent form).
proof fn lemma_pair_push_entry_parent(idx: Seq<(Digest32, Digest32)>,
    allo: Seq<EntryView>, alln: Seq<EntryView>, k: Digest32, h: Digest32,
    ep: Digest32, eh: Digest32)
    requires
        alln.len() == allo.len() + 1,
        forall|i: int| 0 <= i < allo.len() ==> (#[trigger] alln[i]).content_hash
            == allo[i].content_hash && alln[i].parent_hash == allo[i].parent_hash,
        alln[alln.len() - 1].content_hash == eh,
        alln[alln.len() - 1].parent_hash == Option::Some(ep),
        has_pair(idx, k, h) == exists|i: int| 0 <= i < allo.len()
            && (#[trigger] allo[i]).content_hash == h
            && allo[i].parent_hash == Option::Some(k),
    ensures
        has_pair(idx.push((ep, eh)), k, h) == exists|i: int| 0 <= i < alln.len()
            && (#[trigger] alln[i]).content_hash == h
            && alln[i].parent_hash == Option::Some(k),
{
    let idx2 = idx.push((ep, eh));
    if has_pair(idx2, k, h) {
        let i = choose|i: int| 0 <= i < idx2.len() && idx2[i] == (k, h);
        if i < idx.len() {
            assert(has_pair(idx, k, h));
            let j = choose|j: int| 0 <= j < allo.len()
                && (#[trigger] allo[j]).content_hash == h
                && allo[j].parent_hash == Option::Some(k);
            assert(alln[j].content_hash == h
                && alln[j].parent_hash == Option::Some(k));
        } else {
            assert(alln[alln.len() - 1].content_hash == h
                && alln[alln.len() - 1].parent_hash == Option::Some(k));
        }
    }
    if exists|i: int| 0 <= i < alln.len() && (#[trigger] alln[i]).content_hash == h
        && alln[i].parent_hash == Option::Some(k) {
        let i = choose|i: int| 0 <= i < alln.len()
            && (#[trigger] alln[i]).content_hash == h
            && alln[i].parent_hash == Option::Some(k);
        if i < allo.len() {
            assert(allo[i].content_hash == h
                && allo[i].parent_hash == Option::Some(k));
            assert(has_pair(idx, k, h));
            let j = choose|j: int| 0 <= j < idx.len() && idx[j] == (k, h);
            assert(idx2[j] == (k, h));
        } else {
            assert(idx2[idx2.len() - 1] == (k, h));
        }
    }
}

/// The index invariants carry over unchanged between two states whose
/// entries agree pointwise on hash, kind, author and parent.
proof fn lemma_index_inv_transfer(vo: HashedView, vn: HashedView)
    requires
        store_wf(vo),
        vn.by_type == vo.by_type,
        vn.by_author == vo.by_author,
        vn.by_parent == vo.by_parent,
        all_entries(vn).len() == all_entries(vo).len(),
        forall|i: int| 0 <= i < all_entries(vo).len()
            ==> (#[trigger] all_entries(vn)[i]).content_hash
                == all_entries(vo)[i].content_hash
            && all_entries(vn)[i].entry_type == all_entries(vo)[i].entry_type
            && all_entries(vn)[i].author == all_entries(vo)[i].author
            && all_entries(vn)[i].parent_hash == all_entries(vo)[i].parent_hash,
    ensures
        forall|k: EntryType, h: Digest32| #[trigger] has_pair(vn.by_type, k, h)
            == exists|i: int| 0 <= i < all_entries(vn).len()
                && (#[trigger] all_entries(vn)[i]).content_hash == h
                && all_entries(vn)[i].entry_type == k,
        forall|k: Seq<char>, h: Digest32| #[trigger] has_pair(vn.by_author, k, h)
            == exists|i: int| 0 <= i < all_entries(vn).len()
                && (#[trigger] all_entries(vn)[i]).content_hash == h
                && all_entries(vn)[i].author == k,
        forall|k: Digest32, h: Digest32| #[trigger] has_pair(vn.by_parent, k, h)
            == exists|i: int| 0 <= i < all_entries(vn).len()
                && (#[trigger] all_entries(vn)[i]).content_hash == h
                && all_entries(vn)[i].parent_hash == Option::Some(k),
{
    let ao = all_entries(vo);
    let an = all_entries(vn);
    assert forall|k: EntryType, h: Digest32| #[trigger] has_pair(vn.by_type, k, h)
        == exists|i: int| 0 <= i < an.len() && (#[trigger] an[i]).content_hash == h
            && an[i].entry_type == k by {
        if has_pair(vo.by_type, k, h) {
            let i = choose|i: int| 0 <= i < ao.len()
                && (#[trigger] ao[i]).content_hash == h && ao[i].entry_type == k;
            assert(an[i].content_hash == h && an[i].entry_type == k);
        }
        if exists|i: int| 0 <= i < an.len() && (#[trigger] an[i]).content_hash == h
            && an[i].entry_type == k {
            let i = choose|i: int| 0 <= i < an.len()
                && (#[trigger] an[i]).content_hash == h && an[i].entry_type == k;
            assert(ao[i].content_hash == h && ao[i].entry_type == k);
        }
    }
    assert forall|k: Seq<char>, h: Digest32| #[trigger] has_pair(vn.by_author, k, h)
        == exists|i: int| 0 <= i < an.len() && (#[trigger] an[i]).content_hash == h
            && an[i].author == k by {
        if has_pair(vo.by_author, k, h) {
            let i = choose|i: int| 0 <= i < ao.len()
                && (#[trigger] ao[i]).content_hash == h && ao[i].author == k;
            assert(an[i].content_hash == h && an[i].author == k);
        }
        if exists|i: int| 0 <= i < an.len() && (#[trigger] an[i]).content_hash == h
            && an[i].author == k {
            let i = choose|i: int| 0 <= i < an.len()
                && (#[trigger] an[i]).content_hash == h && an[i].author == k;
            assert(ao[i].content_hash == h && ao[i].author == k);
        }
    }
    assert forall|k: Digest32, h: Digest32| #[trigger] has_pair(vn.by_parent, k, h)
        == exists|i: int| 0 <= i < an.len() && (#[trigger] an[i]).content_hash == h
            && an[i].parent_hash == Option::Some(k) by {
        if has_pair(vo.by_parent, k, h) {
            let i = choose|i: int| 0 <= i < ao.len()
                && (#[trigger] ao[i]).content_hash == h
                && ao[i].parent_hash == Option::Some(k);
            assert(an[i].content_hash == h && an[i].parent_hash == Option::Some(k));
        }
        if exists|i: int| 0 <= i < an.len() && (#[trigger] an[i]).content_hash == h
            && an[i].parent_hash == Option::Some(k) {
            let i = choose|i: int| 0 <= i < an.len()
                && (#[trigger] an[i]).content_hash == h
                && an[i].parent_hash == Option::Some(k);
            assert(ao[i].content_hash == h && ao[i].parent_hash == Option::Some(k));
        }
    }
}

/// Sorting preserves length.
pub proof fn lemma_sort_len(s: Seq<EntryView>)
    ensures
        sort_by_hash(s).len() == s.len(),
    decreases s.len(),
{
    if s.len() > 0 {
        lemma_sort_len(s.drop_last());
        lemma_insert_len(sort_by_hash(s.drop_last()), s.last());
    }
}

/// The index invariants carry over between two states whose entries are
/// the same family, in any order.
proof fn lemma_index_inv_elem(vo: HashedView, vn: HashedView)
    requires
        store_wf(vo),
        vn.by_type == vo.by_type,
        vn.by_author == vo.by_author,
        vn.by_parent == vo.by_parent,
        forall|x: EntryView| #[trigger] all_entries(vn).contains(x)
            == all_entries(vo).contains(x),
    ensures
        forall|k: EntryType, h: Digest32| #[trigger] has_pair(vn.by_type, k, h)
            == exists|i: int| 0 <= i < all_entries(vn).len()
                && (#[trigger] all_entries(vn)[i]).content_hash == h
                && all_entries(vn)[i].entry_type == k,
        forall|k: Seq<char>, h: Digest32| #[trigger] has_pair(vn.by_author, k, h)
            == exists|i: int| 0 <= i < all_entries(vn).len()
                && (#[trigger] all_entries(vn)[i]).content_hash == h
                && all_entries(vn)[i].author == k,
        forall|k: Digest32, h: Digest32| #[trigger] has_pair(vn.by_parent, k, h)
            == exists|i: int| 0 <= i < all_entries(vn).len()
                && (#[trigger] all_entries(vn)[i]).content_hash == h
                && all_entries(vn)[i].parent_hash == Option::Some(k),
{
    let ao = all_entries(vo);
    let an = all_entries(vn);
    assert forall|k: EntryType, h: Digest32| #[trigger] has_pair(vn.by_type, k, h)
        == exists|i: int| 0 <= i < an.len() && (#[trigger] an[i]).content_hash == h
            && an[i].entry_type == k by {
        if has_pair(vo.by_type, k, h) {
            let i = choose|i: int| 0 <= i < ao.len()
                && (#[trigger] ao[i]).content_hash == h && ao[i].entry_type == k;
            assert(ao.contains(ao[i]));
            assert(an.contains(ao[i]));
            let j = choose|j: int| 0 <= j < an.len() && an[j] == ao[i];
            assert(an[j].content_hash == h && an[j].entry_type == k);
        }
        if exists|i: int| 0 <= i < an.len() && (#[trigger] an[i]).content_hash == h
            && an[i].entry_type == k {
            let i = choose|i: int| 0 <= i < an.len()
                && (#[trigger] an[i]).content_hash == h && an[i].entry_type == k;
            assert(an.contains(an[i]));
            assert(ao.contains(an[i]));
            let j = choose|j: int| 0 <= j < ao.len() && ao[j] == an[i];
            assert(ao[j].content_hash == h && ao[j].entry_type == k);
        }
    }
    assert forall|k: Seq<char>, h: Digest32| #[trigger] has_pair(vn.by_author, k, h)
        == exists|i: int| 0 <= i < an.len() && (#[trigger] an[i]).content_hash == h
            && an[i].author == k by {
        if has_pair(vo.by_author, k, h) {
            let i = choose|i: int| 0 <= i < ao.len()
                && (#[trigger] ao[i]).content_hash == h && ao[i].author == k;
            assert(ao.contains(ao[i]));
            assert(an.contains(ao[i]));
            let j = choose|j: int| 0 <= j < an.len() && an[j] == ao[i];
            assert(an[j].content_hash == h && an[j].author == k);
        }
        if exists|i: int| 0 <= i < an.len() && (#[trigger] an[i]).content_hash == h
            && an[i].author == k {
            let i = choose|i: int| 0 <= i < an.len()
                && (#[trigger] an[i]).content_hash == h && an[i].author == k;
            assert(an.contains(an[i]));
            assert(ao.contains(an[i]));
            let j = choose|j: int| 0 <= j < ao.len() && ao[j] == an[i];
            assert(ao[j].content_hash == h && ao[j].author == k);
        }
    }
    assert forall|k: Digest32, h: Digest32| #[trigger] has_pair(vn.by_parent, k, h)
        == exists|i: int| 0 <= i < an.len() && (#[trigger] an[i]).content_hash == h
            && an[i].parent_hash == Option::Some(k) by {
        if has_pair(vo.by_parent, k, h) {
            let i = choose|i: int| 0 <= i < ao.len()
                && (#[trigger] ao[i]).content_hash == h
                && ao[i].parent_hash == Option::Some(k);
            assert(ao.contains(ao[i]));
            assert(an.contains(ao[i]));
            let j = choose|j: int| 0 <= j < an.len() && an[j] == ao[i];
            assert(an[j].content_hash == h && an[j].parent_hash == Option::Some(k));
        }
        if exists|i: int| 0 <= i < an.len() && (#[trigger] an[i]).content_hash == h
            && an[i].parent_hash == Option::Some(k) {
            let i = choose|i: int| 0 <= i < an.len()
                && (#[trigger] an[i]).content_hash == h
                && an[i].parent_hash == Option::Some(k);
            assert(an.contains(an[i]));
            assert(ao.contains(an[i]));
            let j = choose|j: int| 0 <= j < ao.len() && ao[j] == an[i];
            assert(ao[j].content_hash == h && ao[j].parent_hash == Option::Some(k));
        }
    }
}

/// Insert an entry into a batch kept in ascending hash order.
fn insert_entry_sorted(batch: &mut Vec<BlackboardEntry>, e: BlackboardEntry)
    ensures
        final(batch).deep_view() == insert_by_hash(old(batch).deep_view(), e@),
{
    let ghost dv = batch.deep_view();
    let ghost ev = e@;
    let n = batch.len();
    proof {
        assert(dv.skip(0) =~= dv);
        assert(dv.take(0) + insert_by_hash(dv.skip(0), ev)
            =~= insert_by_hash(dv, ev));
    }
    let mut i: usize = 0;
    while i < n && !crate::digest::digest_lt_exec(&e.content_hash,
        &batch[i].content_hash)
        invariant
            i <= n,
            n == dv.len(),
            dv == batch.deep_view(),
            ev == e@,
            insert_by_hash(dv, ev) == dv.take(i as int)
                + insert_by_hash(dv.skip(i as int), ev),
        decreases n - i,
    {
        proof {
            let rest = dv.skip(i as int);
            assert(rest[0] == dv[i as int]);
            assert(dv[i as int] == batch@[i as int]@);
            assert(!digest_lt(ev.content_hash, rest[0].content_hash));
            assert(rest.drop_first() =~= dv.skip(i as int + 1));
            assert(insert_by_hash(rest, ev) == seq![rest[0]]
                + insert_by_hash(dv.skip(i as int + 1), ev));
            assert(dv.take(i as int) + (seq![dv[i as int]]
                + insert_by_hash(dv.skip(i as int + 1), ev))
                =~= dv.take(i as int + 1) + insert_by_hash(dv.skip(i as int + 1),
                    ev));
        }
        i = i + 1;
    }
    proof {
        if i < n {
            // the loop stopped because the staged entry sorts below dv[i]
            assert(dv.skip(i as int)[0] == dv[i as int]);
            assert(dv[i as int] == batch@[i as int]@);
            assert(insert_by_hash(dv.skip(i as int), ev)
                == seq![ev] + dv.skip(i as int));
        } else {
            assert(dv.skip(i as int) =~= Seq::<EntryView>::empty());
            assert(insert_by_hash(dv.skip(i as int), ev) =~= seq![ev]);
        }
    }
    batch.insert(i, e);
    proof {
        let out = batch.deep_view();
        let spec_val = insert_by_hash(dv, ev);
        assert(batch@ == old(batch)@.insert(i as int, e));
        old(batch)@.insert_ensures(i as int, e);
        assert forall|x: int| 0 <= x < out.len() implies #[trigger] out[x]
            == spec_val[x] by {
            assert(out[x] == batch@[x]@);
            if x < i {
                assert(batch@[x] == old(batch)@[x]);
                assert(spec_val[x] == dv.take(i as int)[x]);
            } else if x == i {
                assert(batch@[x] == e);
            } else {
                assert(batch@[x] == old(batch)@[x - 1]);
                if i < dv.len() {
                    assert(spec_val[x] == (seq![ev] + dv.skip(i as int))[x - i]);
                }
            }
        }
        lemma_insert_len(dv, ev);
        assert(out =~= spec_val);
    }
}

impl HashedBlackboard {
    /// Advance the epoch: promote every staged entry into the live map and
    /// append its hash to the canonical order, then clear the staging
    /// buffer and bump the counter. A batch is promoted in ascending hash
    /// byte order, so the canonical order two boards arrive at depends
    /// only on which entries each batch held, not on the order they were
    /// posted in — the reproducibility cache thumbprints rest on.
    pub fn advance_epoch(&mut self) -> (r: u64)
        requires
            old(self).wf(),
            old(self)@.epoch < u64::MAX,
        ensures
            final(self).wf(),
            final(self)@.live == old(self)@.live
                + sort_by_hash(old(self)@.pending),
            final(self)@.order == old(self)@.order
                + hashes_of(sort_by_hash(old(self)@.pending)),
            final(self)@.pending =~= Seq::<EntryView>::empty(),
            final(self)@.epoch == old(self)@.epoch + 1,
            r == old(self)@.epoch + 1,
            final(self)@.cached is None,
            final(self)@.config == old(self)@.config,
            final(self)@.by_type == old(self)@.by_type,
            final(self)@.by_author == old(self)@.by_author,
            final(self)@.by_parent == old(self)@.by_parent,
    {
        let ghost live0 = self@.live;
        let ghost pend0 = self@.pending;
        let ghost order0 = self@.order;
        proof {
            assert(store_wf(old(self)@));
        }
        // Order the staged batch by ascending hash.
        let mut batch: Vec<BlackboardEntry> = Vec::new();
        let np = self.pending.len();
        let mut k: usize = 0;
        while k < np
            invariant
                k <= np,
                np == pend0.len(),
                pend0 == self@.pending,
                self == old(self),
                batch.deep_view() == sort_by_hash(pend0.take(k as int)),
            decreases np - k,
        {
            proof {
                assert(pend0.take(k + 1).drop_last() =~= pend0.take(k as int));
                assert(pend0.take(k + 1).last() == pend0[k as int]);
            }
            let e = self.pending[k].clone();
            proof {
                assert(e@ == pend0[k as int]);
            }
            insert_entry_sorted(&mut batch, e);
            k = k + 1;
        }
        let ghost sorted = sort_by_hash(pend0);
        proof {
            assert(pend0.take(np as int) =~= pend0);
            assert(batch.deep_view() == sorted);
            lemma_sort_len(pend0);
            lemma_sort_unique(pend0);
        }
        // Promote the batch, in order.
        let nb = batch.len();
        let mut i: usize = 0;
        while i < nb
            invariant
                i <= nb,
                nb == sorted.len(),
                sorted == sort_by_hash(pend0),
                live0 == old(self)@.live,
                pend0 == old(self)@.pending,
                order0 == old(self)@.order,
                batch.deep_view() == sorted,
                self@.live =~= live0 + sorted.take(i as int),
                self@.order =~= order0 + hashes_of(sorted.take(i as int)),
                self.pending == old(self).pending,
                self.config == old(self).config,
                self.by_type == old(self).by_type,
                self.by_author == old(self).by_author,
                self.by_parent == old(self).by_parent,
                self.epoch == old(self).epoch,
                self.cached_snapshot == old(self).cached_snapshot,
                self.cached_at == old(self).cached_at,
            decreases nb - i,
        {
            let ghost livek = self@.live;
            let h = batch[i].content_hash;
            let e = batch[i].clone();
            proof {
                assert(batch@[i as int]@ == sorted[i as int]);
                assert(e@ == sorted[i as int]);
                assert(h == sorted[i as int].content_hash);
            }
            self.canonical_order.push(h);
            self.live.push(e);
            proof {
                assert(self.live@.len() == livek.len() + 1);
                assert forall|x: int| 0 <= x < self.live@.len()
                    implies #[trigger] self@.live[x]
                    == (live0 + sorted.take(i + 1))[x] by {
                    if x < livek.len() {
                        assert(self.live@[x]@ == livek[x]);
                        assert((live0 + sorted.take(i + 1))[x] == livek[x]);
                    } else {
                        assert(x == livek.len());
                        assert(self.live@[x] == e);
                        assert(self.live@[x]@ == sorted[i as int]);
                        assert((live0 + sorted.take(i + 1))[x]
                            == sorted[i as int]);
                    }
                }
                assert(self@.live =~= live0 + sorted.take(i + 1));
                assert(hashes_of(sorted.take(i + 1)) =~= hashes_of(sorted.take(
                    i as int)).push(sorted[i as int].content_hash));
                assert(self@.order =~= order0 + hashes_of(sorted.take(i + 1)));
            }
            i = i + 1;
        }
        proof {
            assert(sorted.take(nb as int) =~= sorted);
        }
        self.pending.clear();
        self.cached_snapshot = Option::None;
        let new_epoch = self.epoch + 1;
        self.epoch = new_epoch;
        proof {
            let vo = old(self)@;
            let vn = self@;
            assert(vn.live =~= live0 + sorted);
            assert(vn.pending =~= Seq::<EntryView>::empty());
            // sorting keeps exactly the staged hashes
            assert forall|h: Digest32| #[trigger] contains_hash(sorted, h)
                == contains_hash(pend0, h) by {
                lemma_sort_hash(pend0, h);
            }
            // hash uniqueness of the merged live map
            assert forall|i2: int, j2: int| 0 <= i2 < j2 < vn.live.len()
                implies (#[trigger] vn.live[i2]).content_hash
                != (#[trigger] vn.live[j2]).content_hash by {
                if i2 < live0.len() && j2 >= live0.len() {
                    assert(vn.live[i2] == live0[i2]);
                    assert(vn.live[j2] == sorted[j2 - live0.len()]);
                    assert(contains_hash(live0, live0[i2].content_hash));
                    if live0[i2].content_hash
                        == sorted[j2 - live0.len()].content_hash {
                        assert(contains_hash(sorted, live0[i2].content_hash)) by {
                            assert(sorted[j2 - live0.len()].content_hash
                                == live0[i2].content_hash);
                        }
                        assert(contains_hash(pend0, live0[i2].content_hash));
                    }
                } else if i2 >= live0.len() {
                    assert(vn.live[i2] == sorted[i2 - live0.len()]);
                    assert(vn.live[j2] == sorted[j2 - live0.len()]);
                } else {
                    assert(vn.live[i2] == live0[i2]);
                    assert(vn.live[j2] == live0[j2]);
                }
            }
            // the order lists exactly the live hashes, without duplicates
            assert forall|h: Digest32| #[trigger] vn.order.contains(h)
                == contains_hash(vn.live, h) by {
                if vn.order.contains(h) {
                    let i2 = choose|i2: int| 0 <= i2 < vn.order.len()
                        && vn.order[i2] == h;
                    if i2 < order0.len() {
                        assert(order0.contains(h));
                        let j2 = choose|j2: int| 0 <= j2 < live0.len()
                            && live0[j2].content_hash == h;
                        assert(vn.live[j2].content_hash == h);
                    } else {
                        assert(h == sorted[i2 - order0.len()].content_hash);
                        assert(vn.live[live0.len()
                            + (i2 - order0.len())].content_hash == h);
                    }
                }
                if contains_hash(vn.live, h) {
                    let j2 = choose|j2: int| 0 <= j2 < vn.live.len()
                        && vn.live[j2].content_hash == h;
                    if j2 < live0.len() {
                        assert(contains_hash(live0, h));
                        assert(order0.contains(h));
                        let i2 = choose|i2: int| 0 <= i2 < order0.len()
                            && order0[i2] == h;
                        assert(vn.order[i2] == h);
                    } else {
                        assert(vn.order[order0.len() + (j2 - live0.len())] == h);
                    }
                }
            }
            assert(vn.order.no_duplicates()) by {
                assert forall|i2: int, j2: int| 0 <= i2 < j2 < vn.order.len()
                    implies vn.order[i2] != vn.order[j2] by {
                    if i2 < order0.len() && j2 >= order0.len() {
                        if vn.order[i2] == vn.order[j2] {
                            assert(order0.contains(order0[i2]));
                            assert(contains_hash(live0, order0[i2]));
                            assert(vn.order[j2]
                                == sorted[j2 - order0.len()].content_hash);
                            assert(contains_hash(sorted, order0[i2])) by {
                                assert(sorted[j2 - order0.len()].content_hash
                                    == order0[i2]);
                            }
                            assert(contains_hash(pend0, order0[i2]));
                        }
                    } else if i2 >= order0.len() {
                        assert(vn.order[i2]
                            == sorted[i2 - order0.len()].content_hash);
                        assert(vn.order[j2]
                            == sorted[j2 - order0.len()].content_hash);
                    } else {
                        assert(order0.no_duplicates());
                    }
                }
            }
            // the entries are the same family, reordered
            assert forall|x: EntryView| #[trigger] all_entries(vn).contains(x)
                == all_entries(vo).contains(x) by {
                lemma_sort_elem(pend0, x);
                if all_entries(vn).contains(x) {
                    let i2 = choose|i2: int| 0 <= i2 < all_entries(vn).len()
                        && all_entries(vn)[i2] == x;
                    if i2 < live0.len() {
                        assert(all_entries(vo)[i2] == x);
                        assert(all_entries(vo).contains(x)) by {
                            assert(all_entries(vo)[i2] == x);
                        }
                    } else {
                        assert(sorted[i2 - live0.len()] == x);
                        assert(sorted.contains(x)) by {
                            assert(sorted[i2 - live0.len()] == x);
                        }
                        assert(pend0.contains(x));
                        let j2 = choose|j2: int| 0 <= j2 < pend0.len()
                            && pend0[j2] == x;
                        assert(all_entries(vo)[live0.len() + j2] == x);
                        assert(all_entries(vo).contains(x)) by {
                            assert(all_entries(vo)[live0.len() + j2] == x);
                        }
                    }
                }
                if all_entries(vo).contains(x) {
                    let i2 = choose|i2: int| 0 <= i2 < all_entries(vo).len()
                        && all_entries(vo)[i2] == x;
                    if i2 < live0.len() {
                        assert(all_entries(vn)[i2] == x);
                        assert(all_entries(vn).contains(x)) by {
                            assert(all_entries(vn)[i2] == x);
                        }
                    } else {
                        assert(pend0[i2 - live0.len()] == x);
                        assert(pend0.contains(x)) by {
                            assert(pend0[i2 - live0.len()] == x);
                        }
                        assert(sorted.contains(x));
                        let j2 = choose|j2: int| 0 <= j2 < sorted.len()
                            && sorted[j2] == x;
                        assert(all_entries(vn)[live0.len() + j2] == x);
                        assert(all_entries(vn).contains(x)) by {
                            assert(all_entries(vn)[live0.len() + j2] == x);
                        }
                    }
                }
            }
            lemma_index_inv_elem(vo, vn);
            assert(store_wf(vn));
        }
        new_epoch
    }

    /// Tombstone an entry in place: a logical delete that keeps the hash
    /// chain resolvable. The memoized snapshot is dropped whether the
    /// entry was committed or staged. Fails with a not-found error when no
    /// entry has the given hash.
    pub fn tombstone(&mut self, hash: &Digest32) -> (r: BlackboardResult<()>)
        requires
            old(self).wf(),
        ensures
            final(self).wf(),
            final(self)@.config == old(self)@.config,
            final(self)@.epoch == old(self)@.epoch,
            final(self)@.order == old(self)@.order,
            final(self)@.by_type == old(self)@.by_type,
            final(self)@.by_author == old(self)@.by_author,
            final(self)@.by_parent == old(self)@.by_parent,
            contains_hash(old(self)@.live, *hash) ==> r is Ok
                && final(self)@.live == mark_one(old(self)@.live, *hash)
                && final(self)@.pending == old(self)@.pending
                && final(self)@.cached is None,
            !contains_hash(old(self)@.live, *hash)
                && contains_hash(old(self)@.pending, *hash) ==> r is Ok
                && final(self)@.pending == mark_one(old(self)@.pending, *hash)
                && final(self)@.live == old(self)@.live
                && final(self)@.cached is None,
            !contains_hash(old(self)@.live, *hash)
                && !contains_hash(old(self)@.pending, *hash)
                ==> final(self)@ == old(self)@
                && (r matches Result::Err(e) && e@ == ErrorView::NotFound(
                    "Entry not found"@)),
    {
        proof {
            assert(store_wf(old(self)@));
        }
        let ghost live0 = self@.live;
        let ghost pend0 = self@.pending;
        match find_by_hash(&self.live, hash) {
            Option::Some(j) => {
                let e = vstd::std_specs::vec::vec_index_mut(&mut self.live, j);
                e.tombstoned = true;
                self.cached_snapshot = Option::None;
                proof {
                    assert(self.live@[j as int]@ == tombstoned_view(live0[j as int]));
                    assert forall|i: int| 0 <= i < live0.len()
                        implies #[trigger] self@.live[i] == mark_one(live0, *hash)[i] by {
                        if i != j {
                            assert(self.live@[i]@ == live0[i]);
                            if i < j {
                                assert(live0[i].content_hash
                                    != live0[j as int].content_hash);
                            } else {
                                assert(live0[j as int].content_hash
                                    != live0[i].content_hash);
                            }
                        }
                    }
                    assert(self@.live =~= mark_one(live0, *hash));
                    self.lemma_tombstone_wf(*old(self));
                }
                Result::Ok(())
            }
            Option::None => {
                match find_by_hash(&self.pending, hash) {
                    Option::Some(j) => {
                        let e = vstd::std_specs::vec::vec_index_mut(&mut self.pending,
                            j);
                        e.tombstoned = true;
                        self.cached_snapshot = Option::None;
                        proof {
                            assert(self.pending@[j as int]@
                                == tombstoned_view(pend0[j as int]));
                            assert forall|i: int| 0 <= i < pend0.len()
                                implies #[trigger] self@.pending[i]
                                == mark_one(pend0, *hash)[i] by {
                                if i != j {
                                    assert(self.pending@[i]@ == pend0[i]);
                                    if i < j {
                                        assert(pend0[i].content_hash
                                            != pend0[j as int].content_hash);
                                    } else {
                                        assert(pend0[j as int].content_hash
                                            != pend0[i].content_hash);
                                    }
                                }
                            }
                            assert(self@.pending =~= mark_one(pend0, *hash));
                            self.lemma_tombstone_wf(*old(self));
                        }
                        Result::Ok(())
                    }
                    Option::None => {
                        Result::Err(BlackboardError::NotFound(String::from_str(
                            "Entry not found")))
                    }
                }
            }
        }
    }

    /// Well-formedness after tombstoning one entry in either map.
    proof fn lemma_tombstone_wf(&self, pre: Self)
        requires
            pre.wf(),
            self@.config == pre@.config,
            self@.order == pre@.order,
            self@.epoch == pre@.epoch,
            self@.by_type == pre@.by_type,
            self@.by_author == pre@.by_author,
            self@.by_parent == pre@.by_parent,
            self@.live.len() == pre@.live.len(),
            self@.pending.len() == pre@.pending.len(),
            forall|i: int| 0 <= i < pre@.live.len() ==> (#[trigger] self@.live[i])
                == pre@.live[i] || self@.live[i] == tombstoned_view(pre@.live[i]),
            forall|i: int| 0 <= i < pre@.pending.len()
                ==> (#[trigger] self@.pending[i]) == pre@.pending[i]
                || self@.pending[i] == tombstoned_view(pre@.pending[i]),
            self@.cached is None || self@.cached == pre@.cached
                && self@.live == pre@.live && self.cached_at == pre.cached_at,
        ensures
            self.wf(),
    {
        let vo = pre@;
        let vn = self@;
        assert forall|i: int| 0 <= i < vo.live.len()
            implies (#[trigger] vn.live[i]).content_hash == vo.live[i].content_hash by {}
        assert forall|i: int| 0 <= i < vo.pending.len()
            implies (#[trigger] vn.pending[i]).content_hash
            == vo.pending[i].content_hash by {}
        assert forall|h: Digest32| #[trigger] contains_hash(vn.live, h)
            == contains_hash(vo.live, h) by {
            if contains_hash(vn.live, h) {
                let i = choose|i: int| 0 <= i < vn.live.len()
                    && vn.live[i].content_hash == h;
                assert(vo.live[i].content_hash == h);
            }
            if contains_hash(vo.live, h) {
                let i = choose|i: int| 0 <= i < vo.live.len()
                    && vo.live[i].content_hash == h;
                assert(vn.live[i].content_hash == h);
            }
        }
        assert forall|h: Digest32| #[trigger] contains_hash(vn.pending, h)
            == contains_hash(vo.pending, h) by {
            if contains_hash(vn.pending, h) {
                let i = choose|i: int| 0 <= i < vn.pending.len()
                    && vn.pending[i].content_hash == h;
                assert(vo.pending[i].content_hash == h);
            }
            if contains_hash(vo.pending, h) {
                let i = choose|i: int| 0 <= i < vo.pending.len()
                    && vo.pending[i].content_hash == h;
                assert(vn.pending[i].content_hash == h);
            }
        }
        assert(all_entries(vn).len() == all_entries(vo).len());
        assert forall|i: int| 0 <= i < all_entries(vo).len()
            implies (#[trigger] all_entries(vn)[i]).content_hash
                == all_entries(vo)[i].content_hash
            && all_entries(vn)[i].entry_type == all_entries(vo)[i].entry_type
            && all_entries(vn)[i].author == all_entries(vo)[i].author
            && all_entries(vn)[i].parent_hash == all_entries(vo)[i].parent_hash by {
            if i < vn.live.len() {
                assert(all_entries(vn)[i] == vn.live[i]);
                assert(all_entries(vo)[i] == vo.live[i]);
            } else {
                assert(all_entries(vn)[i] == vn.pending[i - vn.live.len()]);
                assert(all_entries(vo)[i] == vo.pending[i - vo.live.len()]);
            }
        }
        lemma_index_inv_transfer(vo, vn);
        assert(store_wf(vn));
        if vn.cached is Some {
            assert(cache_ok(vn, self.cached_at@));
        }
    }

    /// Remove every entry and index pair; the epoch counter is kept.
    pub fn clear(&mut self) -> (r: BlackboardResult<()>)
        requires
            old(self).wf(),
        ensures
            final(self).wf(),
            r is Ok,
            final(self)@.live =~= Seq::<EntryView>::empty(),
            final(self)@.pending =~= Seq::<EntryView>::empty(),
            final(self)@.order =~= Seq::<Digest32>::empty(),
            final(self)@.by_type =~= Seq::<(EntryType, Digest32)>::empty(),
            final(self)@.by_author =~= Seq::<(Seq<char>, Digest32)>::empty(),
            final(self)@.by_parent =~= Seq::<(Digest32, Digest32)>::empty(),
            final(self)@.cached is None,
            final(self)@.epoch == old(self)@.epoch,
            final(self)@.config == old(self)@.config,
    {
        self.live.clear();
        self.pending.clear();
        self.by_type.clear();
        self.by_author.clear();
        self.by_parent.clear();
        self.canonical_order.clear();
        self.cached_snapshot = Option::None;
        proof {
            assert(self@.live =~= Seq::<EntryView>::empty());
            assert(self@.pending =~= Seq::<EntryView>::empty());
            assert forall|k: EntryType, h: Digest32|
                !(#[trigger] has_pair(self@.by_type, k, h)) by {}
            assert forall|k: Seq<char>, h: Digest32|
                !(#[trigger] has_pair(self@.by_author, k, h)) by {}
            assert forall|k: Digest32, h: Digest32|
                !(#[trigger] has_pair(self@.by_parent, k, h)) by {}
        }
        Result::Ok(())
    }

    /// Export the committed entries. The epoch bound is advisory: entries
    /// do not carry their commit epoch, so all live entries are exported,
    /// in canonical promotion order, which makes the payload deterministic.
    pub fn export_entries(&self, since_epoch: Option<u64>)
        -> (r: BlackboardResult<Vec<BlackboardEntry>>)
        requires
            self.wf(),
        ensures
            r is Ok,
            r.unwrap().deep_view() == self@.live,
    {
        let _ = since_epoch;
        Result::Ok(crate::snapshot::clone_entries(&self.live))
    }
}

/// Every entry a snapshot keeps is neither tombstoned nor expired at the
/// instant the snapshot was built.
pub proof fn lemma_snap_entries_clean(live: Seq<EntryView>, order: Seq<Digest32>,
    stm_ttl_ms: u64, now_ms: u64, i: int)
    requires
        0 <= i < snap_entries(live, order, stm_ttl_ms, now_ms).len(),
    ensures
        !snap_entries(live, order, stm_ttl_ms, now_ms)[i].tombstoned,
        !is_expired_spec(snap_entries(live, order, stm_ttl_ms, now_ms)[i],
            stm_ttl_ms, now_ms),
    decreases order.len(),
{
    if order.len() > 0 {
        let prev = snap_entries(live, order.drop_last(), stm_ttl_ms, now_ms);
        if i < prev.len() {
            lemma_snap_entries_clean(live, order.drop_last(), stm_ttl_ms, now_ms, i);
        }
    }
}

/// Whether every entry of `es` passes hash validation: its stored hash is
/// the digest of its own (author, content, parent).
pub open spec fn all_hashes_valid(es: Seq<EntryView>) -> bool {
    forall|i: int| 0 <= i < es.len() ==> (#[trigger] es[i]).content_hash
        == crate::entry::entry_hash_spec(es[i].author, es[i].content, es[i].parent_hash)
}

/// Check every entry's stored hash against the digest of its own fields.
pub(crate) fn check_hashes(entries: &Vec<BlackboardEntry>) -> (r: bool)
    ensures
        r == all_hashes_valid(entries.deep_view()),
{
    let ghost es = entries.deep_view();
    let n = entries.len();
    for i in 0..n
        invariant
            n == entries@.len(),
            es == entries.deep_view(),
            forall|j: int| 0 <= j < i ==> (#[trigger] es[j]).content_hash
                == crate::entry::entry_hash_spec(es[j].author, es[j].content,
                    es[j].parent_hash),
    {
        let e = &entries[i];
        let computed = crate::entry::compute_entry_hash(e.author.as_str(),
            e.content.as_str(), &e.parent_hash);
        if !(computed == e.content_hash) {
            proof {
                assert(es[i as int] == entries@[i as int]@);
                assert(es[i as int].content_hash != crate::entry::entry_hash_spec(
                    es[i as int].author, es[i as int].content,
                    es[i as int].parent_hash));
            }
            return false;
        }
        proof {
            assert(es[i as int] == entries@[i as int]@);
        }
    }
    true
}

/// The staged buffer after importing `es` into a store with the given live
/// and pending entries: novel hashes are appended in payload order.
pub open spec fn import_pending(live: Seq<EntryView>, pending: Seq<EntryView>,
    es: Seq<EntryView>) -> Seq<EntryView>
    decreases es.len(),
{
    if es.len() == 0 {
        pending
    } else {
        let prev = import_pending(live, pending, es.drop_last());
        if !contains_hash(live, es.last().content_hash)
            && !contains_hash(prev, es.last().content_hash) {
            prev.push(es.last())
        } else {
            prev
        }
    }
}

/// The hashes newly taken in by importing `es`.
pub open spec fn import_new(live: Seq<EntryView>, pending: Seq<EntryView>,
    es: Seq<EntryView>) -> Seq<Digest32>
    decreases es.len(),
{
    if es.len() == 0 {
        Seq::empty()
    } else {
        let prev = import_pending(live, pending, es.drop_last());
        if !contains_hash(live, es.last().content_hash)
            && !contains_hash(prev, es.last().content_hash) {
            import_new(live, pending, es.drop_last()).push(es.last().content_hash)
        } else {
            import_new(live, pending, es.drop_last())
        }
    }
}

/// An import that takes nothing in leaves the staged buffer as it was.
pub proof fn lemma_import_nothing(live: Seq<EntryView>, pending: Seq<EntryView>,
    es: Seq<EntryView>)
    requires
        import_new(live, pending, es).len() == 0,
    ensures
        import_pending(live, pending, es) == pending,
    decreases es.len(),
{
    if es.len() > 0 {
        lemma_import_nothing(live, pending, es.drop_last());
    }
}

impl HashedBlackboard {
    /// Build or reuse the snapshot of the current state, as of instant
    /// `now_ms`: the memoized snapshot is returned if one is present, else
    /// the canonical order is walked, tombstoned and expired entries are
    /// dropped, and the result is memoized.
    pub fn snapshot_at(&mut self, now_ms: u64)
        -> (r: BlackboardResult<BlackboardSnapshot>)
        requires
            old(self).wf(),
        ensures
            final(self).wf(),
            r is Ok,
            match old(self)@.cached {
                Option::Some(s) => r.unwrap()@ == s && final(self)@ == old(self)@,
                Option::None => r.unwrap()@ == snapshot_spec(old(self)@, now_ms)
                    && final(self)@ == (HashedView {
                        cached: Option::Some(r.unwrap()@),
                        ..old(self)@
                    }),
            },
            exists|t: u64| r.unwrap()@ == snapshot_spec(old(self)@, t),
    {
        proof {
            assert(store_wf(old(self)@));
        }
        match &self.cached_snapshot {
            Option::Some(s) => {
                let c = s.clone();
                proof {
                    assert(c@ == snapshot_spec(self@, self.cached_at@));
                }
                return Result::Ok(c);
            }
            Option::None => {}
        }
        let stm = self.config.stm_ttl_ms();
        let ghost live = self@.live;
        let ghost order = self@.order;
        let mut entries: Vec<BlackboardEntry> = Vec::new();
        let n = self.canonical_order.len();
        for i in 0..n
            invariant
                n == order.len(),
                live == self@.live,
                order == self@.order,
                stm == stm_ttl_ms_spec(self@.config),
                unique_hashes(live),
                entries.deep_view() =~= snap_entries(live, order.take(i as int), stm,
                    now_ms),
        {
            proof {
                assert(order.take(i + 1).drop_last() =~= order.take(i as int));
                assert(order.take(i + 1).last() == order[i as int]);
            }
            let h = self.canonical_order[i];
            let ghost len0 = entries.deep_view().len();
            match find_by_hash(&self.live, &h) {
                Option::Some(j) => {
                    proof {
                        lemma_unique_entry_at(live, j as int);
                        assert(entry_at(live, h) == live[j as int]);
                    }
                    let keep = !self.live[j].tombstoned
                        && !self.live[j].is_expired(stm, now_ms);
                    if keep {
                        let e = self.live[j].clone();
                        proof {
                            assert(e@ == live[j as int]);
                        }
                        let ghost prefix = entries.deep_view();
                        entries.push(e);
                        proof {
                            assert forall|x: int| 0 <= x < prefix.len() + 1
                                implies #[trigger] entries.deep_view()[x]
                                == prefix.push(live[j as int])[x] by {
                                if x < prefix.len() {
                                    assert(entries@[x]@ == prefix[x]);
                                } else {
                                    assert(entries@[x] == e);
                                }
                            }
                            assert(entries.deep_view()
                                =~= prefix.push(live[j as int]));
                        }
                    }
                }
                Option::None => {}
            }
            proof {
                assert(entries.deep_view() =~= snap_entries(live, order.take(i + 1),
                    stm, now_ms));
            }
        }
        proof {
            assert(order.take(n as int) =~= order);
        }
        let snap = BlackboardSnapshot::new(self.epoch, entries);
        let copy = snap.clone();
        self.cached_snapshot = Option::Some(copy);
        proof {
            self.cached_at = Ghost(now_ms);
        }
        proof {
            assert(snap@ == snapshot_spec(old(self)@, now_ms));
            assert(self@ == (HashedView {
                cached: Option::Some(snap@),
                ..old(self)@
            }));
            assert(snapshot_spec(self@, now_ms) == snapshot_spec(old(self)@, now_ms));
        }
        Result::Ok(snap)
    }

    /// Build or reuse the snapshot of the current state, as of the current
    /// wall-clock instant.
    pub fn snapshot(&mut self) -> (r: BlackboardResult<BlackboardSnapshot>)
        requires
            old(self).wf(),
        ensures
            final(self).wf(),
            r is Ok,
            match old(self)@.cached {
                Option::Some(s) => r.unwrap()@ == s && final(self)@ == old(self)@,
                Option::None => exists|t: u64| r.unwrap()@
                    == snapshot_spec(old(self)@, t)
                    && final(self)@ == (HashedView {
                        cached: Option::Some(r.unwrap()@),
                        ..old(self)@
                    }),
            },
            exists|t: u64| r.unwrap()@ == snapshot_spec(old(self)@, t),
    {
        let now = now_millis();
        self.snapshot_at(now)
    }

    /// The thumbprint of the current snapshot, which this call builds and
    /// memoizes if none is held. Never fails: agents use it on hot paths,
    /// where a cache miss beats a caller error.
    pub fn cache_thumbprint(&mut self) -> (r: CacheThumbprint)
        requires
            old(self).wf(),
        ensures
            final(self).wf(),
            final(self)@ == (HashedView { cached: final(self)@.cached,
                ..old(self)@ }),
            final(self)@.cached is Some,
            r.digest == final(self)@.cached.unwrap().thumbprint,
            match old(self)@.cached {
                Option::Some(s) => final(self)@.cached == Option::Some(s),
                Option::None => exists|t: u64| final(self)@.cached
                    == Option::Some(snapshot_spec(old(self)@, t)),
            },
    {
        match self.snapshot() {
            Result::Ok(s) => s.thumbprint,
            Result::Err(_) => CacheThumbprint::zero(),
        }
    }

    /// Import entries from another board. Every entry is validated first:
    /// if any entry's stored hash differs from the digest of its own
    /// fields, the whole import is rejected with a serialization error and
    /// nothing changes. Otherwise entries whose hashes are new are staged,
    /// in payload order, and their hashes returned; duplicates are skipped.
    pub fn import_entries(&mut self, entries: Vec<BlackboardEntry>)
        -> (r: BlackboardResult<Vec<Digest32>>)
        requires
            old(self).wf(),
        ensures
            final(self).wf(),
            !all_hashes_valid(entries.deep_view()) ==> final(self)@ == old(self)@
                && (r matches Result::Err(e) && e@ matches ErrorView::Serialization(_)),
            all_hashes_valid(entries.deep_view()) ==> {
                &&& r is Ok
                &&& r.unwrap()@ == import_new(old(self)@.live, old(self)@.pending,
                    entries.deep_view())
                &&& final(self)@.pending == import_pending(old(self)@.live,
                    old(self)@.pending, entries.deep_view())
                &&& final(self)@.live == old(self)@.live
                &&& final(self)@.order == old(self)@.order
                &&& final(self)@.epoch == old(self)@.epoch
                &&& final(self)@.config == old(self)@.config
                &&& (r.unwrap()@.len() == 0 ==> final(self)@ == old(self)@)
                &&& (r.unwrap()@.len() > 0 ==> final(self)@.cached is None)
            },
    {
        // Validation pass: reject the whole payload on any hash mismatch.
        if !check_hashes(&entries) {
            return Result::Err(BlackboardError::Serialization(String::from_str(
                "entry hash does not match its fields")));
        }
        let imported = self.stage_imports(entries);
        if imported.len() > 0 {
            self.cached_snapshot = Option::None;
            proof {
                assert(final(self).wf()) by {
                    assert(store_wf(self@));
                }
            }
        }
        Result::Ok(imported)
    }

    /// Stage the novel entries of a validated payload, in payload order.
    fn stage_imports(&mut self, entries: Vec<BlackboardEntry>)
        -> (imported: Vec<Digest32>)
        requires
            old(self).wf(),
        ensures
            store_wf(final(self)@),
            imported@ == import_new(old(self)@.live, old(self)@.pending,
                entries.deep_view()),
            final(self)@.pending == import_pending(old(self)@.live,
                old(self)@.pending, entries.deep_view()),
            final(self)@.live == old(self)@.live,
            final(self)@.order == old(self)@.order,
            final(self)@.epoch == old(self)@.epoch,
            final(self)@.config == old(self)@.config,
            final(self)@.cached == old(self)@.cached,
            final(self).cached_at == old(self).cached_at,
            imported@.len() == 0 ==> final(self)@ == old(self)@
                && final(self).wf(),
            final(self)@.cached is None ==> final(self).wf(),
    {
        proof {
            assert(store_wf(old(self)@));
        }
        let ghost es = entries.deep_view();
        let n = entries.len();
        // Staging pass: take in the novel entries, in payload order.
        let ghost live0 = self@.live;
        let ghost pend0 = self@.pending;
        let mut imported: Vec<Digest32> = Vec::new();
        let rest = entries;
        let mut k: usize = 0;
        while k < n
            invariant
                k <= n,
                n == es.len(),
                rest.deep_view() == es,
                live0 == old(self)@.live,
                pend0 == old(self)@.pending,
                store_wf(self@),
                self@.live == live0,
                self@.pending == import_pending(live0, pend0, es.take(k as int)),
                imported@ == import_new(live0, pend0, es.take(k as int)),
                self@.order == old(self)@.order,
                self@.epoch == old(self)@.epoch,
                self@.config == old(self)@.config,
                self.cached_snapshot == old(self).cached_snapshot,
                self.cached_at == old(self).cached_at,
                imported@.len() == 0 ==> self.pending == old(self).pending
                    && self.by_type == old(self).by_type
                    && self.by_author == old(self).by_author
                    && self.by_parent == old(self).by_parent,
            decreases n - k,
        {
            proof {
                assert(es.take(k + 1).drop_last() =~= es.take(k as int));
                assert(es.take(k + 1).last() == es[k as int]);
            }
            let ghost pendk = self@.pending;
            let ghost idx_t0 = self@.by_type;
            let ghost idx_a0 = self@.by_author;
            let ghost idx_p0 = self@.by_parent;
            let e = &rest[k];
            proof {
                assert(e@ == es[k as int]);
            }
            let hash = e.content_hash;
            let novel_live = match find_by_hash(&self.live, &hash) {
                Option::Some(_) => false,
                Option::None => true,
            };
            let novel_pending = match find_by_hash(&self.pending, &hash) {
                Option::Some(_) => false,
                Option::None => true,
            };
            if novel_live && novel_pending {
                self.by_type.add(e.entry_type, hash);
                self.by_author.add(&e.author, hash);
                match &e.parent_hash {
                    Option::Some(p) => {
                        self.by_parent.add(*p, hash);
                    }
                    Option::None => {}
                }
                let cloned = e.clone();
                self.pending.push(cloned);
                imported.push(hash);
                proof {
                    assert forall|x: int| 0 <= x < pendk.len() + 1
                        implies #[trigger] self@.pending[x]
                        == pendk.push(es[k as int])[x] by {
                        if x < pendk.len() {
                            assert(self.pending@[x]@ == pendk[x]);
                        } else {
                            assert(self.pending@[x]@ == es[k as int]);
                        }
                    }
                    assert(self@.pending =~= pendk.push(es[k as int]));
                    self.lemma_import_step_wf(live0, pendk, es[k as int], idx_t0,
                        idx_a0, idx_p0);
                }
            }
            k = k + 1;
        }
        proof {
            assert(es.take(n as int) =~= es);
            if imported@.len() == 0 {
                lemma_import_nothing(live0, pend0, es);
                assert(self@ == old(self)@);
            }
            if self@.cached is None {
                assert(cache_ok(self@, self.cached_at@));
            }
        }
        imported
    }

    /// Well-formedness after staging one novel imported entry.
    proof fn lemma_import_step_wf(&self, live0: Seq<EntryView>, pendk: Seq<EntryView>,
        e: EntryView, idx_t: Seq<(EntryType, Digest32)>,
        idx_a: Seq<(Seq<char>, Digest32)>, idx_p: Seq<(Digest32, Digest32)>)
        requires
            self@.live == live0,
            unique_hashes(live0),
            unique_hashes(pendk),
            forall|h: Digest32| !(#[trigger] contains_hash(live0, h)
                && contains_hash(pendk, h)),
            self@.order.no_duplicates(),
            forall|h: Digest32| #[trigger] self@.order.contains(h)
                == contains_hash(live0, h),
            !contains_hash(live0, e.content_hash),
            !contains_hash(pendk, e.content_hash),
            self@.pending == pendk.push(e),
            has_pair_inv_type(idx_t, live0 + pendk),
            has_pair_inv_author(idx_a, live0 + pendk),
            has_pair_inv_parent(idx_p, live0 + pendk),
            self@.by_type == idx_t.push((e.entry_type, e.content_hash)),
            self@.by_author =~= idx_a.push((e.author, e.content_hash)),
            self@.by_parent == match e.parent_hash {
                Option::Some(p) => idx_p.push((p, e.content_hash)),
                Option::None => idx_p,
            },
        ensures
            store_wf(self@),
    {
        let v = self@;
        assert(unique_hashes(v.pending)) by {
            assert forall|i: int, j: int| 0 <= i < j < v.pending.len()
                implies v.pending[i].content_hash != v.pending[j].content_hash by {
                if j < v.pending.len() - 1 {
                    assert(v.pending[i] == pendk[i]);
                    assert(v.pending[j] == pendk[j]);
                } else {
                    assert(v.pending[i] == pendk[i]);
                    assert(contains_hash(pendk, pendk[i].content_hash));
                }
            }
        }
        assert forall|h: Digest32| !(#[trigger] contains_hash(v.live, h)
            && contains_hash(v.pending, h)) by {
            if contains_hash(v.live, h) && contains_hash(v.pending, h) {
                let j = choose|j: int| 0 <= j < v.pending.len()
                    && v.pending[j].content_hash == h;
                if j < v.pending.len() - 1 {
                    assert(pendk[j].content_hash == h);
                    assert(contains_hash(pendk, h));
                } else {
                    assert(h == e.content_hash);
                }
            }
        }
        let allo = live0 + pendk;
        let alln = all_entries(v);
        assert(alln =~= allo.push(e));
        assert forall|i: int| 0 <= i < allo.len()
            implies (#[trigger] alln[i]).content_hash == allo[i].content_hash
            && alln[i].entry_type == allo[i].entry_type
            && alln[i].author == allo[i].author
            && alln[i].parent_hash == allo[i].parent_hash by {
            assert(alln[i] == allo[i]);
        }
        assert(alln[alln.len() - 1] == e);
        assert forall|k: EntryType, h: Digest32| #[trigger] has_pair(v.by_type, k, h)
            == exists|i: int| 0 <= i < alln.len()
                && (#[trigger] alln[i]).content_hash == h
                && alln[i].entry_type == k by {
            lemma_pair_push_entry(idx_t, allo, alln, k, h, e.entry_type,
                e.content_hash, k == e.entry_type);
        }
        assert forall|k: Seq<char>, h: Digest32| #[trigger] has_pair(v.by_author, k, h)
            == exists|i: int| 0 <= i < alln.len()
                && (#[trigger] alln[i]).content_hash == h
                && alln[i].author == k by {
            lemma_pair_push_entry_author(idx_a, allo, alln, k, h, e.author,
                e.content_hash);
        }
        match e.parent_hash {
            Option::Some(pp) => {
                assert forall|k: Digest32, h: Digest32|
                    #[trigger] has_pair(v.by_parent, k, h)
                    == exists|i: int| 0 <= i < alln.len()
                        && (#[trigger] alln[i]).content_hash == h
                        && alln[i].parent_hash == Option::Some(k) by {
                    lemma_pair_push_entry_parent(idx_p, allo, alln, k, h, pp,
                        e.content_hash);
                }
            }
            Option::None => {
                assert forall|k: Digest32, h: Digest32|
                    #[trigger] has_pair(v.by_parent, k, h)
                    == exists|i: int| 0 <= i < alln.len()
                        && (#[trigger] alln[i]).content_hash == h
                        && alln[i].parent_hash == Option::Some(k) by {
                    assert(has_pair(v.by_parent, k, h) == has_pair(idx_p, k, h));
                    if has_pair(idx_p, k, h) {
                        let i = choose|i: int| 0 <= i < allo.len()
                            && (#[trigger] allo[i]).content_hash == h
                            && allo[i].parent_hash == Option::Some(k);
                        assert(alln[i].content_hash == h
                            && alln[i].parent_hash == Option::Some(k));
                    }
                    if exists|i: int| 0 <= i < alln.len()
                        && (#[trigger] alln[i]).content_hash == h
                        && alln[i].parent_hash == Option::Some(k) {
                        let i = choose|i: int| 0 <= i < alln.len()
                            && (#[trigger] alln[i]).content_hash == h
                            && alln[i].parent_hash == Option::Some(k);
                        if i < allo.len() {
                            assert(allo[i].content_hash == h
                                && allo[i].parent_hash == Option::Some(k));
                        } else {
                            assert(alln[i] == e);
                            assert(false);
                        }
                    }
                }
            }
        }
    }
}

// ─── Query ──────────────────────────────────────────────────────────────

/// Resolve a hash to its entry, looking in live first, then pending.
pub open spec fn resolve_one(v: HashedView, h: Digest32) -> Option<EntryView> {
    if contains_hash(v.live, h) {
        Option::Some(entry_at(v.live, h))
    } else if contains_hash(v.pending, h) {
        Option::Some(entry_at(v.pending, h))
    } else {
        Option::None
    }
}

/// The result of resolving and filtering candidate hashes left to right,
/// stopping once the result limit is reached.
pub open spec fn query_fold_hashes(v: HashedView, hs: Seq<Digest32>, q: QueryView,
    now_ms: u64) -> Seq<EntryView>
    decreases hs.len(),
{
    if hs.len() == 0 {
        Seq::empty()
    } else {
        let prev = query_fold_hashes(v, hs.drop_last(), q, now_ms);
        if prev.len() >= q.limit {
            prev
        } else {
            match resolve_one(v, hs.last()) {
                Option::Some(e) => if passes_filters(e, q,
                    stm_ttl_ms_spec(v.config), now_ms) {
                    prev.push(e)
                } else {
                    prev
                },
                Option::None => prev,
            }
        }
    }
}

/// The result of filtering a full scan left to right, stopping once the
/// result limit is reached.
pub open spec fn scan_fold(es: Seq<EntryView>, q: QueryView, stm_ttl_ms: u64,
    now_ms: u64) -> Seq<EntryView>
    decreases es.len(),
{
    if es.len() == 0 {
        Seq::empty()
    } else {
        let prev = scan_fold(es.drop_last(), q, stm_ttl_ms, now_ms);
        if prev.len() >= q.limit {
            prev
        } else if passes_filters(es.last(), q, stm_ttl_ms, now_ms) {
            prev.push(es.last())
        } else {
            prev
        }
    }
}

/// The concatenated by-kind buckets of the requested kinds, in order.
pub open spec fn type_buckets(idx: Seq<(EntryType, Digest32)>, ts: Seq<EntryType>)
    -> Seq<Digest32>
    decreases ts.len(),
{
    if ts.len() == 0 {
        Seq::empty()
    } else {
        type_buckets(idx, ts.drop_last()) + bucket_of(idx, ts.last())
    }
}

/// The concatenated by-author buckets of the requested authors, in order.
pub open spec fn author_buckets(idx: Seq<(Seq<char>, Digest32)>,
    authors: Seq<Seq<char>>) -> Seq<Digest32>
    decreases authors.len(),
{
    if authors.len() == 0 {
        Seq::empty()
    } else {
        author_buckets(idx, authors.drop_last()) + bucket_of(idx, authors.last())
    }
}

/// The candidate hashes a query selects: the first non-empty predicate of
/// kinds, authors and parent picks its index; otherwise the whole board is
/// scanned.
pub open spec fn query_spec(v: HashedView, q: QueryView, now_ms: u64)
    -> Seq<EntryView>
{
    match q.entry_types {
        Option::Some(ts) => query_fold_hashes(v, type_buckets(v.by_type, ts), q,
            now_ms),
        Option::None => match q.authors {
            Option::Some(authors) => query_fold_hashes(v,
                author_buckets(v.by_author, authors), q, now_ms),
            Option::None => match q.parent_hash {
                Option::Some(p) => query_fold_hashes(v, bucket_of(v.by_parent, p),
                    q, now_ms),
                Option::None => scan_fold(v.live + v.pending, q,
                    stm_ttl_ms_spec(v.config), now_ms),
            },
        },
    }
}

/// A saturated hash fold stays as it is under further candidates.
proof fn lemma_fold_saturated(v: HashedView, hs: Seq<Digest32>, q: QueryView,
    now_ms: u64, i: int)
    requires
        0 <= i <= hs.len(),
        query_fold_hashes(v, hs.take(i), q, now_ms).len() >= q.limit,
    ensures
        query_fold_hashes(v, hs, q, now_ms) == query_fold_hashes(v, hs.take(i), q,
            now_ms),
    decreases hs.len() - i,
{
    if i < hs.len() {
        assert(hs.take(i + 1).drop_last() =~= hs.take(i));
        lemma_fold_saturated(v, hs, q, now_ms, i + 1);
    } else {
        assert(hs.take(i) =~= hs);
    }
}

/// A saturated scan fold stays as it is under further entries.
proof fn lemma_scan_saturated(es: Seq<EntryView>, q: QueryView, stm_ttl_ms: u64,
    now_ms: u64, i: int)
    requires
        0 <= i <= es.len(),
        scan_fold(es.take(i), q, stm_ttl_ms, now_ms).len() >= q.limit,
    ensures
        scan_fold(es, q, stm_ttl_ms, now_ms) == scan_fold(es.take(i), q, stm_ttl_ms,
            now_ms),
    decreases es.len() - i,
{
    if i < es.len() {
        assert(es.take(i + 1).drop_last() =~= es.take(i));
        lemma_scan_saturated(es, q, stm_ttl_ms, now_ms, i + 1);
    } else {
        assert(es.take(i) =~= es);
    }
}

impl HashedBlackboard {
    /// Resolve one candidate hash and, when the entry passes the query's
    /// per-entry predicates, append it to the results.
    fn consider_candidate(&self, h: &Digest32, q: &BlackboardQuery, now_ms: u64,
        results: &mut Vec<BlackboardEntry>)
        requires
            self.wf(),
            old(results).deep_view().len() < q@.limit,
        ensures
            final(results).deep_view() == match resolve_one(self@, *h) {
                Option::Some(e) => if passes_filters(e, q@,
                    stm_ttl_ms_spec(self@.config), now_ms) {
                    old(results).deep_view().push(e)
                } else {
                    old(results).deep_view()
                },
                Option::None => old(results).deep_view(),
            },
    {
        proof {
            assert(store_wf(self@));
        }
        let stm = self.config.stm_ttl_ms();
        let ghost res0 = results.deep_view();
        let found: Option<&BlackboardEntry> = match find_by_hash(&self.live, h) {
            Option::Some(i) => {
                proof {
                    lemma_unique_entry_at(self@.live, i as int);
                }
                Option::Some(&self.live[i])
            }
            Option::None => {
                match find_by_hash(&self.pending, h) {
                    Option::Some(i) => {
                        proof {
                            lemma_unique_entry_at(self@.pending, i as int);
                        }
                        Option::Some(&self.pending[i])
                    }
                    Option::None => Option::None,
                }
            }
        };
        match found {
            Option::Some(e) => {
                if entry_passes_filters(e, q, stm, now_ms) {
                    let c = e.clone();
                    results.push(c);
                    proof {
                        let ev = resolve_one(self@, *h).unwrap();
                        assert forall|x: int| 0 <= x < res0.len() + 1
                            implies #[trigger] results.deep_view()[x]
                            == res0.push(ev)[x] by {
                            if x < res0.len() {
                                assert(results@[x]@ == res0[x]);
                            } else {
                                assert(results@[x]@ == ev);
                            }
                        }
                        assert(results.deep_view() =~= res0.push(ev));
                    }
                }
            }
            Option::None => {}
        }
    }

    /// Run the candidate hashes of an index selection through resolution
    /// and filtering, up to the query's result limit.
    fn run_candidates(&self, hashes: &Vec<Digest32>, q: &BlackboardQuery,
        now_ms: u64) -> (r: Vec<BlackboardEntry>)
        requires
            self.wf(),
        ensures
            r.deep_view() == query_fold_hashes(self@, hashes@, q@, now_ms),
    {
        let mut results: Vec<BlackboardEntry> = Vec::new();
        let n = hashes.len();
        let mut i: usize = 0;
        while i < n
            invariant
                i <= n,
                n == hashes@.len(),
                self.wf(),
                results.deep_view() == query_fold_hashes(self@, hashes@.take(i as int),
                    q@, now_ms),
            decreases n - i,
        {
            proof {
                assert(hashes@.take(i + 1).drop_last() =~= hashes@.take(i as int));
                assert(hashes@.take(i + 1).last() == hashes@[i as int]);
            }
            if results.len() >= q.limit {
                proof {
                    lemma_fold_saturated(self@, hashes@, q@, now_ms, i as int);
                }
                return results;
            }
            self.consider_candidate(&hashes[i], q, now_ms, &mut results);
            i = i + 1;
        }
        proof {
            assert(hashes@.take(n as int) =~= hashes@);
        }
        results
    }

    /// Query the board at an explicit instant. The first non-empty
    /// predicate among kinds, authors and parent selects its index;
    /// otherwise the whole board is scanned, committed entries first.
    /// Results are deterministic in the store state.
    pub fn query_at(&self, q: &BlackboardQuery, now_ms: u64)
        -> (r: BlackboardResult<Vec<BlackboardEntry>>)
        requires
            self.wf(),
        ensures
            r is Ok,
            r.unwrap().deep_view() == query_spec(self@, q@, now_ms),
    {
        match &q.entry_types {
            Option::Some(ts) => {
                let mut hashes: Vec<Digest32> = Vec::new();
                let n = ts.len();
                for i in 0..n
                    invariant
                        n == ts@.len(),
                        hashes@ == type_buckets(self@.by_type, ts@.take(i as int)),
                {
                    proof {
                        assert(ts@.take(i + 1).drop_last() =~= ts@.take(i as int));
                    }
                    let mut bucket = self.by_type.get(ts[i]);
                    hashes.append(&mut bucket);
                }
                proof {
                    assert(ts@.take(n as int) =~= ts@);
                }
                return Result::Ok(self.run_candidates(&hashes, q, now_ms));
            }
            Option::None => {}
        }
        match &q.authors {
            Option::Some(authors) => {
                let mut hashes: Vec<Digest32> = Vec::new();
                let n = authors.len();
                for i in 0..n
                    invariant
                        n == authors@.len(),
                        hashes@ == author_buckets(self@.by_author,
                            authors.deep_view().take(i as int)),
                {
                    proof {
                        assert(authors.deep_view().take(i + 1).drop_last()
                            =~= authors.deep_view().take(i as int));
                        assert(authors.deep_view().take(i + 1).last()
                            == authors@[i as int]@);
                    }
                    let mut bucket = self.by_author.get(&authors[i]);
                    hashes.append(&mut bucket);
                }
                proof {
                    assert(authors.deep_view().take(n as int)
                        =~= authors.deep_view());
                    assert(q@.authors.unwrap() == authors.deep_view());
                }
                return Result::Ok(self.run_candidates(&hashes, q, now_ms));
            }
            Option::None => {}
        }
        match &q.parent_hash {
            Option::Some(p) => {
                let hashes = self.by_parent.get(p);
                return Result::Ok(self.run_candidates(&hashes, q, now_ms));
            }
            Option::None => {}
        }
        // Full scan: committed entries first, then staged ones.
        let ghost all = self@.live + self@.pending;
        let stm = self.config.stm_ttl_ms();
        let mut results: Vec<BlackboardEntry> = Vec::new();
        let nl = self.live.len();
        let np = self.pending.len();
        let mut i: usize = 0;
        while i < nl
            invariant
                nl == self@.live.len(),
                np == self@.pending.len(),
                i <= nl,
                all == self@.live + self@.pending,
                stm == stm_ttl_ms_spec(self@.config),
                q@.entry_types is None,
                q@.authors is None,
                q@.parent_hash is None,
                results.deep_view() == scan_fold(all.take(i as int), q@, stm, now_ms),
            decreases nl - i,
        {
            proof {
                assert(all.take(i + 1).drop_last() =~= all.take(i as int));
                assert(all.take(i + 1).last() == all[i as int]);
            }
            if results.len() >= q.limit {
                proof {
                    lemma_scan_saturated(all, q@, stm, now_ms, i as int);
                }
                return Result::Ok(results);
            }
            let e: &BlackboardEntry = &self.live[i];
            proof {
                assert(e@ == all[i as int]);
            }
            if entry_passes_filters(e, q, stm, now_ms) {
                let ghost res0 = results.deep_view();
                let c = e.clone();
                results.push(c);
                proof {
                    assert forall|x: int| 0 <= x < res0.len() + 1
                        implies #[trigger] results.deep_view()[x]
                        == res0.push(all[i as int])[x] by {
                        if x < res0.len() {
                            assert(results@[x]@ == res0[x]);
                        } else {
                            assert(results@[x]@ == all[i as int]);
                        }
                    }
                    assert(results.deep_view() =~= res0.push(all[i as int]));
                }
            }
            i = i + 1;
        }
        let mut j: usize = 0;
        while j < np
            invariant
                nl == self@.live.len(),
                np == self@.pending.len(),
                j <= np,
                all == self@.live + self@.pending,
                stm == stm_ttl_ms_spec(self@.config),
                q@.entry_types is None,
                q@.authors is None,
                q@.parent_hash is None,
                results.deep_view() == scan_fold(all.take(nl + j as int), q@, stm,
                    now_ms),
            decreases np - j,
        {
            proof {
                assert(all.take(nl + j as int + 1).drop_last()
                    =~= all.take(nl + j as int));
                assert(all.take(nl + j as int + 1).last() == all[nl + j as int]);
            }
            if results.len() >= q.limit {
                proof {
                    lemma_scan_saturated(all, q@, stm, now_ms, nl + j as int);
                }
                return Result::Ok(results);
            }
            let e: &BlackboardEntry = &self.pending[j];
            proof {
                assert(e@ == all[nl + j as int]);
            }
            if entry_passes_filters(e, q, stm, now_ms) {
                let ghost res0 = results.deep_view();
                let c = e.clone();
                results.push(c);
                proof {
                    assert forall|x: int| 0 <= x < res0.len() + 1
                        implies #[trigger] results.deep_view()[x]
                        == res0.push(all[nl + j as int])[x] by {
                        if x < res0.len() {
                            assert(results@[x]@ == res0[x]);
                        } else {
                            assert(results@[x]@ == all[nl + j as int]);
                        }
                    }
                    assert(results.deep_view() =~= res0.push(all[nl + j as int]));
                }
            }
            j = j + 1;
        }
        proof {
            assert(all.take(nl + np as int) =~= all);
        }
        Result::Ok(results)
    }

    /// Query the board as of the current wall-clock instant.
    pub fn query(&self, q: &BlackboardQuery)
        -> (r: BlackboardResult<Vec<BlackboardEntry>>)
        requires
            self.wf(),
        ensures
            r is Ok,
            exists|t: u64| r.unwrap().deep_view() == query_spec(self@, q@, t),
    {
        let now = now_millis();
        self.query_at(q, now)
    }

    /// All entries of one kind, at an explicit instant.
    pub fn by_type_at(&self, t: EntryType, now_ms: u64)
        -> (r: BlackboardResult<Vec<BlackboardEntry>>)
        requires
            self.wf(),
        ensures
            r is Ok,
            r.unwrap().deep_view() == query_spec(self@, (QueryView {
                entry_types: Option::Some(seq![t]),
                limit: 50usize,
                ..crate::store::default_query_view()
            }), now_ms),
    {
        let q = BlackboardQuery::by_type(t);
        self.query_at(&q, now_ms)
    }

    /// All entries of one author, at an explicit instant.
    pub fn by_author_at(&self, author: String, now_ms: u64)
        -> (r: BlackboardResult<Vec<BlackboardEntry>>)
        requires
            self.wf(),
        ensures
            r is Ok,
            r.unwrap().deep_view() == query_spec(self@, (QueryView {
                authors: Option::Some(seq![author@]),
                limit: 50usize,
                ..crate::store::default_query_view()
            }), now_ms),
    {
        let q = BlackboardQuery::by_author(author);
        self.query_at(&q, now_ms)
    }
}

// ─── Compaction ─────────────────────────────────────────────────────────

/// Whether some non-tombstoned live entry declares that it supersedes `h`.
pub open spec fn superseded_in(live: Seq<EntryView>, h: Digest32) -> bool {
    exists|i: int| 0 <= i < live.len() && (#[trigger] live[i]).supersedes.contains(h)
        && !live[i].tombstoned
}

/// Whether the sweep removes entry `e`: under pruning, any tombstoned or
/// expired entry; in any mode, a tombstoned entry that a non-tombstoned
/// live successor supersedes.
pub open spec fn swept_away(live: Seq<EntryView>, e: EntryView, prune: bool,
    stm_ttl_ms: u64, now_ms: u64) -> bool
{
    (prune && (e.tombstoned || is_expired_spec(e, stm_ttl_ms, now_ms)))
        || (e.tombstoned && superseded_in(live, e.content_hash))
}

/// The live map after the sweep.
pub open spec fn live_after_sweep(live: Seq<EntryView>, prune: bool, stm_ttl_ms: u64,
    now_ms: u64) -> Seq<EntryView>
{
    live.filter(|e: EntryView| !swept_away(live, e, prune, stm_ttl_ms, now_ms))
}

/// The live map after evicting the entries named by `hs`, one by one.
pub open spec fn evict_fold(live: Seq<EntryView>, hs: Seq<Digest32>) -> Seq<EntryView>
    decreases hs.len(),
{
    if hs.len() == 0 {
        live
    } else {
        evict_fold(live, hs.drop_last()).filter(|e: EntryView| e.content_hash
            != hs.last())
    }
}

/// How many entries the capacity bound evicts.
pub open spec fn compact_excess(live_len: int, max_entries: int) -> int {
    if live_len > max_entries {
        live_len - max_entries
    } else {
        0
    }
}

/// Filter membership, in both directions.
proof fn lemma_filter_contains_iff<A>(s: Seq<A>, pred: spec_fn(A) -> bool, x: A)
    ensures
        s.filter(pred).contains(x) == (s.contains(x) && pred(x)),
    decreases s.len(),
{
    reveal(Seq::filter);
    if s.len() > 0 {
        lemma_filter_contains_iff(s.drop_last(), pred, x);
        if s.filter(pred).contains(x) {
            if !(s.drop_last().filter(pred).contains(x)) {
                assert(x == s.last() && pred(x));
                assert(s[s.len() - 1] == x);
            } else {
                let i = choose|i: int| 0 <= i < s.drop_last().len()
                    && s.drop_last()[i] == x;
                assert(s[i] == x);
            }
        }
        if s.contains(x) && pred(x) {
            let i = choose|i: int| 0 <= i < s.len() && s[i] == x;
            if i < s.len() - 1 {
                assert(s.drop_last()[i] == x);
                assert(s.drop_last().filter(pred).contains(x));
                let j = choose|j: int| 0 <= j < s.drop_last().filter(pred).len()
                    && s.drop_last().filter(pred)[j] == x;
                assert(s.filter(pred)[j] == x);
            } else {
                assert(s.filter(pred).last() == x);
            }
        }
    }
}

/// A filter keeps a duplicate-free sequence duplicate-free.
proof fn lemma_filter_no_duplicates<A>(s: Seq<A>, pred: spec_fn(A) -> bool)
    requires
        s.no_duplicates(),
    ensures
        s.filter(pred).no_duplicates(),
    decreases s.len(),
{
    reveal(Seq::filter);
    if s.len() > 0 {
        assert(s.drop_last().no_duplicates());
        lemma_filter_no_duplicates(s.drop_last(), pred);
        if pred(s.last()) {
            if s.drop_last().filter(pred).contains(s.last()) {
                let i = choose|i: int| 0 <= i < s.drop_last().filter(pred).len()
                    && s.drop_last().filter(pred)[i] == s.last();
                lemma_filter_contains_iff(s.drop_last(), pred, s.last());
                let j = choose|j: int| 0 <= j < s.drop_last().len()
                    && s.drop_last()[j] == s.last();
                assert(s[j] == s[s.len() - 1]);
                assert(false);
            }
            assert(s.filter(pred) == s.drop_last().filter(pred).push(s.last()));
            lemma_no_dup_push(s.drop_last().filter(pred), s.last());
        }
    }
}

/// Appending a fresh element keeps a sequence duplicate-free.
proof fn lemma_no_dup_push<A>(s: Seq<A>, x: A)
    requires
        s.no_duplicates(),
        !s.contains(x),
    ensures
        s.push(x).no_duplicates(),
{
    assert forall|i: int, j: int| 0 <= i < j < s.push(x).len()
        implies s.push(x)[i] != s.push(x)[j] by {
        if j == s.len() {
            assert(s.push(x)[i] == s[i]);
            if s[i] == x {
                assert(s.contains(x));
            }
        }
    }
}

/// Does a digest list contain a hash?
fn digests_contain(v: &Vec<Digest32>, h: &Digest32) -> (r: bool)
    ensures
        r == v@.contains(*h),
{
    let n = v.len();
    for i in 0..n
        invariant
            n == v@.len(),
            forall|j: int| 0 <= j < i ==> v@[j] != *h,
    {
        if v[i] == *h {
            return true;
        }
    }
    false
}

/// Does some non-tombstoned entry of `live` supersede `h`?
fn is_superseded(live: &Vec<BlackboardEntry>, h: &Digest32) -> (r: bool)
    ensures
        r == superseded_in(live.deep_view(), *h),
{
    let n = live.len();
    for i in 0..n
        invariant
            n == live@.len(),
            forall|j: int| 0 <= j < i ==> !((#[trigger] live.deep_view()[j])
                .supersedes.contains(*h) && !live.deep_view()[j].tombstoned),
    {
        let e = &live[i];
        proof {
            assert(e@ == live.deep_view()[i as int]);
        }
        if !e.tombstoned && digests_contain(&e.supersedes, h) {
            return true;
        }
    }
    false
}

/// The (kind, hash) pairs of an entry sequence, in order.
pub open spec fn type_pairs(s: Seq<EntryView>) -> Seq<(EntryType, Digest32)> {
    Seq::new(s.len(), |i: int| (s[i].entry_type, s[i].content_hash))
}

/// The (author, hash) pairs of an entry sequence, in order.
pub open spec fn author_pairs(s: Seq<EntryView>) -> Seq<(Seq<char>, Digest32)> {
    Seq::new(s.len(), |i: int| (s[i].author, s[i].content_hash))
}

/// The (parent, hash) pairs of the entries that have a parent, in order.
pub open spec fn parent_pairs(s: Seq<EntryView>) -> Seq<(Digest32, Digest32)>
    decreases s.len(),
{
    if s.len() == 0 {
        Seq::empty()
    } else {
        parent_pairs(s.drop_last()) + match s.last().parent_hash {
            Option::Some(p) => seq![(p, s.last().content_hash)],
            Option::None => Seq::empty(),
        }
    }
}

/// Membership in the freshly built parent index.
proof fn lemma_parent_pairs_has(s: Seq<EntryView>, k: Digest32, h: Digest32)
    ensures
        has_pair(parent_pairs(s), k, h) == exists|i: int| 0 <= i < s.len()
            && (#[trigger] s[i]).content_hash == h
            && s[i].parent_hash == Option::Some(k),
    decreases s.len(),
{
    if s.len() > 0 {
        lemma_parent_pairs_has(s.drop_last(), k, h);
        let pp = parent_pairs(s);
        let prev = parent_pairs(s.drop_last());
        if has_pair(pp, k, h) {
            let i = choose|i: int| 0 <= i < pp.len() && pp[i] == (k, h);
            if i < prev.len() {
                assert(has_pair(prev, k, h));
                let j = choose|j: int| 0 <= j < s.drop_last().len()
                    && (#[trigger] s.drop_last()[j]).content_hash == h
                    && s.drop_last()[j].parent_hash == Option::Some(k);
                assert(s[j].content_hash == h
                    && s[j].parent_hash == Option::Some(k));
            } else {
                assert(pp[i] == (k, h));
                assert(s[s.len() - 1].content_hash == h
                    && s[s.len() - 1].parent_hash == Option::Some(k));
            }
        }
        if exists|i: int| 0 <= i < s.len() && (#[trigger] s[i]).content_hash == h
            && s[i].parent_hash == Option::Some(k) {
            let i = choose|i: int| 0 <= i < s.len()
                && (#[trigger] s[i]).content_hash == h
                && s[i].parent_hash == Option::Some(k);
            if i < s.len() - 1 {
                assert(s.drop_last()[i].content_hash == h
                    && s.drop_last()[i].parent_hash == Option::Some(k));
                assert(has_pair(prev, k, h));
                let j = choose|j: int| 0 <= j < prev.len() && prev[j] == (k, h);
                assert(pp[j] == (k, h));
            } else {
                assert(pp.last() == (k, h));
            }
        }
    }
}

/// The sweep keeps hash uniqueness.
pub(crate) proof fn lemma_filter_unique_hashes(s: Seq<EntryView>, pred: spec_fn(EntryView) -> bool)
    requires
        unique_hashes(s),
    ensures
        unique_hashes(s.filter(pred)),
    decreases s.len(),
{
    reveal(Seq::filter);
    if s.len() > 0 {
        assert(unique_hashes(s.drop_last()));
        lemma_filter_unique_hashes(s.drop_last(), pred);
        if pred(s.last()) {
            let prev = s.drop_last().filter(pred);
            assert forall|a: int, b: int| 0 <= a < b < prev.push(s.last()).len()
                implies prev.push(s.last())[a].content_hash
                != prev.push(s.last())[b].content_hash by {
                if b == prev.len() {
                    lemma_filter_contains_iff(s.drop_last(), pred, prev[a]);
                    let j = choose|j: int| 0 <= j < s.drop_last().len()
                        && s.drop_last()[j] == prev[a];
                    assert(s[j] == prev[a]);
                    assert(s[j].content_hash != s[s.len() - 1].content_hash);
                }
            }
        }
    }
}

/// Membership in an evicted live map: an entry hash survives eviction
/// exactly when it was present and not named for eviction.
proof fn lemma_evict_membership(live: Seq<EntryView>, hs: Seq<Digest32>, h: Digest32)
    ensures
        contains_hash(evict_fold(live, hs), h)
            == (contains_hash(live, h) && !hs.contains(h)),
    decreases hs.len(),
{
    if hs.len() > 0 {
        lemma_evict_membership(live, hs.drop_last(), h);
        let prev = evict_fold(live, hs.drop_last());
        let cur = evict_fold(live, hs);
        if contains_hash(cur, h) {
            let i = choose|i: int| 0 <= i < cur.len() && cur[i].content_hash == h;
            lemma_filter_contains_iff(prev, |e: EntryView| e.content_hash
                != hs.last(), cur[i]);
            assert(prev.contains(cur[i]));
            let j = choose|j: int| 0 <= j < prev.len() && prev[j] == cur[i];
            assert(contains_hash(prev, h));
            assert(h != hs.last());
            if hs.contains(h) {
                let x = choose|x: int| 0 <= x < hs.len() && hs[x] == h;
                assert(hs.drop_last()[x] == h);
            }
        }
        if contains_hash(live, h) && !hs.contains(h) {
            assert forall|x: int| 0 <= x < hs.drop_last().len()
                implies hs.drop_last()[x] != h by {
                assert(hs[x] == hs.drop_last()[x]);
            }
            assert(!hs.drop_last().contains(h));
            assert(contains_hash(prev, h));
            let i = choose|i: int| 0 <= i < prev.len() && prev[i].content_hash == h;
            assert(hs.contains(hs.last())) by {
                assert(hs[hs.len() - 1] == hs.last());
            }
            assert(h != hs.last());
            lemma_filter_contains_iff(prev, |e: EntryView| e.content_hash
                != hs.last(), prev[i]);
            assert(cur.contains(prev[i]));
            let j = choose|j: int| 0 <= j < cur.len() && cur[j] == prev[i];
            assert(cur[j].content_hash == h);
        }
    }
}

/// Eviction keeps hash uniqueness.
proof fn lemma_evict_unique(live: Seq<EntryView>, hs: Seq<Digest32>)
    requires
        unique_hashes(live),
    ensures
        unique_hashes(evict_fold(live, hs)),
    decreases hs.len(),
{
    if hs.len() > 0 {
        lemma_evict_unique(live, hs.drop_last());
        lemma_filter_unique_hashes(evict_fold(live, hs.drop_last()),
            |e: EntryView| e.content_hash != hs.last());
    }
}

/// Removing the unique entry with hash `h` at position `idx` is the same
/// as filtering that hash out.
proof fn lemma_remove_single(s: Seq<EntryView>, idx: int, h: Digest32)
    requires
        unique_hashes(s),
        0 <= idx < s.len(),
        s[idx].content_hash == h,
    ensures
        s.filter(|e: EntryView| e.content_hash != h) =~= s.remove(idx),
    decreases s.len(),
{
    reveal(Seq::filter);
    if idx == s.len() - 1 {
        assert forall|j: int| 0 <= j < s.drop_last().len()
            implies (|e: EntryView| e.content_hash != h)(s.drop_last()[j]) by {
            assert(s[j].content_hash != s[idx].content_hash);
        }
        lemma_filter_all_pass(s.drop_last(), |e: EntryView| e.content_hash != h);
        assert(s.remove(idx) =~= s.drop_last());
    } else {
        assert(unique_hashes(s.drop_last()));
        assert(s.drop_last()[idx].content_hash == h);
        lemma_remove_single(s.drop_last(), idx, h);
        assert(s.last().content_hash != h) by {
            assert(s[idx].content_hash != s[s.len() - 1].content_hash);
        }
        assert(s.filter(|e: EntryView| e.content_hash != h)
            == s.drop_last().filter(|e: EntryView| e.content_hash != h)
                .push(s.last()));
        assert(s.remove(idx) =~= s.drop_last().remove(idx).push(s.last()));
    }
}

/// A filter that every element passes is the identity.
proof fn lemma_filter_all_pass(s: Seq<EntryView>, pred: spec_fn(EntryView) -> bool)
    requires
        forall|j: int| 0 <= j < s.len() ==> pred(#[trigger] s[j]),
    ensures
        s.filter(pred) =~= s,
    decreases s.len(),
{
    reveal(Seq::filter);
    if s.len() > 0 {
        assert forall|j: int| 0 <= j < s.drop_last().len()
            implies pred(#[trigger] s.drop_last()[j]) by {
            assert(s.drop_last()[j] == s[j]);
        }
        lemma_filter_all_pass(s.drop_last(), pred);
    }
}

impl HashedBlackboard {
    /// Rebuild the three secondary indexes from the entries now present.
    /// Indexes hold hashes only, so they can always be rebuilt; after a
    /// bulk removal this is simpler than deleting pair by pair. The
    /// rebuilt buckets list the surviving entries in the store's own
    /// order — canonical order for committed entries, posting order for
    /// staged ones — which keeps query results deterministic.
    fn rebuild_indexes(&mut self)
        ensures
            final(self)@.live == old(self)@.live,
            final(self)@.pending == old(self)@.pending,
            final(self)@.order == old(self)@.order,
            final(self)@.epoch == old(self)@.epoch,
            final(self)@.config == old(self)@.config,
            final(self)@.cached == old(self)@.cached,
            final(self).cached_at == old(self).cached_at,
            final(self)@.by_type == type_pairs(all_entries(final(self)@)),
            final(self)@.by_author =~= author_pairs(all_entries(final(self)@)),
            final(self)@.by_parent == parent_pairs(all_entries(final(self)@)),
            has_pair_inv_type(final(self)@.by_type, all_entries(final(self)@)),
            has_pair_inv_author(final(self)@.by_author, all_entries(final(self)@)),
            has_pair_inv_parent(final(self)@.by_parent, all_entries(final(self)@)),
    {
        let ghost all = self@.live + self@.pending;
        self.by_type.clear();
        self.by_author.clear();
        self.by_parent.clear();
        let nl = self.live.len();
        let np = self.pending.len();
        let mut i: usize = 0;
        while i < nl
            invariant
                nl == self@.live.len(),
                np == self@.pending.len(),
                i <= nl,
                all == self@.live + self@.pending,
                self.live == old(self).live,
                self.pending == old(self).pending,
                self.canonical_order == old(self).canonical_order,
                self.config == old(self).config,
                self.epoch == old(self).epoch,
                self.cached_snapshot == old(self).cached_snapshot,
                self.cached_at == old(self).cached_at,
                self@.by_type =~= type_pairs(all.take(i as int)),
                self@.by_author =~= author_pairs(all.take(i as int)),
                self@.by_parent =~= parent_pairs(all.take(i as int)),
            decreases nl - i,
        {
            proof {
                assert(all.take(i + 1).drop_last() =~= all.take(i as int));
                assert(all.take(i + 1).last() == all[i as int]);
            }
            let h = self.live[i].content_hash;
            let kind = self.live[i].entry_type;
            let author = self.live[i].author.clone();
            let parent = self.live[i].parent_hash;
            proof {
                assert(self.live@[i as int]@ == all[i as int]);
            }
            self.by_type.add(kind, h);
            self.by_author.add(&author, h);
            match &parent {
                Option::Some(p) => {
                    self.by_parent.add(*p, h);
                }
                Option::None => {}
            }
            proof {
                assert(self@.by_type =~= type_pairs(all.take(i + 1)));
                assert(self@.by_author =~= author_pairs(all.take(i + 1)));
                assert(self@.by_parent =~= parent_pairs(all.take(i + 1)));
            }
            i = i + 1;
        }
        let mut j: usize = 0;
        while j < np
            invariant
                nl == self@.live.len(),
                np == self@.pending.len(),
                j <= np,
                all == self@.live + self@.pending,
                self.live == old(self).live,
                self.pending == old(self).pending,
                self.canonical_order == old(self).canonical_order,
                self.config == old(self).config,
                self.epoch == old(self).epoch,
                self.cached_snapshot == old(self).cached_snapshot,
                self.cached_at == old(self).cached_at,
                self@.by_type =~= type_pairs(all.take(nl + j as int)),
                self@.by_author =~= author_pairs(all.take(nl + j as int)),
                self@.by_parent =~= parent_pairs(all.take(nl + j as int)),
            decreases np - j,
        {
            proof {
                assert(all.take(nl + j as int + 1).drop_last()
                    =~= all.take(nl + j as int));
                assert(all.take(nl + j as int + 1).last() == all[nl + j as int]);
            }
            let h = self.pending[j].content_hash;
            let kind = self.pending[j].entry_type;
            let author = self.pending[j].author.clone();
            let parent = self.pending[j].parent_hash;
            proof {
                assert(self.pending@[j as int]@ == all[nl + j as int]);
            }
            self.by_type.add(kind, h);
            self.by_author.add(&author, h);
            match &parent {
                Option::Some(p) => {
                    self.by_parent.add(*p, h);
                }
                Option::None => {}
            }
            proof {
                assert(self@.by_type =~= type_pairs(all.take(nl + j as int + 1)));
                assert(self@.by_author =~= author_pairs(all.take(nl + j as int + 1)));
                assert(self@.by_parent =~= parent_pairs(all.take(nl + j as int + 1)));
            }
            j = j + 1;
        }
        proof {
            assert(all.take(nl + np as int) =~= all);
            assert(all_entries(self@) == all);
            assert forall|k: EntryType, h: Digest32| #[trigger] has_pair(self@.by_type,
                k, h) == exists|x: int| 0 <= x < all.len()
                && (#[trigger] all[x]).content_hash == h
                && all[x].entry_type == k by {
                if has_pair(self@.by_type, k, h) {
                    let x = choose|x: int| 0 <= x < self@.by_type.len()
                        && self@.by_type[x] == (k, h);
                    assert(all[x].content_hash == h && all[x].entry_type == k);
                }
                if exists|x: int| 0 <= x < all.len()
                    && (#[trigger] all[x]).content_hash == h
                    && all[x].entry_type == k {
                    let x = choose|x: int| 0 <= x < all.len()
                        && (#[trigger] all[x]).content_hash == h
                        && all[x].entry_type == k;
                    assert(self@.by_type[x] == (k, h));
                }
            }
            assert forall|k: Seq<char>, h: Digest32| #[trigger] has_pair(
                self@.by_author, k, h) == exists|x: int| 0 <= x < all.len()
                && (#[trigger] all[x]).content_hash == h
                && all[x].author == k by {
                if has_pair(self@.by_author, k, h) {
                    let x = choose|x: int| 0 <= x < self@.by_author.len()
                        && self@.by_author[x] == (k, h);
                    assert(all[x].content_hash == h && all[x].author == k);
                }
                if exists|x: int| 0 <= x < all.len()
                    && (#[trigger] all[x]).content_hash == h
                    && all[x].author == k {
                    let x = choose|x: int| 0 <= x < all.len()
                        && (#[trigger] all[x]).content_hash == h
                        && all[x].author == k;
                    assert(self@.by_author[x] == (k, h));
                }
            }
            assert forall|k: Digest32, h: Digest32| #[trigger] has_pair(
                self@.by_parent, k, h) == exists|x: int| 0 <= x < all.len()
                && (#[trigger] all[x]).content_hash == h
                && all[x].parent_hash == Option::Some(k) by {
                lemma_parent_pairs_has(all, k, h);
            }
        }
    }
}

/// Two duplicate-free listings of the same hashes have the same length.
proof fn lemma_order_live_len(order: Seq<Digest32>, live: Seq<EntryView>)
    requires
        order.no_duplicates(),
        unique_hashes(live),
        forall|h: Digest32| #[trigger] order.contains(h) == contains_hash(live, h),
    ensures
        order.len() == live.len(),
{
    broadcast use vstd::set::group_set_axioms;
    let hs = hashes_of(live);
    assert(hs.no_duplicates()) by {
        assert forall|i: int, j: int| 0 <= i < j < hs.len()
            implies hs[i] != hs[j] by {
            assert(live[i].content_hash != live[j].content_hash);
        }
    }
    order.unique_seq_to_set();
    hs.unique_seq_to_set();
    assert(order.to_set() =~= hs.to_set()) by {
        assert forall|h: Digest32| order.to_set().contains(h)
            == hs.to_set().contains(h) by {
            assert(order.to_set().contains(h) == order.contains(h));
            assert(hs.to_set().contains(h) == hs.contains(h));
            if contains_hash(live, h) {
                let i = choose|i: int| 0 <= i < live.len()
                    && live[i].content_hash == h;
                assert(hs[i] == h);
            }
            if hs.contains(h) {
                let i = choose|i: int| 0 <= i < hs.len() && hs[i] == h;
                assert(live[i].content_hash == h);
            }
        }
    }
    assert(hs.len() == live.len());
}

impl HashedBlackboard {
    /// The sweep phase of compaction: drop the entries that pruning or
    /// supersession removes, leaving indexes and order to be rebuilt.
    fn sweep_at(&mut self, now_ms: u64)
        ensures
            final(self)@.live == live_after_sweep(old(self)@.live,
                old(self)@.config.prune_expired, stm_ttl_ms_spec(old(self)@.config),
                now_ms),
            final(self)@.pending == old(self)@.pending,
            final(self)@.order == old(self)@.order,
            final(self)@.epoch == old(self)@.epoch,
            final(self)@.config == old(self)@.config,
            final(self)@.by_type == old(self)@.by_type,
            final(self)@.by_author == old(self)@.by_author,
            final(self)@.by_parent == old(self)@.by_parent,
            final(self)@.cached == old(self)@.cached,
            final(self).cached_at == old(self).cached_at,
            final(self).pending == old(self).pending,
    {
        let ghost live0 = self@.live;
        let prune = self.config.prune_expired;
        let stm = self.config.stm_ttl_ms();
        let n = self.live.len();
        let mut flags: Vec<bool> = Vec::new();
        let mut i: usize = 0;
        while i < n
            invariant
                i <= n,
                n == live0.len(),
                live0 == self@.live,
                prune == self@.config.prune_expired,
                stm == stm_ttl_ms_spec(self@.config),
                self == old(self),
                flags@.len() == i,
                forall|j: int| 0 <= j < i ==> flags@[j] == swept_away(live0, live0[j],
                    prune, stm, now_ms),
            decreases n - i,
        {
            let e = &self.live[i];
            proof {
                assert(e@ == live0[i as int]);
            }
            let mut away = false;
            if prune && (e.tombstoned || e.is_expired(stm, now_ms)) {
                away = true;
            }
            if !away && e.tombstoned {
                if is_superseded(&self.live, &e.content_hash) {
                    away = true;
                }
            }
            proof {
                assert(away == swept_away(live0, live0[i as int], prune, stm, now_ms));
            }
            flags.push(away);
            i = i + 1;
        }
        let mut kept: Vec<BlackboardEntry> = Vec::new();
        let mut k: usize = 0;
        while k < n
            invariant
                k <= n,
                n == live0.len(),
                live0 == self@.live,
                prune == self@.config.prune_expired,
                stm == stm_ttl_ms_spec(self@.config),
                self == old(self),
                flags@.len() == n,
                forall|j: int| 0 <= j < n ==> flags@[j] == swept_away(live0, live0[j],
                    prune, stm, now_ms),
                kept.deep_view() =~= live0.take(k as int).filter(|e: EntryView|
                    !swept_away(live0, e, prune, stm, now_ms)),
            decreases n - k,
        {
            proof {
                reveal(Seq::filter);
                assert(live0.take(k + 1).drop_last() =~= live0.take(k as int));
                assert(live0.take(k + 1).last() == live0[k as int]);
            }
            if !flags[k] {
                let ghost kept0 = kept.deep_view();
                let c = self.live[k].clone();
                proof {
                    assert(c@ == live0[k as int]);
                }
                kept.push(c);
                proof {
                    assert forall|x: int| 0 <= x < kept0.len() + 1
                        implies #[trigger] kept.deep_view()[x]
                        == kept0.push(live0[k as int])[x] by {
                        if x < kept0.len() {
                            assert(kept@[x]@ == kept0[x]);
                        } else {
                            assert(kept@[x]@ == live0[k as int]);
                        }
                    }
                    assert(kept.deep_view() =~= kept0.push(live0[k as int]));
                }
            }
            k = k + 1;
        }
        proof {
            assert(live0.take(n as int) =~= live0);
        }
        self.live = kept;
    }

    /// Rebuild the canonical order after a sweep: keep only the hashes
    /// still present in the live map, preserving relative order.
    fn rebuild_order(&mut self)
        requires
            unique_hashes(old(self)@.live),
        ensures
            final(self)@.order == old(self)@.order.filter(|h: Digest32|
                contains_hash(old(self)@.live, h)),
            final(self)@.live == old(self)@.live,
            final(self)@.pending == old(self)@.pending,
            final(self)@.epoch == old(self)@.epoch,
            final(self)@.config == old(self)@.config,
            final(self)@.by_type == old(self)@.by_type,
            final(self)@.by_author == old(self)@.by_author,
            final(self)@.by_parent == old(self)@.by_parent,
            final(self)@.cached == old(self)@.cached,
            final(self).cached_at == old(self).cached_at,
            final(self).live == old(self).live,
            final(self).pending == old(self).pending,
    {
        let ghost order0 = self@.order;
        let ghost live = self@.live;
        let n = self.canonical_order.len();
        let mut kept: Vec<Digest32> = Vec::new();
        let mut i: usize = 0;
        while i < n
            invariant
                i <= n,
                n == order0.len(),
                order0 == self@.order,
                live == self@.live,
                self == old(self),
                kept@ =~= order0.take(i as int).filter(|h: Digest32|
                    contains_hash(live, h)),
            decreases n - i,
        {
            proof {
                reveal(Seq::filter);
                assert(order0.take(i + 1).drop_last() =~= order0.take(i as int));
                assert(order0.take(i + 1).last() == order0[i as int]);
            }
            let h = self.canonical_order[i];
            match find_by_hash(&self.live, &h) {
                Option::Some(_) => {
                    kept.push(h);
                }
                Option::None => {}
            }
            i = i + 1;
        }
        proof {
            assert(order0.take(n as int) =~= order0);
        }
        self.canonical_order = kept;
    }

    /// The capacity phase of compaction: while the live map exceeds the
    /// configured maximum, evict the oldest entries in canonical order.
    fn evict_excess(&mut self) -> (evicted_count: usize)
        requires
            unique_hashes(old(self)@.live),
            old(self)@.order.no_duplicates(),
            forall|h: Digest32| #[trigger] old(self)@.order.contains(h)
                == contains_hash(old(self)@.live, h),
        ensures
            ({
                let ex = compact_excess(old(self)@.live.len() as int,
                    old(self)@.config.max_entries as int);
                &&& evicted_count == ex
                &&& final(self)@.live == evict_fold(old(self)@.live,
                    old(self)@.order.take(ex))
                &&& final(self)@.live.len() == old(self)@.live.len() - ex
                &&& final(self)@.order == old(self)@.order.skip(ex)
            }),
            final(self)@.pending == old(self)@.pending,
            final(self)@.epoch == old(self)@.epoch,
            final(self)@.config == old(self)@.config,
            final(self)@.by_type == old(self)@.by_type,
            final(self)@.by_author == old(self)@.by_author,
            final(self)@.by_parent == old(self)@.by_parent,
            final(self)@.cached == old(self)@.cached,
            final(self).cached_at == old(self).cached_at,
            final(self).pending == old(self).pending,
    {
        let ghost live0 = self@.live;
        let ghost order0 = self@.order;
        let max = self.config.max_entries;
        if self.live.len() <= max {
            proof {
                assert(compact_excess(live0.len() as int, max as int) == 0);
                assert(order0.take(0) =~= Seq::<Digest32>::empty());
                assert(evict_fold(live0, order0.take(0)) == live0);
                assert(order0.skip(0) =~= order0);
            }
            return 0;
        }
        let excess = self.live.len() - max;
        proof {
            lemma_order_live_len(order0, live0);
        }
        let mut e: usize = 0;
        while e < excess
            invariant
                e <= excess,
                live0 == old(self)@.live,
                order0 == old(self)@.order,
                order0.len() == live0.len(),
                excess == compact_excess(live0.len() as int,
                    old(self)@.config.max_entries as int),
                excess <= live0.len(),
                unique_hashes(live0),
                order0.no_duplicates(),
                forall|h: Digest32| #[trigger] order0.contains(h)
                    == contains_hash(live0, h),
                self@.live == evict_fold(live0, order0.take(e as int)),
                self.live@.len() == live0.len() - e,
                self@.order == order0,
                self.pending == old(self).pending,
                self.by_type == old(self).by_type,
                self.by_author == old(self).by_author,
                self.by_parent == old(self).by_parent,
                self.config == old(self).config,
                self.epoch == old(self).epoch,
                self.cached_snapshot == old(self).cached_snapshot,
                self.cached_at == old(self).cached_at,
            decreases excess - e,
        {
            let ghost cur = self@.live;
            let h = self.canonical_order[e];
            proof {
                assert(h == order0[e as int]);
                assert(order0.contains(h)) by {
                    assert(order0[e as int] == h);
                }
                assert(!order0.take(e as int).contains(h)) by {
                    if order0.take(e as int).contains(h) {
                        let x = choose|x: int| 0 <= x < e && order0.take(e as int)[x]
                            == h;
                        assert(order0[x] == order0[e as int]);
                    }
                }
                lemma_evict_membership(live0, order0.take(e as int), h);
                assert(contains_hash(cur, h));
            }
            match find_by_hash(&self.live, &h) {
                Option::Some(idx) => {
                    proof {
                        lemma_evict_unique(live0, order0.take(e as int));
                    }
                    let _ = self.live.remove(idx);
                    proof {
                        assert forall|x: int| 0 <= x < self.live@.len()
                            implies #[trigger] self@.live[x]
                            == cur.remove(idx as int)[x] by {
                            if x < idx {
                                assert(self.live@[x]@ == cur[x]);
                            } else {
                                assert(self.live@[x]@ == cur[x + 1]);
                            }
                        }
                        assert(self@.live =~= cur.remove(idx as int));
                        lemma_remove_single(cur, idx as int, h);
                        assert(order0.take(e + 1).drop_last()
                            =~= order0.take(e as int));
                        assert(order0.take(e + 1).last() == order0[e as int]);
                        assert(self@.live =~= evict_fold(live0, order0.take(e + 1)));
                    }
                }
                Option::None => {
                    proof {
                        assert(false);
                    }
                }
            }
            e = e + 1;
        }
        let tail = self.canonical_order.split_off(excess);
        self.canonical_order = tail;
        proof {
            assert(self@.order =~= order0.skip(excess as int));
        }
        excess
    }
}

impl HashedBlackboard {
    /// Count the tombstoned entries, the expired-but-not-tombstoned
    /// entries, and the tombstoned entries that a live successor
    /// supersedes, for compaction statistics.
    fn compact_counts(&self, now_ms: u64) -> (r: (usize, usize, usize))
        ensures
            r.0 == self@.live.filter(|e: EntryView| e.tombstoned).len(),
            r.1 == self@.live.filter(|e: EntryView| !e.tombstoned
                && is_expired_spec(e, stm_ttl_ms_spec(self@.config), now_ms)).len(),
            r.2 == self@.live.filter(|e: EntryView| e.tombstoned
                && superseded_in(self@.live, e.content_hash)).len(),
    {
        let ghost live = self@.live;
        let ghost stm_g = stm_ttl_ms_spec(self@.config);
        let stm = self.config.stm_ttl_ms();
        let n = self.live.len();
        let mut tomb: usize = 0;
        let mut expired: usize = 0;
        let mut superseded: usize = 0;
        let mut i: usize = 0;
        while i < n
            invariant
                i <= n,
                n == live.len(),
                live == self@.live,
                stm == stm_g,
                stm_g == stm_ttl_ms_spec(self@.config),
                tomb == live.take(i as int).filter(|e: EntryView| e.tombstoned).len(),
                expired == live.take(i as int).filter(|e: EntryView| !e.tombstoned
                    && is_expired_spec(e, stm_g, now_ms)).len(),
                superseded == live.take(i as int).filter(|e: EntryView| e.tombstoned
                    && superseded_in(live, e.content_hash)).len(),
            decreases n - i,
        {
            proof {
                reveal(Seq::filter);
                assert(live.take(i + 1).drop_last() =~= live.take(i as int));
                assert(live.take(i + 1).last() == live[i as int]);
                live.take(i + 1).lemma_filter_len(|e: EntryView| e.tombstoned);
                live.take(i + 1).lemma_filter_len(|e: EntryView| !e.tombstoned
                    && is_expired_spec(e, stm_g, now_ms));
                live.take(i + 1).lemma_filter_len(|e: EntryView| e.tombstoned
                    && superseded_in(live, e.content_hash));
            }
            let e = &self.live[i];
            proof {
                assert(e@ == live[i as int]);
            }
            if e.tombstoned {
                tomb = tomb + 1;
            }
            if !e.tombstoned && e.is_expired(stm, now_ms) {
                expired = expired + 1;
            }
            if e.tombstoned && is_superseded(&self.live, &e.content_hash) {
                superseded = superseded + 1;
            }
            i = i + 1;
        }
        proof {
            assert(live.take(n as int) =~= live);
        }
        (tomb, expired, superseded)
    }

    /// Compact the board at an explicit instant: sweep out what pruning
    /// and supersession remove, rebuild the canonical order, evict the
    /// oldest entries beyond the capacity bound, rebuild the indexes, and
    /// report what happened. Afterwards the live map never exceeds the
    /// configured capacity.
    pub fn compact_at(&mut self, now_ms: u64) -> (r: BlackboardResult<CompactionStats>)
        requires
            old(self).wf(),
        ensures
            final(self).wf(),
            final(self)@.pending == old(self)@.pending,
            final(self)@.epoch == old(self)@.epoch,
            final(self)@.config == old(self)@.config,
            final(self)@.cached is None,
            final(self)@.live.len() <= old(self)@.config.max_entries,
            final(self)@.by_type == type_pairs(all_entries(final(self)@)),
            final(self)@.by_author =~= author_pairs(all_entries(final(self)@)),
            final(self)@.by_parent == parent_pairs(all_entries(final(self)@)),
            r is Ok,
            ({
                let prune = old(self)@.config.prune_expired;
                let stm = stm_ttl_ms_spec(old(self)@.config);
                let live1 = live_after_sweep(old(self)@.live, prune, stm, now_ms);
                let order1 = old(self)@.order.filter(|h: Digest32|
                    contains_hash(live1, h));
                let ex = compact_excess(live1.len() as int,
                    old(self)@.config.max_entries as int);
                &&& final(self)@.live == evict_fold(live1, order1.take(ex))
                &&& final(self)@.order == order1.skip(ex)
                &&& r.unwrap().entries_before == old(self)@.live.len()
                &&& r.unwrap().entries_after == final(self)@.live.len()
                &&& r.unwrap().tombstoned == old(self)@.live.filter(|e: EntryView|
                    e.tombstoned).len()
                &&& r.unwrap().pruned as int == if old(self)@.live.filter(
                        |e: EntryView| !e.tombstoned && is_expired_spec(e, stm,
                        now_ms)).len() + ex <= usize::MAX as int {
                    old(self)@.live.filter(|e: EntryView| !e.tombstoned
                        && is_expired_spec(e, stm, now_ms)).len() + ex
                } else {
                    usize::MAX as int
                }
                &&& r.unwrap().superseded_removed == if prune {
                    0int
                } else {
                    old(self)@.live.filter(|e: EntryView| e.tombstoned
                        && superseded_in(old(self)@.live, e.content_hash)).len()
                        as int
                }
            }),
    {
        proof {
            assert(store_wf(old(self)@));
        }
        let ghost live0 = self@.live;
        let ghost order0 = self@.order;
        let ghost prune = self@.config.prune_expired;
        let ghost stm = stm_ttl_ms_spec(self@.config);
        let before = self.live.len();
        let (tomb, expired, superseded) = self.compact_counts(now_ms);
        self.sweep_at(now_ms);
        let ghost live1 = self@.live;
        proof {
            lemma_filter_unique_hashes(live0, |e: EntryView| !swept_away(live0, e,
                prune, stm, now_ms));
        }
        self.rebuild_order();
        let ghost order1 = self@.order;
        proof {
            lemma_filter_no_duplicates(order0, |h: Digest32| contains_hash(live1, h));
            assert forall|h: Digest32| #[trigger] order1.contains(h)
                == contains_hash(live1, h) by {
                lemma_filter_contains_iff(order0, |h2: Digest32|
                    contains_hash(live1, h2), h);
                if contains_hash(live1, h) {
                    let i = choose|i: int| 0 <= i < live1.len()
                        && live1[i].content_hash == h;
                    lemma_filter_contains_iff(live0, |e: EntryView| !swept_away(live0,
                        e, prune, stm, now_ms), live1[i]);
                    assert(live0.contains(live1[i]));
                    let j = choose|j: int| 0 <= j < live0.len()
                        && live0[j] == live1[i];
                    assert(contains_hash(live0, h));
                    assert(order0.contains(h));
                }
            }
        }
        let evicted_count = self.evict_excess();
        let ghost live2 = self@.live;
        self.rebuild_indexes();
        self.cached_snapshot = Option::None;
        let after = self.live.len();
        let pruned = match expired.checked_add(evicted_count) {
            Option::Some(p) => p,
            Option::None => usize::MAX,
        };
        let superseded_removed = if self.config.prune_expired { 0 } else { superseded };
        let stats = CompactionStats {
            entries_before: before,
            entries_after: after,
            tombstoned: tomb,
            pruned,
            superseded_removed,
        };
        proof {
            let v = self@;
            let ex = compact_excess(live1.len() as int, v.config.max_entries as int);
            lemma_order_live_len(order1, live1);
            // uniqueness of the final live map
            lemma_evict_unique(live1, order1.take(ex));
            // live hashes only shrink, so disjointness from pending holds
            assert forall|h: Digest32| !(#[trigger] contains_hash(v.live, h)
                && contains_hash(v.pending, h)) by {
                if contains_hash(v.live, h) {
                    lemma_evict_membership(live1, order1.take(ex), h);
                    let i = choose|i: int| 0 <= i < live1.len()
                        && live1[i].content_hash == h;
                    lemma_filter_contains_iff(live0, |e: EntryView| !swept_away(live0,
                        e, prune, stm, now_ms), live1[i]);
                    let j = choose|j: int| 0 <= j < live0.len()
                        && live0[j] == live1[i];
                    assert(contains_hash(live0, h));
                }
            }
            // the trimmed order lists exactly the evicted live map
            assert(v.order == order1.skip(ex));
            assert(v.order.no_duplicates()) by {
                assert forall|a: int, b: int| 0 <= a < b < v.order.len()
                    implies v.order[a] != v.order[b] by {
                    assert(v.order[a] == order1[ex + a]);
                    assert(v.order[b] == order1[ex + b]);
                }
            }
            assert forall|h: Digest32| #[trigger] v.order.contains(h)
                == contains_hash(v.live, h) by {
                lemma_evict_membership(live1, order1.take(ex), h);
                if v.order.contains(h) {
                    let i = choose|i: int| 0 <= i < v.order.len()
                        && v.order[i] == h;
                    assert(order1[ex + i] == h);
                    assert(order1.contains(h)) by {
                        assert(order1[ex + i] == h);
                    }
                    assert(contains_hash(live1, h));
                    assert(!order1.take(ex).contains(h)) by {
                        if order1.take(ex).contains(h) {
                            let x = choose|x: int| 0 <= x < ex
                                && order1.take(ex)[x] == h;
                            assert(order1[x] == order1[ex + i]);
                        }
                    }
                }
                if contains_hash(v.live, h) {
                    assert(contains_hash(live1, h));
                    assert(!order1.take(ex).contains(h));
                    assert(order1.contains(h));
                    let p = choose|p: int| 0 <= p < order1.len() && order1[p] == h;
                    assert(p >= ex) by {
                        if p < ex {
                            assert(order1.take(ex)[p] == h);
                        }
                    }
                    assert(v.order[p - ex] == h);
                    assert(v.order.contains(h)) by {
                        assert(v.order[p - ex] == h);
                    }
                }
            }
            assert(store_wf(v));
            assert(cache_ok(v, self.cached_at@));
        }
        Result::Ok(stats)
    }

    /// Compact the board as of the current wall-clock instant.
    pub fn compact(&mut self) -> (r: BlackboardResult<CompactionStats>)
        requires
            old(self).wf(),
        ensures
            final(self).wf(),
            r is Ok,
            final(self)@.pending == old(self)@.pending,
            final(self)@.epoch == old(self)@.epoch,
            final(self)@.config == old(self)@.config,
            final(self)@.cached is None,
            final(self)@.live.len() <= old(self)@.config.max_entries,
            final(self)@.by_type == type_pairs(all_entries(final(self)@)),
            final(self)@.by_author =~= author_pairs(all_entries(final(self)@)),
            final(self)@.by_parent == parent_pairs(all_entries(final(self)@)),
            exists|t: u64| final(self)@.live == evict_fold(
                live_after_sweep(old(self)@.live, old(self)@.config.prune_expired,
                    stm_ttl_ms_spec(old(self)@.config), t),
                old(self)@.order.filter(|h: Digest32| contains_hash(
                    live_after_sweep(old(self)@.live, old(self)@.config.prune_expired,
                        stm_ttl_ms_spec(old(self)@.config), t), h)).take(
                    compact_excess(live_after_sweep(old(self)@.live,
                        old(self)@.config.prune_expired,
                        stm_ttl_ms_spec(old(self)@.config), t).len() as int,
                        old(self)@.config.max_entries as int))),
    {
        let now = now_millis();
        self.compact_at(now)
    }
}

/// The committed and staged maps after posting `es` left to right: each
/// novel entry tombstones what it supersedes and is staged; a duplicate
/// hash changes nothing.
pub open spec fn post_fold(live: Seq<EntryView>, pending: Seq<EntryView>,
    es: Seq<EntryView>) -> (Seq<EntryView>, Seq<EntryView>)
    decreases es.len(),
{
    if es.len() == 0 {
        (live, pending)
    } else {
        let prev = post_fold(live, pending, es.drop_last());
        let e = es.last();
        if contains_hash(prev.0, e.content_hash)
            || contains_hash(prev.1, e.content_hash) {
            prev
        } else {
            (mark_all(prev.0, e.supersedes), mark_all(prev.1, e.supersedes).push(e))
        }
    }
}

impl HashedBlackboard {
    /// Post a batch of entries in order, collecting their hashes.
    pub fn post_batch(&mut self, entries: Vec<BlackboardEntry>)
        -> (r: BlackboardResult<Vec<Digest32>>)
        requires
            old(self).wf(),
        ensures
            final(self).wf(),
            r is Ok,
            r.unwrap()@ == hashes_of(entries.deep_view()),
            (final(self)@.live, final(self)@.pending) == post_fold(old(self)@.live,
                old(self)@.pending, entries.deep_view()),
            final(self)@.epoch == old(self)@.epoch,
            final(self)@.config == old(self)@.config,
            final(self)@.order == old(self)@.order,
            final(self)@.cached is None || final(self)@.cached == old(self)@.cached,
    {
        let ghost es = entries.deep_view();
        let mut hashes: Vec<Digest32> = Vec::new();
        let n = entries.len();
        let rest = entries;
        let mut i: usize = 0;
        while i < n
            invariant
                i <= n,
                n == es.len(),
                rest.deep_view() == es,
                self.wf(),
                (self@.live, self@.pending) == post_fold(old(self)@.live,
                    old(self)@.pending, es.take(i as int)),
                self@.epoch == old(self)@.epoch,
                self@.config == old(self)@.config,
                self@.order == old(self)@.order,
                self@.cached is None || self@.cached == old(self)@.cached,
                hashes@ =~= hashes_of(es.take(i as int)),
            decreases n - i,
        {
            proof {
                assert(es.take(i + 1).drop_last() =~= es.take(i as int));
                assert(es.take(i + 1).last() == es[i as int]);
            }
            let e = rest[i].clone();
            proof {
                assert(e@ == es[i as int]);
            }
            match self.post(e) {
                Result::Ok(h) => {
                    hashes.push(h);
                }
                Result::Err(_) => {
                    proof {
                        assert(false);
                    }
                }
            }
            proof {
                assert(hashes@ =~= hashes_of(es.take(i + 1)));
            }
            i = i + 1;
        }
        proof {
            assert(es.take(n as int) =~= es);
            assert(hashes@ =~= hashes_of(es));
        }
        Result::Ok(hashes)
    }

    /// Build the context text injected into a task prompt: the rendered
    /// text of the current snapshot, which this call builds and memoizes
    /// if none is held. Never fails; an empty board renders as the empty
    /// string. The task text does not enter the prefix, which is what
    /// keeps the prefix byte-identical across agents.
    pub fn build_context_for_task(&mut self, task_description: &str,
        additional_context: &str) -> (r: String)
        requires
            old(self).wf(),
        ensures
            final(self).wf(),
            final(self)@ == (HashedView { cached: final(self)@.cached,
                ..old(self)@ }),
            final(self)@.cached is Some,
            r@ == final(self)@.cached.unwrap().rendered,
            match old(self)@.cached {
                Option::Some(s) => final(self)@.cached == Option::Some(s),
                Option::None => exists|t: u64| final(self)@.cached
                    == Option::Some(snapshot_spec(old(self)@, t)),
            },
    {
        let _ = task_description;
        let _ = additional_context;
        match self.snapshot() {
            Result::Ok(s) => s.rendered,
            Result::Err(_) => String::new(),
        }
    }

    /// The name of this store flavor.
    pub fn flavor_name(&self) -> (r: &'static str)
        ensures
            r@ == "hashed"@,
    {
        "hashed"
    }

    /// Diagnostics: key/value pairs describing the store, with counts in
    /// decimal and the thumbprint in hex.
    pub fn stats(&mut self) -> (r: Vec<(String, String)>)
        requires
            old(self).wf(),
        ensures
            final(self).wf(),
            final(self)@ == (HashedView { cached: final(self)@.cached,
                ..old(self)@ }),
            final(self)@.cached is Some,
            match old(self)@.cached {
                Option::Some(s) => final(self)@.cached == Option::Some(s),
                Option::None => exists|t: u64| final(self)@.cached
                    == Option::Some(snapshot_spec(old(self)@, t)),
            },
            r@.len() == 6,
            r@[0].0@ == "flavor"@ && r@[0].1@ == "hashed"@,
            r@[1].0@ == "live_entries"@
                && r@[1].1@ == crate::text::dec_of(old(self)@.live.len()),
            r@[2].0@ == "pending_entries"@
                && r@[2].1@ == crate::text::dec_of(old(self)@.pending.len()),
            r@[3].0@ == "epoch"@
                && r@[3].1@ == crate::text::dec_of(old(self)@.epoch as nat),
            r@[4].0@ == "canonical_order_len"@
                && r@[4].1@ == crate::text::dec_of(old(self)@.order.len()),
            r@[5].0@ == "thumbprint"@ && r@[5].1@ == crate::text::hex_of(
                crate::digest::digest_bytes_spec(
                final(self)@.cached.unwrap().thumbprint)),
    {
        let mut out: Vec<(String, String)> = Vec::new();
        out.push((String::from_str("flavor"), String::from_str("hashed")));
        let mut live_count = String::new();
        crate::text::push_dec_u64(&mut live_count, self.live.len() as u64);
        out.push((String::from_str("live_entries"), live_count));
        let mut pending_count = String::new();
        crate::text::push_dec_u64(&mut pending_count, self.pending.len() as u64);
        out.push((String::from_str("pending_entries"), pending_count));
        let mut epoch_s = String::new();
        crate::text::push_dec_u64(&mut epoch_s, self.epoch);
        out.push((String::from_str("epoch"), epoch_s));
        let mut order_len = String::new();
        crate::text::push_dec_u64(&mut order_len, self.canonical_order.len() as u64);
        out.push((String::from_str("canonical_order_len"), order_len));
        let tp = self.cache_thumbprint();
        out.push((String::from_str("thumbprint"), tp.hex()));
        out
    }
}

/// The by-kind index lists exactly the (kind, hash) pairs of `all`.
pub open spec fn has_pair_inv_type(idx: Seq<(EntryType, Digest32)>,
    all: Seq<EntryView>) -> bool
{
    forall|k: EntryType, h: Digest32| #[trigger] has_pair(idx, k, h)
        == exists|i: int| 0 <= i < all.len() && (#[trigger] all[i]).content_hash == h
            && all[i].entry_type == k
}

/// The by-author index lists exactly the (author, hash) pairs of `all`.
pub open spec fn has_pair_inv_author(idx: Seq<(Seq<char>, Digest32)>,
    all: Seq<EntryView>) -> bool
{
    forall|k: Seq<char>, h: Digest32| #[trigger] has_pair(idx, k, h)
        == exists|i: int| 0 <= i < all.len() && (#[trigger] all[i]).content_hash == h
            && all[i].author == k
}

/// The by-parent index lists exactly the (parent, hash) pairs of `all`.
pub open spec fn has_pair_inv_parent(idx: Seq<(Digest32, Digest32)>,
    all: Seq<EntryView>) -> bool
{
    forall|k: Digest32, h: Digest32| #[trigger] has_pair(idx, k, h)
        == exists|i: int| 0 <= i < all.len() && (#[trigger] all[i]).content_hash == h
            && all[i].parent_hash == Option::Some(k)
}

/// In a duplicate-free sequence, the entry found at position `i` is the
/// entry at its hash.
pub proof fn lemma_unique_entry_at(s: Seq<EntryView>, i: int)
    requires
        unique_hashes(s),
        0 <= i < s.len(),
    ensures
        contains_hash(s, s[i].content_hash),
        entry_at(s, s[i].content_hash) == s[i],
{
    let h = s[i].content_hash;
    assert(contains_hash(s, h));
    let j = index_of_hash(s, h);
    assert(s[j].content_hash == h);
    if i != j {
        if i < j {
            assert(s[i].content_hash != s[j].content_hash);
        } else {
            assert(s[j].content_hash != s[i].content_hash);
        }
    }
}

} // verus!
