//! The laws the library states of itself, proved once and for all. Each
//! law is a public proof function; where a law is instead carried directly
//! by a function's contract, that contract is the statement.

use vstd::prelude::*;
use crate::digest::Digest32;
use crate::entry::{EntryView, entry_hash_spec, is_expired_spec};
use crate::hashed::{HashedView, snapshot_spec, snap_entries, mark_all, entry_at,
    contains_hash, unique_hashes, lemma_mark_all_tombstones, lemma_snap_entries_clean,
    sort_by_hash, lemma_sort_elem, lemma_sort_len, lemma_sort_unique,
    lemma_sort_sorted, lemma_sorted_canonical};
use crate::config::stm_ttl_ms_spec;
use crate::snapshot::{thumbprint_spec, render_spec};

verus! {

/// Determinism of the entry hash: two entries with equal author, content
/// and parent have equal hashes. (The converse — that equal hashes force
/// equal fields — is collision resistance, which no 32-byte digest can
/// satisfy for all inputs and which is therefore not stated.)
pub proof fn law_hash_deterministic(a1: Seq<char>, c1: Seq<char>,
    p1: Option<Digest32>, a2: Seq<char>, c2: Seq<char>, p2: Option<Digest32>)
    requires
        a1 == a2,
        c1 == c2,
        p1 == p2,
    ensures
        entry_hash_spec(a1, c1, p1) == entry_hash_spec(a2, c2, p2),
{
}

/// Snapshot purity: two stores whose committed entries, canonical order,
/// configuration and epoch agree produce, at the same instant, snapshots
/// with equal entries, equal thumbprints and byte-equal rendered text —
/// whatever else (staged entries, indexes, memo) differs.
pub proof fn law_snapshot_pure(v1: HashedView, v2: HashedView, now_ms: u64)
    requires
        v1.live == v2.live,
        v1.order == v2.order,
        v1.config == v2.config,
        v1.epoch == v2.epoch,
    ensures
        snapshot_spec(v1, now_ms) == snapshot_spec(v2, now_ms),
{
}

/// Thumbprint determinism across processes: any two boards that arrive at
/// the same committed entries in the same canonical order have the same
/// thumbprint and the same rendered prefix, at equal instants and TTLs.
pub proof fn law_thumbprint_deterministic(live1: Seq<EntryView>,
    order1: Seq<Digest32>, live2: Seq<EntryView>, order2: Seq<Digest32>,
    stm_ttl_ms: u64, now_ms: u64)
    requires
        live1 == live2,
        order1 == order2,
    ensures
        thumbprint_spec(snap_entries(live1, order1, stm_ttl_ms, now_ms))
            == thumbprint_spec(snap_entries(live2, order2, stm_ttl_ms, now_ms)),
        render_spec(snap_entries(live1, order1, stm_ttl_ms, now_ms))
            == render_spec(snap_entries(live2, order2, stm_ttl_ms, now_ms)),
{
}

/// Canonical batch order: two boards that stage the same set of entries,
/// in whatever posting order, promote them as the same batch, because a
/// batch is promoted in ascending hash byte order. With equal committed
/// prefixes, their canonical orders — and so their thumbprints and
/// rendered prefixes — therefore agree.
pub proof fn law_batch_order_canonical(p1: Seq<EntryView>, p2: Seq<EntryView>)
    requires
        unique_hashes(p1),
        unique_hashes(p2),
        forall|x: EntryView| p1.contains(x) == p2.contains(x),
    ensures
        sort_by_hash(p1) == sort_by_hash(p2),
{
    broadcast use vstd::set::group_set_axioms;
    lemma_sort_unique(p1);
    lemma_sort_unique(p2);
    lemma_sort_sorted(p1);
    lemma_sort_sorted(p2);
    lemma_sort_len(p1);
    lemma_sort_len(p2);
    // hash uniqueness makes the listings duplicate-free as values
    assert(p1.no_duplicates()) by {
        assert forall|i: int, j: int| 0 <= i < j < p1.len()
            implies p1[i] != p1[j] by {
            assert(p1[i].content_hash != p1[j].content_hash);
        }
    }
    assert(p2.no_duplicates()) by {
        assert forall|i: int, j: int| 0 <= i < j < p2.len()
            implies p2[i] != p2[j] by {
            assert(p2[i].content_hash != p2[j].content_hash);
        }
    }
    p1.unique_seq_to_set();
    p2.unique_seq_to_set();
    assert(p1.to_set() =~= p2.to_set()) by {
        assert forall|x: EntryView| p1.to_set().contains(x)
            == p2.to_set().contains(x) by {
            assert(p1.to_set().contains(x) == p1.contains(x));
            assert(p2.to_set().contains(x) == p2.contains(x));
        }
    }
    assert(p1.len() == p2.len());
    assert forall|x: EntryView| sort_by_hash(p1).contains(x)
        == sort_by_hash(p2).contains(x) by {
        lemma_sort_elem(p1, x);
        lemma_sort_elem(p2, x);
    }
    lemma_sorted_canonical(sort_by_hash(p1), sort_by_hash(p2));
}

/// Exclusion of tombstoned entries: no snapshot contains a tombstoned
/// entry.
pub proof fn law_snapshot_excludes_tombstoned(v: HashedView, now_ms: u64, i: int)
    requires
        0 <= i < snapshot_spec(v, now_ms).entries.len(),
    ensures
        !snapshot_spec(v, now_ms).entries[i].tombstoned,
{
    lemma_snap_entries_clean(v.live, v.order, stm_ttl_ms_spec(v.config), now_ms, i);
}

/// Exclusion of expired entries: no snapshot contains an entry that is
/// expired at the instant the snapshot is built.
pub proof fn law_snapshot_excludes_expired(v: HashedView, now_ms: u64, i: int)
    requires
        0 <= i < snapshot_spec(v, now_ms).entries.len(),
    ensures
        !is_expired_spec(snapshot_spec(v, now_ms).entries[i],
            stm_ttl_ms_spec(v.config), now_ms),
{
    lemma_snap_entries_clean(v.live, v.order, stm_ttl_ms_spec(v.config), now_ms, i);
}

/// Supersession: posting an entry whose supersedes list names a present
/// hash — committed or still staged — leaves that hash's entry
/// tombstoned. The post contract states that both maps become `mark_all`
/// of their old selves; this law says what that marking does to each
/// named hash in whichever map holds it.
pub proof fn law_post_supersedes(live: Seq<EntryView>, sup: Seq<Digest32>, j: int)
    requires
        unique_hashes(live),
        0 <= j < sup.len(),
        contains_hash(live, sup[j]),
    ensures
        contains_hash(mark_all(live, sup), sup[j]),
        entry_at(mark_all(live, sup), sup[j]).tombstoned,
{
    lemma_mark_all_tombstones(live, sup, j);
}

} // verus!
