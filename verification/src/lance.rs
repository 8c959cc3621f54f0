//! The vector-database-backed store flavor. No vector backend is compiled
//! into this crate, so the store reports the backend as unavailable and
//! serves every operation from the content-addressed store it wraps;
//! vector-specific calls return empty results or a backend error. Each
//! wrapped operation restates the wrapped store's contract, so the
//! fallback is observably the content-addressed store.

use vstd::prelude::*;
use crate::config::{BlackboardConfig, ConfigView, stm_ttl_ms_spec};
use crate::digest::Digest32;
use crate::entry::{BlackboardEntry, EntryType, EntryView};
use crate::hashed::{HashedBlackboard, HashedView, contains_hash, entry_at, mark_all,
    mark_one, snapshot_spec, query_spec, hashes_of, all_hashes_valid, import_new,
    import_pending, live_after_sweep, evict_fold, compact_excess, post_fold,
    all_entries, type_pairs, author_pairs, parent_pairs, sort_by_hash};
use crate::snapshot::{BlackboardSnapshot, CacheThumbprint, SnapshotView};
use crate::store::{BlackboardError, ErrorView, BlackboardResult, BlackboardQuery,
    CompactionStats};

verus! {

/// The vector-backed store: a wrapped content-addressed store plus the
/// availability flag of the vector backend.
pub struct LanceBlackboard {
    inner: HashedBlackboard,
    lance_available: bool,
}

/// The mathematical image of the vector-backed store.
pub ghost struct LanceView {
    pub inner: HashedView,
    pub lance_available: bool,
}

impl View for LanceBlackboard {
    type V = LanceView;

    closed spec fn view(&self) -> LanceView {
        LanceView {
            inner: self.inner@,
            lance_available: self.lance_available,
        }
    }
}

/// Probe for a vector backend. None is compiled into this crate, so the
/// probe always reports absence; the store then falls back to its wrapped
/// content-addressed store.
fn try_init_lance(config: &BlackboardConfig) -> (r: bool)
    ensures
        r == false,
{
    let _ = config;
    false
}

impl LanceBlackboard {
    /// The store's well-formedness: that of the wrapped store.
    pub closed spec fn wf(&self) -> bool {
        self.inner.wf()
    }

    /// Create the store; with no vector backend available it starts as a
    /// fallback over an empty content-addressed store.
    pub fn new(config: BlackboardConfig) -> (r: Self)
        ensures
            r.wf(),
            !r@.lance_available,
            r@.inner.config == config@,
            r@.inner.live =~= Seq::<EntryView>::empty(),
            r@.inner.pending =~= Seq::<EntryView>::empty(),
            r@.inner.order =~= Seq::<Digest32>::empty(),
            r@.inner.epoch == 0,
            r@.inner.cached is None,
    {
        let lance_available = try_init_lance(&config);
        LanceBlackboard {
            inner: HashedBlackboard::new(config),
            lance_available,
        }
    }

    /// Vector similarity search. With no backend available, no results.
    pub fn vector_search(&self, query: &str, limit: usize)
        -> (r: Vec<BlackboardEntry>)
        ensures
            !self@.lance_available ==> r@.len() == 0,
    {
        let _ = query;
        let _ = limit;
        Vec::new()
    }

    /// Columnar predicate filter. With no backend available, no results.
    pub fn filter(&self, predicate: &str, limit: usize) -> (r: Vec<BlackboardEntry>)
        ensures
            !self@.lance_available ==> r@.len() == 0,
    {
        let _ = predicate;
        let _ = limit;
        Vec::new()
    }

    /// Create the vector index; a backend error when none is available.
    pub fn create_index(&self) -> (r: BlackboardResult<()>)
        ensures
            !self@.lance_available ==> (r matches Result::Err(e)
                && e@ matches ErrorView::Lance(_)),
            self@.lance_available ==> r is Ok,
    {
        if !self.lance_available {
            return Result::Err(BlackboardError::Lance(String::from_str(
                "no vector backend is available")));
        }
        Result::Ok(())
    }

    /// Compact the vector table; a backend error when none is available.
    pub fn compact_lance(&self) -> (r: BlackboardResult<()>)
        ensures
            !self@.lance_available ==> (r matches Result::Err(e)
                && e@ matches ErrorView::Lance(_)),
            self@.lance_available ==> r is Ok,
    {
        if !self.lance_available {
            return Result::Err(BlackboardError::Lance(String::from_str(
                "no vector backend is available")));
        }
        Result::Ok(())
    }

    /// Post an entry through the wrapped store.
    pub fn post(&mut self, entry: BlackboardEntry) -> (r: BlackboardResult<Digest32>)
        requires
            old(self).wf(),
        ensures
            final(self).wf(),
            final(self)@.lance_available == old(self)@.lance_available,
            r is Ok && r.unwrap() == entry@.content_hash,
            final(self)@.inner.epoch == old(self)@.inner.epoch,
            final(self)@.inner.config == old(self)@.inner.config,
            final(self)@.inner.order == old(self)@.inner.order,
            (contains_hash(old(self)@.inner.live, entry@.content_hash)
                || contains_hash(old(self)@.inner.pending, entry@.content_hash))
                ==> final(self)@.inner == old(self)@.inner,
            !(contains_hash(old(self)@.inner.live, entry@.content_hash)
                || contains_hash(old(self)@.inner.pending, entry@.content_hash)) ==> {
                &&& final(self)@.inner.live == mark_all(old(self)@.inner.live,
                    entry@.supersedes)
                &&& final(self)@.inner.pending == mark_all(old(self)@.inner.pending,
                    entry@.supersedes).push(entry@)
                &&& final(self)@.inner.by_type == old(self)@.inner.by_type.push((
                    entry@.entry_type, entry@.content_hash))
                &&& final(self)@.inner.by_author =~= old(self)@.inner.by_author.push((
                    entry@.author, entry@.content_hash))
                &&& final(self)@.inner.by_parent == match entry@.parent_hash {
                    Option::Some(p) => old(self)@.inner.by_parent.push((p,
                        entry@.content_hash)),
                    Option::None => old(self)@.inner.by_parent,
                }
                &&& final(self)@.inner.cached is None
            },
    {
        self.inner.post(entry)
    }

    /// Post a batch through the wrapped store.
    pub fn post_batch(&mut self, entries: Vec<BlackboardEntry>)
        -> (r: BlackboardResult<Vec<Digest32>>)
        requires
            old(self).wf(),
        ensures
            final(self).wf(),
            final(self)@.lance_available == old(self)@.lance_available,
            r is Ok,
            r.unwrap()@ == hashes_of(entries.deep_view()),
            (final(self)@.inner.live, final(self)@.inner.pending)
                == post_fold(old(self)@.inner.live, old(self)@.inner.pending,
                    entries.deep_view()),
            final(self)@.inner.epoch == old(self)@.inner.epoch,
            final(self)@.inner.config == old(self)@.inner.config,
            final(self)@.inner.order == old(self)@.inner.order,
            final(self)@.inner.cached is None
                || final(self)@.inner.cached == old(self)@.inner.cached,
    {
        self.inner.post_batch(entries)
    }

    /// Fetch an entry by hash through the wrapped store.
    pub fn get(&self, hash: &Digest32) -> (r: BlackboardResult<Option<BlackboardEntry>>)
        requires
            self.wf(),
        ensures
            r is Ok,
            contains_hash(self@.inner.live, *hash) ==> r.unwrap() is Some
                && r.unwrap().unwrap()@ == entry_at(self@.inner.live, *hash),
            !contains_hash(self@.inner.live, *hash)
                && contains_hash(self@.inner.pending, *hash) ==> r.unwrap() is Some
                && r.unwrap().unwrap()@ == entry_at(self@.inner.pending, *hash),
            !contains_hash(self@.inner.live, *hash)
                && !contains_hash(self@.inner.pending, *hash)
                ==> r.unwrap() is None,
    {
        self.inner.get(hash)
    }

    /// Query through the wrapped store at an explicit instant.
    pub fn query_at(&self, q: &BlackboardQuery, now_ms: u64)
        -> (r: BlackboardResult<Vec<BlackboardEntry>>)
        requires
            self.wf(),
        ensures
            r is Ok,
            r.unwrap().deep_view() == query_spec(self@.inner, q@, now_ms),
    {
        self.inner.query_at(q, now_ms)
    }

    /// Query through the wrapped store.
    pub fn query(&self, q: &BlackboardQuery)
        -> (r: BlackboardResult<Vec<BlackboardEntry>>)
        requires
            self.wf(),
        ensures
            r is Ok,
            exists|t: u64| r.unwrap().deep_view() == query_spec(self@.inner, q@, t),
    {
        self.inner.query(q)
    }

    /// Count of committed plus staged entries.
    pub fn len(&self) -> (r: usize)
        ensures
            r as int == if self@.inner.live.len() + self@.inner.pending.len()
                <= usize::MAX as int {
                self@.inner.live.len() + self@.inner.pending.len() as int
            } else {
                usize::MAX as int
            },
    {
        self.inner.len()
    }

    /// Whether the store holds no entries.
    pub fn is_empty(&self) -> (r: bool)
        ensures
            r == (self@.inner.live.len() + self@.inner.pending.len() == 0),
    {
        self.inner.is_empty()
    }

    /// Snapshot through the wrapped store at an explicit instant.
    pub fn snapshot_at(&mut self, now_ms: u64)
        -> (r: BlackboardResult<BlackboardSnapshot>)
        requires
            old(self).wf(),
        ensures
            final(self).wf(),
            final(self)@.lance_available == old(self)@.lance_available,
            r is Ok,
            match old(self)@.inner.cached {
                Option::Some(s) => r.unwrap()@ == s
                    && final(self)@.inner == old(self)@.inner,
                Option::None => r.unwrap()@ == snapshot_spec(old(self)@.inner, now_ms)
                    && final(self)@.inner == (HashedView {
                        cached: Option::Some(r.unwrap()@),
                        ..old(self)@.inner
                    }),
            },
            exists|t: u64| r.unwrap()@ == snapshot_spec(old(self)@.inner, t),
    {
        self.inner.snapshot_at(now_ms)
    }

    /// Snapshot through the wrapped store.
    pub fn snapshot(&mut self) -> (r: BlackboardResult<BlackboardSnapshot>)
        requires
            old(self).wf(),
        ensures
            final(self).wf(),
            final(self)@.lance_available == old(self)@.lance_available,
            r is Ok,
            match old(self)@.inner.cached {
                Option::Some(s) => r.unwrap()@ == s
                    && final(self)@.inner == old(self)@.inner,
                Option::None => exists|t: u64| r.unwrap()@
                    == snapshot_spec(old(self)@.inner, t)
                    && final(self)@.inner == (HashedView {
                        cached: Option::Some(r.unwrap()@),
                        ..old(self)@.inner
                    }),
            },
            exists|t: u64| r.unwrap()@ == snapshot_spec(old(self)@.inner, t),
    {
        self.inner.snapshot()
    }

    /// The current thumbprint, memoizing a snapshot if none is held;
    /// never fails.
    pub fn cache_thumbprint(&mut self) -> (r: CacheThumbprint)
        requires
            old(self).wf(),
        ensures
            final(self).wf(),
            final(self)@.lance_available == old(self)@.lance_available,
            final(self)@.inner == (HashedView { cached: final(self)@.inner.cached,
                ..old(self)@.inner }),
            final(self)@.inner.cached is Some,
            r.digest == final(self)@.inner.cached.unwrap().thumbprint,
            match old(self)@.inner.cached {
                Option::Some(s) => final(self)@.inner.cached == Option::Some(s),
                Option::None => exists|t: u64| final(self)@.inner.cached
                    == Option::Some(snapshot_spec(old(self)@.inner, t)),
            },
    {
        self.inner.cache_thumbprint()
    }

    /// The current epoch.
    pub fn epoch(&self) -> (r: u64)
        ensures
            r == self@.inner.epoch,
    {
        self.inner.epoch()
    }

    /// Advance the epoch of the wrapped store.
    pub fn advance_epoch(&mut self) -> (r: u64)
        requires
            old(self).wf(),
            old(self)@.inner.epoch < u64::MAX,
        ensures
            final(self).wf(),
            final(self)@.lance_available == old(self)@.lance_available,
            final(self)@.inner.live == old(self)@.inner.live
                + sort_by_hash(old(self)@.inner.pending),
            final(self)@.inner.order == old(self)@.inner.order
                + hashes_of(sort_by_hash(old(self)@.inner.pending)),
            final(self)@.inner.pending =~= Seq::<EntryView>::empty(),
            final(self)@.inner.epoch == old(self)@.inner.epoch + 1,
            r == old(self)@.inner.epoch + 1,
            final(self)@.inner.cached is None,
            final(self)@.inner.config == old(self)@.inner.config,
            final(self)@.inner.by_type == old(self)@.inner.by_type,
            final(self)@.inner.by_author == old(self)@.inner.by_author,
            final(self)@.inner.by_parent == old(self)@.inner.by_parent,
    {
        self.inner.advance_epoch()
    }

    /// Tombstone an entry through the wrapped store.
    pub fn tombstone(&mut self, hash: &Digest32) -> (r: BlackboardResult<()>)
        requires
            old(self).wf(),
        ensures
            final(self).wf(),
            final(self)@.lance_available == old(self)@.lance_available,
            final(self)@.inner.config == old(self)@.inner.config,
            final(self)@.inner.epoch == old(self)@.inner.epoch,
            final(self)@.inner.order == old(self)@.inner.order,
            final(self)@.inner.by_type == old(self)@.inner.by_type,
            final(self)@.inner.by_author == old(self)@.inner.by_author,
            final(self)@.inner.by_parent == old(self)@.inner.by_parent,
            contains_hash(old(self)@.inner.live, *hash) ==> r is Ok
                && final(self)@.inner.live == mark_one(old(self)@.inner.live, *hash)
                && final(self)@.inner.pending == old(self)@.inner.pending
                && final(self)@.inner.cached is None,
            !contains_hash(old(self)@.inner.live, *hash)
                && contains_hash(old(self)@.inner.pending, *hash) ==> r is Ok
                && final(self)@.inner.pending
                    == mark_one(old(self)@.inner.pending, *hash)
                && final(self)@.inner.live == old(self)@.inner.live
                && final(self)@.inner.cached is None,
            !contains_hash(old(self)@.inner.live, *hash)
                && !contains_hash(old(self)@.inner.pending, *hash)
                ==> final(self)@.inner == old(self)@.inner
                && (r matches Result::Err(e) && e@ == ErrorView::NotFound(
                    "Entry not found"@)),
    {
        self.inner.tombstone(hash)
    }

    /// Compact the wrapped store at an explicit instant.
    pub fn compact_at(&mut self, now_ms: u64) -> (r: BlackboardResult<CompactionStats>)
        requires
            old(self).wf(),
        ensures
            final(self).wf(),
            final(self)@.lance_available == old(self)@.lance_available,
            final(self)@.inner.pending == old(self)@.inner.pending,
            final(self)@.inner.epoch == old(self)@.inner.epoch,
            final(self)@.inner.config == old(self)@.inner.config,
            final(self)@.inner.cached is None,
            final(self)@.inner.live.len() <= old(self)@.inner.config.max_entries,
            final(self)@.inner.by_type == type_pairs(all_entries(final(self)@.inner)),
            final(self)@.inner.by_author
                =~= author_pairs(all_entries(final(self)@.inner)),
            final(self)@.inner.by_parent
                == parent_pairs(all_entries(final(self)@.inner)),
            r is Ok,
            ({
                let prune = old(self)@.inner.config.prune_expired;
                let stm = stm_ttl_ms_spec(old(self)@.inner.config);
                let live1 = live_after_sweep(old(self)@.inner.live, prune, stm,
                    now_ms);
                let order1 = old(self)@.inner.order.filter(|h: Digest32|
                    contains_hash(live1, h));
                let ex = compact_excess(live1.len() as int,
                    old(self)@.inner.config.max_entries as int);
                &&& final(self)@.inner.live == evict_fold(live1, order1.take(ex))
                &&& final(self)@.inner.order == order1.skip(ex)
                &&& r.unwrap().entries_before == old(self)@.inner.live.len()
                &&& r.unwrap().entries_after == final(self)@.inner.live.len()
                &&& r.unwrap().tombstoned == old(self)@.inner.live.filter(
                    |e: EntryView| e.tombstoned).len()
                &&& r.unwrap().superseded_removed == if prune {
                    0int
                } else {
                    old(self)@.inner.live.filter(|e: EntryView| e.tombstoned
                        && crate::hashed::superseded_in(old(self)@.inner.live,
                        e.content_hash)).len() as int
                }
            }),
    {
        self.inner.compact_at(now_ms)
    }

    /// Compact the wrapped store.
    pub fn compact(&mut self) -> (r: BlackboardResult<CompactionStats>)
        requires
            old(self).wf(),
        ensures
            final(self).wf(),
            final(self)@.lance_available == old(self)@.lance_available,
            r is Ok,
            final(self)@.inner.pending == old(self)@.inner.pending,
            final(self)@.inner.epoch == old(self)@.inner.epoch,
            final(self)@.inner.config == old(self)@.inner.config,
            final(self)@.inner.cached is None,
            final(self)@.inner.live.len() <= old(self)@.inner.config.max_entries,
            final(self)@.inner.by_type == type_pairs(all_entries(final(self)@.inner)),
            final(self)@.inner.by_author
                =~= author_pairs(all_entries(final(self)@.inner)),
            final(self)@.inner.by_parent
                == parent_pairs(all_entries(final(self)@.inner)),
    {
        self.inner.compact()
    }

    /// Remove every entry from the wrapped store.
    pub fn clear(&mut self) -> (r: BlackboardResult<()>)
        requires
            old(self).wf(),
        ensures
            final(self).wf(),
            final(self)@.lance_available == old(self)@.lance_available,
            r is Ok,
            final(self)@.inner.live =~= Seq::<EntryView>::empty(),
            final(self)@.inner.pending =~= Seq::<EntryView>::empty(),
            final(self)@.inner.order =~= Seq::<Digest32>::empty(),
            final(self)@.inner.by_type =~= Seq::<(EntryType, Digest32)>::empty(),
            final(self)@.inner.by_author =~= Seq::<(Seq<char>, Digest32)>::empty(),
            final(self)@.inner.by_parent =~= Seq::<(Digest32, Digest32)>::empty(),
            final(self)@.inner.cached is None,
            final(self)@.inner.epoch == old(self)@.inner.epoch,
            final(self)@.inner.config == old(self)@.inner.config,
    {
        self.inner.clear()
    }

    /// Export the committed entries of the wrapped store.
    pub fn export_entries(&self, since_epoch: Option<u64>)
        -> (r: BlackboardResult<Vec<BlackboardEntry>>)
        requires
            self.wf(),
        ensures
            r is Ok,
            r.unwrap().deep_view() == self@.inner.live,
    {
        self.inner.export_entries(since_epoch)
    }

    /// Import entries into the wrapped store, validating their hashes.
    pub fn import_entries(&mut self, entries: Vec<BlackboardEntry>)
        -> (r: BlackboardResult<Vec<Digest32>>)
        requires
            old(self).wf(),
        ensures
            final(self).wf(),
            final(self)@.lance_available == old(self)@.lance_available,
            !all_hashes_valid(entries.deep_view())
                ==> final(self)@.inner == old(self)@.inner
                && (r matches Result::Err(e)
                    && e@ matches ErrorView::Serialization(_)),
            all_hashes_valid(entries.deep_view()) ==> {
                &&& r is Ok
                &&& r.unwrap()@ == import_new(old(self)@.inner.live,
                    old(self)@.inner.pending, entries.deep_view())
                &&& final(self)@.inner.pending == import_pending(
                    old(self)@.inner.live, old(self)@.inner.pending,
                    entries.deep_view())
                &&& final(self)@.inner.live == old(self)@.inner.live
                &&& final(self)@.inner.order == old(self)@.inner.order
                &&& final(self)@.inner.epoch == old(self)@.inner.epoch
                &&& final(self)@.inner.config == old(self)@.inner.config
                &&& (r.unwrap()@.len() == 0
                    ==> final(self)@.inner == old(self)@.inner)
                &&& (r.unwrap()@.len() > 0
                    ==> final(self)@.inner.cached is None)
            },
    {
        self.inner.import_entries(entries)
    }

    /// Build the context text for a task prompt from the wrapped store,
    /// memoizing a snapshot if none is held.
    pub fn build_context_for_task(&mut self, task_description: &str,
        additional_context: &str) -> (r: String)
        requires
            old(self).wf(),
        ensures
            final(self).wf(),
            final(self)@.lance_available == old(self)@.lance_available,
            final(self)@.inner == (HashedView { cached: final(self)@.inner.cached,
                ..old(self)@.inner }),
            final(self)@.inner.cached is Some,
            r@ == final(self)@.inner.cached.unwrap().rendered,
            match old(self)@.inner.cached {
                Option::Some(s) => final(self)@.inner.cached == Option::Some(s),
                Option::None => exists|t: u64| final(self)@.inner.cached
                    == Option::Some(snapshot_spec(old(self)@.inner, t)),
            },
    {
        self.inner.build_context_for_task(task_description, additional_context)
    }

    /// The name of this store flavor; it reports the fallback while no
    /// vector backend is available.
    pub fn flavor_name(&self) -> (r: &'static str)
        ensures
            self@.lance_available ==> r@ == "lance"@,
            !self@.lance_available ==> r@ == "lance (fallback: hashed)"@,
    {
        if self.lance_available {
            "lance"
        } else {
            "lance (fallback: hashed)"
        }
    }
}

} // verus!
