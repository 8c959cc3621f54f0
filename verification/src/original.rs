//! The drop-in store flavor: a deduplicated list of entries with no
//! epochs and no memoized snapshot. It answers the same operations as the
//! content-addressed store, with plain scans.

use vstd::prelude::*;
use vstd::string::StringExecFns;
use crate::clock::now_millis;
use crate::config::{BlackboardConfig, ConfigView, stm_ttl_ms_spec};
use crate::digest::Digest32;
use crate::entry::{BlackboardEntry, EntryView, is_expired_spec};
use crate::hashed::{contains_hash, entry_at, unique_hashes, mark_one, tombstoned_view,
    hashes_of};
use crate::snapshot::{BlackboardSnapshot, CacheThumbprint, SnapshotView, snapshot_wf,
    thumbprint_spec, render_spec, clone_entries};
use crate::store::{BlackboardError, ErrorView, BlackboardResult, BlackboardQuery,
    QueryView, CompactionStats, passes_filters, entry_passes_filters, trim_of, trimmed,
    default_query_view};

verus! {

/// The plain store's scan: every entry is held against every query
/// predicate, in insertion order, stopping at the result limit.
pub open spec fn orig_fold(es: Seq<EntryView>, q: QueryView, stm_ttl_ms: u64,
    now_ms: u64) -> Seq<EntryView>
    decreases es.len(),
{
    if es.len() == 0 {
        Seq::empty()
    } else {
        let prev = orig_fold(es.drop_last(), q, stm_ttl_ms, now_ms);
        if prev.len() >= q.limit {
            prev
        } else if passes_filters(es.last(), q, stm_ttl_ms, now_ms) {
            prev.push(es.last())
        } else {
            prev
        }
    }
}

/// A saturated scan stays as it is under further entries.
proof fn lemma_orig_saturated(es: Seq<EntryView>, q: QueryView, stm_ttl_ms: u64,
    now_ms: u64, i: int)
    requires
        0 <= i <= es.len(),
        orig_fold(es.take(i), q, stm_ttl_ms, now_ms).len() >= q.limit,
    ensures
        orig_fold(es, q, stm_ttl_ms, now_ms) == orig_fold(es.take(i), q, stm_ttl_ms,
            now_ms),
    decreases es.len() - i,
{
    if i < es.len() {
        assert(es.take(i + 1).drop_last() =~= es.take(i));
        lemma_orig_saturated(es, q, stm_ttl_ms, now_ms, i + 1);
    } else {
        assert(es.take(i) =~= es);
    }
}

/// The stored list after posting `es` left to right: novel hashes are
/// appended, duplicates change nothing.
pub open spec fn orig_post_fold(stored: Seq<EntryView>, es: Seq<EntryView>)
    -> Seq<EntryView>
    decreases es.len(),
{
    if es.len() == 0 {
        stored
    } else {
        let prev = orig_post_fold(stored, es.drop_last());
        if contains_hash(prev, es.last().content_hash) {
            prev
        } else {
            prev.push(es.last())
        }
    }
}

/// The line block of the context text: one bullet per entry, joined by
/// line breaks.
pub open spec fn ctx_lines(es: Seq<EntryView>) -> Seq<char>
    decreases es.len(),
{
    if es.len() == 0 {
        Seq::empty()
    } else if es.len() == 1 {
        "- "@ + es[0].content
    } else {
        ctx_lines(es.drop_last()) + "\n- "@ + es.last().content
    }
}

/// The query the context builder runs: the trimmed task text as a
/// case-insensitive content filter, capped at ten results.
pub open spec fn orig_context_query(text: Seq<char>) -> QueryView {
    QueryView { text: Option::Some(text), limit: 10usize, ..default_query_view() }
}

/// The context text for a task: empty when the combined task text trims
/// to nothing or matches nothing; else a header and one bullet per match.
pub open spec fn orig_context_spec(entries: Seq<EntryView>, cfg: ConfigView,
    task: Seq<char>, extra: Seq<char>, now_ms: u64) -> Seq<char>
{
    let combined = trim_of(task + " "@ + extra);
    if combined.len() == 0 {
        Seq::empty()
    } else {
        let results = orig_fold(entries, orig_context_query(combined),
            stm_ttl_ms_spec(cfg), now_ms);
        if results.len() == 0 {
            Seq::empty()
        } else {
            "Blackboard Context:\n"@ + ctx_lines(results)
        }
    }
}

/// The entries that are neither tombstoned nor expired at `now_ms`.
pub open spec fn active_entries(es: Seq<EntryView>, stm_ttl_ms: u64, now_ms: u64)
    -> Seq<EntryView>
{
    es.filter(|e: EntryView| !e.tombstoned && !is_expired_spec(e, stm_ttl_ms, now_ms))
}

/// The entries that survive a compaction sweep at `now_ms`.
pub open spec fn unexpired_entries(es: Seq<EntryView>, stm_ttl_ms: u64, now_ms: u64)
    -> Seq<EntryView>
{
    es.filter(|e: EntryView| !is_expired_spec(e, stm_ttl_ms, now_ms))
}

/// The drop-in store: a deduplicated entry list.
pub struct OriginalBlackboard {
    config: BlackboardConfig,
    entries: Vec<BlackboardEntry>,
}

/// The mathematical image of the plain store.
pub ghost struct OriginalView {
    pub config: ConfigView,
    pub entries: Seq<EntryView>,
}

impl View for OriginalBlackboard {
    type V = OriginalView;

    closed spec fn view(&self) -> OriginalView {
        OriginalView {
            config: self.config@,
            entries: self.entries.deep_view(),
        }
    }
}

impl OriginalBlackboard {
    /// The store's well-formedness: entries carry pairwise distinct hashes.
    pub open spec fn wf(&self) -> bool {
        unique_hashes(self@.entries)
    }

    /// Create an empty store.
    pub fn new(config: BlackboardConfig) -> (r: Self)
        ensures
            r.wf(),
            r@.config == config@,
            r@.entries =~= Seq::<EntryView>::empty(),
    {
        let r = OriginalBlackboard { config, entries: Vec::new() };
        proof {
            assert(r@.entries =~= Seq::<EntryView>::empty());
        }
        r
    }

    /// The store's configuration.
    pub fn config(&self) -> (r: &BlackboardConfig)
        ensures
            r@ == self@.config,
    {
        &self.config
    }

    /// Post an entry; a duplicate hash changes nothing.
    pub fn post(&mut self, entry: BlackboardEntry) -> (r: BlackboardResult<Digest32>)
        requires
            old(self).wf(),
        ensures
            final(self).wf(),
            r is Ok && r.unwrap() == entry@.content_hash,
            final(self)@.config == old(self)@.config,
            contains_hash(old(self)@.entries, entry@.content_hash)
                ==> final(self)@ == old(self)@,
            !contains_hash(old(self)@.entries, entry@.content_hash)
                ==> final(self)@.entries == old(self)@.entries.push(entry@),
    {
        let hash = entry.content_hash;
        match find_index(&self.entries, &hash) {
            Option::Some(_) => Result::Ok(hash),
            Option::None => {
                let ghost pre = self@.entries;
                let ghost ev = entry@;
                self.entries.push(entry);
                proof {
                    assert forall|x: int| 0 <= x < pre.len() + 1
                        implies #[trigger] self@.entries[x] == pre.push(ev)[x] by {
                        if x < pre.len() {
                            assert(self.entries@[x]@ == pre[x]);
                        } else {
                            assert(self.entries@[x]@ == ev);
                        }
                    }
                    assert(self@.entries =~= pre.push(ev));
                    assert forall|i: int, j: int| 0 <= i < j < self@.entries.len()
                        implies self@.entries[i].content_hash
                        != self@.entries[j].content_hash by {
                        if j == pre.len() {
                            assert(contains_hash(pre, pre[i].content_hash));
                        }
                    }
                }
                Result::Ok(hash)
            }
        }
    }

    /// Post a batch of entries in order, collecting their hashes.
    pub fn post_batch(&mut self, entries: Vec<BlackboardEntry>)
        -> (r: BlackboardResult<Vec<Digest32>>)
        requires
            old(self).wf(),
        ensures
            final(self).wf(),
            r is Ok,
            r.unwrap()@ == hashes_of(entries.deep_view()),
            final(self)@.entries == orig_post_fold(old(self)@.entries,
                entries.deep_view()),
            final(self)@.config == old(self)@.config,
    {
        let ghost es = entries.deep_view();
        let mut hashes: Vec<Digest32> = Vec::new();
        let n = entries.len();
        let rest = entries;
        let mut i: usize = 0;
        while i < n
            invariant
                i <= n,
                n == es.len(),
                rest.deep_view() == es,
                self.wf(),
                self@.entries == orig_post_fold(old(self)@.entries,
                    es.take(i as int)),
                self@.config == old(self)@.config,
                hashes@ =~= hashes_of(es.take(i as int)),
            decreases n - i,
        {
            proof {
                assert(es.take(i + 1).drop_last() =~= es.take(i as int));
                assert(es.take(i + 1).last() == es[i as int]);
            }
            let e = rest[i].clone();
            proof {
                assert(e@ == es[i as int]);
            }
            match self.post(e) {
                Result::Ok(h) => {
                    hashes.push(h);
                }
                Result::Err(_) => {
                    proof {
                        assert(false);
                    }
                }
            }
            proof {
                assert(hashes@ =~= hashes_of(es.take(i + 1)));
            }
            i = i + 1;
        }
        proof {
            assert(es.take(n as int) =~= es);
            assert(hashes@ =~= hashes_of(es));
        }
        Result::Ok(hashes)
    }

    /// Fetch an entry by hash; absence is a success value.
    pub fn get(&self, hash: &Digest32) -> (r: BlackboardResult<Option<BlackboardEntry>>)
        requires
            self.wf(),
        ensures
            r is Ok,
            contains_hash(self@.entries, *hash) ==> r.unwrap() is Some
                && r.unwrap().unwrap()@ == entry_at(self@.entries, *hash),
            !contains_hash(self@.entries, *hash) ==> r.unwrap() is None,
    {
        match find_index(&self.entries, hash) {
            Option::Some(i) => {
                let e = self.entries[i].clone();
                proof {
                    crate::hashed::lemma_unique_entry_at(self@.entries, i as int);
                }
                Result::Ok(Option::Some(e))
            }
            Option::None => Result::Ok(Option::None),
        }
    }

    /// Query by scanning the whole list in insertion order.
    pub fn query_at(&self, q: &BlackboardQuery, now_ms: u64)
        -> (r: BlackboardResult<Vec<BlackboardEntry>>)
        ensures
            r is Ok,
            r.unwrap().deep_view() == orig_fold(self@.entries, q@,
                stm_ttl_ms_spec(self@.config), now_ms),
    {
        let ghost es = self@.entries;
        let stm = self.config.stm_ttl_ms();
        let mut results: Vec<BlackboardEntry> = Vec::new();
        let n = self.entries.len();
        let mut i: usize = 0;
        while i < n
            invariant
                i <= n,
                n == es.len(),
                es == self@.entries,
                stm == stm_ttl_ms_spec(self@.config),
                results.deep_view() == orig_fold(es.take(i as int), q@, stm, now_ms),
            decreases n - i,
        {
            proof {
                assert(es.take(i + 1).drop_last() =~= es.take(i as int));
                assert(es.take(i + 1).last() == es[i as int]);
            }
            if results.len() >= q.limit {
                proof {
                    lemma_orig_saturated(es, q@, stm, now_ms, i as int);
                }
                return Result::Ok(results);
            }
            let e = &self.entries[i];
            proof {
                assert(e@ == es[i as int]);
            }
            if entry_passes_filters(e, q, stm, now_ms) {
                let ghost res0 = results.deep_view();
                let c = e.clone();
                results.push(c);
                proof {
                    assert forall|x: int| 0 <= x < res0.len() + 1
                        implies #[trigger] results.deep_view()[x]
                        == res0.push(es[i as int])[x] by {
                        if x < res0.len() {
                            assert(results@[x]@ == res0[x]);
                        } else {
                            assert(results@[x]@ == es[i as int]);
                        }
                    }
                    assert(results.deep_view() =~= res0.push(es[i as int]));
                }
            }
            i = i + 1;
        }
        proof {
            assert(es.take(n as int) =~= es);
        }
        Result::Ok(results)
    }

    /// Query as of the current wall-clock instant.
    pub fn query(&self, q: &BlackboardQuery)
        -> (r: BlackboardResult<Vec<BlackboardEntry>>)
        ensures
            r is Ok,
            exists|t: u64| r.unwrap().deep_view() == orig_fold(self@.entries, q@,
                stm_ttl_ms_spec(self@.config), t),
    {
        let now = now_millis();
        self.query_at(q, now)
    }

    /// Count of stored entries.
    pub fn len(&self) -> (r: usize)
        ensures
            r == self@.entries.len(),
    {
        self.entries.len()
    }

    /// Whether the store holds no entries.
    pub fn is_empty(&self) -> (r: bool)
        ensures
            r == (self@.entries.len() == 0),
    {
        self.entries.len() == 0
    }

    /// Build a fresh snapshot at epoch zero from the entries that are
    /// neither tombstoned nor expired at the given instant. The plain
    /// store never memoizes.
    pub fn snapshot_at(&self, now_ms: u64) -> (r: BlackboardResult<BlackboardSnapshot>)
        ensures
            r is Ok,
            r.unwrap()@.epoch == 0,
            r.unwrap()@.entries == active_entries(self@.entries,
                stm_ttl_ms_spec(self@.config), now_ms),
            snapshot_wf(r.unwrap()@),
    {
        let ghost es = self@.entries;
        let ghost stm_g = stm_ttl_ms_spec(self@.config);
        let stm = self.config.stm_ttl_ms();
        let mut active: Vec<BlackboardEntry> = Vec::new();
        let n = self.entries.len();
        let mut i: usize = 0;
        while i < n
            invariant
                i <= n,
                n == es.len(),
                es == self@.entries,
                stm == stm_g,
                stm_g == stm_ttl_ms_spec(self@.config),
                active.deep_view() =~= es.take(i as int).filter(|e: EntryView|
                    !e.tombstoned && !is_expired_spec(e, stm_g, now_ms)),
            decreases n - i,
        {
            proof {
                reveal(Seq::filter);
                assert(es.take(i + 1).drop_last() =~= es.take(i as int));
                assert(es.take(i + 1).last() == es[i as int]);
            }
            let e = &self.entries[i];
            proof {
                assert(e@ == es[i as int]);
            }
            if !e.tombstoned && !e.is_expired(stm, now_ms) {
                let ghost act0 = active.deep_view();
                let c = e.clone();
                active.push(c);
                proof {
                    assert forall|x: int| 0 <= x < act0.len() + 1
                        implies #[trigger] active.deep_view()[x]
                        == act0.push(es[i as int])[x] by {
                        if x < act0.len() {
                            assert(active@[x]@ == act0[x]);
                        } else {
                            assert(active@[x]@ == es[i as int]);
                        }
                    }
                    assert(active.deep_view() =~= act0.push(es[i as int]));
                }
            }
            i = i + 1;
        }
        proof {
            assert(es.take(n as int) =~= es);
        }
        Result::Ok(BlackboardSnapshot::new(0, active))
    }

    /// Snapshot as of the current wall-clock instant.
    pub fn snapshot(&self) -> (r: BlackboardResult<BlackboardSnapshot>)
        ensures
            r is Ok,
            r.unwrap()@.epoch == 0,
            snapshot_wf(r.unwrap()@),
            exists|t: u64| r.unwrap()@.entries == active_entries(self@.entries,
                stm_ttl_ms_spec(self@.config), t),
    {
        let now = now_millis();
        self.snapshot_at(now)
    }

    /// The thumbprint of the current snapshot; never fails.
    pub fn cache_thumbprint(&self) -> (r: CacheThumbprint)
        ensures
            exists|t: u64| r.digest == thumbprint_spec(active_entries(self@.entries,
                stm_ttl_ms_spec(self@.config), t)),
    {
        match self.snapshot() {
            Result::Ok(s) => s.thumbprint,
            Result::Err(_) => CacheThumbprint::zero(),
        }
    }

    /// Tombstone an entry in place; a missing hash is a not-found error.
    pub fn tombstone(&mut self, hash: &Digest32) -> (r: BlackboardResult<()>)
        requires
            old(self).wf(),
        ensures
            final(self).wf(),
            final(self)@.config == old(self)@.config,
            contains_hash(old(self)@.entries, *hash) ==> r is Ok
                && final(self)@.entries == mark_one(old(self)@.entries, *hash),
            !contains_hash(old(self)@.entries, *hash)
                ==> final(self)@ == old(self)@
                && (r matches Result::Err(e) && e@ == ErrorView::NotFound(
                    "Entry not found"@)),
    {
        let ghost pre = self@.entries;
        match find_index(&self.entries, hash) {
            Option::Some(j) => {
                let e = vstd::std_specs::vec::vec_index_mut(&mut self.entries, j);
                e.tombstoned = true;
                proof {
                    assert(self.entries@[j as int]@ == tombstoned_view(pre[j as int]));
                    assert forall|i: int| 0 <= i < pre.len()
                        implies #[trigger] self@.entries[i]
                        == mark_one(pre, *hash)[i] by {
                        if i != j {
                            assert(self.entries@[i]@ == pre[i]);
                            if i < j {
                                assert(pre[i].content_hash
                                    != pre[j as int].content_hash);
                            } else {
                                assert(pre[j as int].content_hash
                                    != pre[i].content_hash);
                            }
                        }
                    }
                    assert(self@.entries =~= mark_one(pre, *hash));
                }
                Result::Ok(())
            }
            Option::None => {
                Result::Err(BlackboardError::NotFound(String::from_str(
                    "Entry not found")))
            }
        }
    }

    /// Compact: physically drop every tombstoned or expired entry.
    pub fn compact_at(&mut self, now_ms: u64) -> (r: BlackboardResult<CompactionStats>)
        requires
            old(self).wf(),
        ensures
            final(self).wf(),
            final(self)@.config == old(self)@.config,
            final(self)@.entries == unexpired_entries(old(self)@.entries,
                stm_ttl_ms_spec(old(self)@.config), now_ms),
            r is Ok,
            r.unwrap().entries_before == old(self)@.entries.len(),
            r.unwrap().entries_after == final(self)@.entries.len(),
            r.unwrap().tombstoned == old(self)@.entries.filter(|e: EntryView|
                e.tombstoned).len(),
            r.unwrap().pruned == old(self)@.entries.filter(|e: EntryView|
                is_expired_spec(e, stm_ttl_ms_spec(old(self)@.config), now_ms)).len(),
            r.unwrap().superseded_removed == 0,
    {
        let ghost es = self@.entries;
        let ghost stm_g = stm_ttl_ms_spec(self@.config);
        let stm = self.config.stm_ttl_ms();
        let before = self.entries.len();
        let n = self.entries.len();
        let mut kept: Vec<BlackboardEntry> = Vec::new();
        let mut tomb: usize = 0;
        let mut expired: usize = 0;
        let mut i: usize = 0;
        while i < n
            invariant
                i <= n,
                n == es.len(),
                es == self@.entries,
                stm == stm_g,
                stm_g == stm_ttl_ms_spec(self@.config),
                tomb == es.take(i as int).filter(|e: EntryView| e.tombstoned).len(),
                expired == es.take(i as int).filter(|e: EntryView|
                    is_expired_spec(e, stm_g, now_ms)).len(),
                kept.deep_view() =~= es.take(i as int).filter(|e: EntryView|
                    !is_expired_spec(e, stm_g, now_ms)),
            decreases n - i,
        {
            proof {
                reveal(Seq::filter);
                assert(es.take(i + 1).drop_last() =~= es.take(i as int));
                assert(es.take(i + 1).last() == es[i as int]);
                es.take(i + 1).lemma_filter_len(|e: EntryView| e.tombstoned);
                es.take(i + 1).lemma_filter_len(|e: EntryView| is_expired_spec(e,
                    stm_g, now_ms));
            }
            let e = &self.entries[i];
            proof {
                assert(e@ == es[i as int]);
            }
            if e.tombstoned {
                tomb = tomb + 1;
            }
            if e.is_expired(stm, now_ms) {
                expired = expired + 1;
            } else {
                let ghost kept0 = kept.deep_view();
                let c = e.clone();
                kept.push(c);
                proof {
                    assert forall|x: int| 0 <= x < kept0.len() + 1
                        implies #[trigger] kept.deep_view()[x]
                        == kept0.push(es[i as int])[x] by {
                        if x < kept0.len() {
                            assert(kept@[x]@ == kept0[x]);
                        } else {
                            assert(kept@[x]@ == es[i as int]);
                        }
                    }
                    assert(kept.deep_view() =~= kept0.push(es[i as int]));
                }
            }
            i = i + 1;
        }
        proof {
            assert(es.take(n as int) =~= es);
        }
        self.entries = kept;
        let after = self.entries.len();
        proof {
            crate::hashed::lemma_filter_unique_hashes(es, |e: EntryView|
                !is_expired_spec(e, stm_g, now_ms));
        }
        Result::Ok(CompactionStats {
            entries_before: before,
            entries_after: after,
            tombstoned: tomb,
            pruned: expired,
            superseded_removed: 0,
        })
    }

    /// Compact as of the current wall-clock instant.
    pub fn compact(&mut self) -> (r: BlackboardResult<CompactionStats>)
        requires
            old(self).wf(),
        ensures
            final(self).wf(),
            final(self)@.config == old(self)@.config,
            r is Ok,
            exists|t: u64| final(self)@.entries == unexpired_entries(
                old(self)@.entries, stm_ttl_ms_spec(old(self)@.config), t),
    {
        let now = now_millis();
        self.compact_at(now)
    }

    /// Remove every entry.
    pub fn clear(&mut self) -> (r: BlackboardResult<()>)
        ensures
            final(self).wf(),
            r is Ok,
            final(self)@.entries =~= Seq::<EntryView>::empty(),
            final(self)@.config == old(self)@.config,
    {
        self.entries.clear();
        proof {
            assert(self@.entries =~= Seq::<EntryView>::empty());
        }
        Result::Ok(())
    }

    /// Export every stored entry, in insertion order.
    pub fn export_entries(&self, since_epoch: Option<u64>)
        -> (r: BlackboardResult<Vec<BlackboardEntry>>)
        ensures
            r is Ok,
            r.unwrap().deep_view() == self@.entries,
    {
        let _ = since_epoch;
        Result::Ok(clone_entries(&self.entries))
    }

    /// Import entries after validating every stored hash; posting dedups.
    /// One hash is returned per payload entry, whether or not it was new.
    pub fn import_entries(&mut self, entries: Vec<BlackboardEntry>)
        -> (r: BlackboardResult<Vec<Digest32>>)
        requires
            old(self).wf(),
        ensures
            final(self).wf(),
            final(self)@.config == old(self)@.config,
            !crate::hashed::all_hashes_valid(entries.deep_view())
                ==> final(self)@ == old(self)@
                && (r matches Result::Err(e)
                    && e@ matches ErrorView::Serialization(_)),
            crate::hashed::all_hashes_valid(entries.deep_view()) ==> r is Ok
                && r.unwrap()@ == hashes_of(entries.deep_view())
                && final(self)@.entries == orig_post_fold(old(self)@.entries,
                    entries.deep_view()),
    {
        if !crate::hashed::check_hashes(&entries) {
            return Result::Err(BlackboardError::Serialization(String::from_str(
                "entry hash does not match its fields")));
        }
        self.post_batch(entries)
    }

    /// Build the context text for a task at an explicit instant: query
    /// the board for the trimmed task text and render the matches as a
    /// bullet list. Never fails; no match renders as the empty string.
    pub fn build_context_for_task_at(&self, task_description: &str,
        additional_context: &str, now_ms: u64) -> (r: String)
        ensures
            r@ == orig_context_spec(self@.entries, self@.config,
                task_description@, additional_context@, now_ms),
    {
        let ghost combined_spec = trim_of(task_description@ + " "@
            + additional_context@);
        let mut combined = String::new();
        combined.append(task_description);
        combined.append(" ");
        combined.append(additional_context);
        let query_text = trimmed(combined.as_str());
        if query_text.as_str().is_empty() {
            let r = String::new();
            proof {
                assert(r@ =~= Seq::<char>::empty());
            }
            return r;
        }
        let q = BlackboardQuery::new(query_text).with_limit(10);
        proof {
            assert(q@ == orig_context_query(combined_spec));
        }
        let results = match self.query_at(&q, now_ms) {
            Result::Ok(v) => v,
            Result::Err(_) => {
                proof {
                    assert(false);
                }
                Vec::new()
            }
        };
        let ghost dv = results.deep_view();
        if results.len() == 0 {
            let r = String::new();
            proof {
                assert(r@ =~= Seq::<char>::empty());
            }
            return r;
        }
        let mut out = String::new();
        out.append("Blackboard Context:\n");
        let ghost header = out@;
        let n = results.len();
        let mut j: usize = 0;
        while j < n
            invariant
                1 <= n,
                j <= n,
                n == dv.len(),
                dv == results.deep_view(),
                header == "Blackboard Context:\n"@,
                j == 0 ==> out@ == header,
                j >= 1 ==> out@ == header + ctx_lines(dv.take(j as int)),
            decreases n - j,
        {
            proof {
                assert(dv.take(j + 1).drop_last() =~= dv.take(j as int));
                assert(dv.take(j + 1).last() == dv[j as int]);
                assert(results@[j as int]@ == dv[j as int]);
            }
            if j == 0 {
                out.append("- ");
            } else {
                out.append("\n- ");
            }
            out.append(results[j].content.as_str());
            proof {
                if j == 0 {
                    assert(ctx_lines(dv.take(1)) =~= "- "@ + dv[0].content);
                    assert(out@ =~= header + ctx_lines(dv.take(1)));
                } else {
                    assert(ctx_lines(dv.take(j + 1)) =~= ctx_lines(dv.take(j as int))
                        + "\n- "@ + dv[j as int].content);
                    assert(out@ =~= header + ctx_lines(dv.take(j + 1)));
                }
            }
            j = j + 1;
        }
        proof {
            assert(dv.take(n as int) =~= dv);
            assert(out@ =~= header + ctx_lines(dv));
        }
        out
    }

    /// Build the context text for a task as of the current wall-clock
    /// instant.
    pub fn build_context_for_task(&self, task_description: &str,
        additional_context: &str) -> (r: String)
        ensures
            exists|t: u64| r@ == orig_context_spec(self@.entries, self@.config,
                task_description@, additional_context@, t),
    {
        let now = now_millis();
        self.build_context_for_task_at(task_description, additional_context, now)
    }

    /// The name of this store flavor.
    pub fn flavor_name(&self) -> (r: &'static str)
        ensures
            r@ == "original"@,
    {
        "original"
    }
}

/// Find the position of an entry with the given hash.
fn find_index(v: &Vec<BlackboardEntry>, h: &Digest32) -> (r: Option<usize>)
    ensures
        match r {
            Option::Some(i) => i < v@.len()
                && v.deep_view()[i as int].content_hash == h
                && contains_hash(v.deep_view(), *h),
            Option::None => !contains_hash(v.deep_view(), *h),
        },
{
    let n = v.len();
    for i in 0..n
        invariant
            n == v@.len(),
            forall|j: int| 0 <= j < i ==> v.deep_view()[j].content_hash != h,
    {
        if v[i].content_hash == *h {
            proof {
                assert(v.deep_view()[i as int].content_hash == h);
            }
            return Option::Some(i);
        }
        proof {
            assert(v.deep_view()[i as int] == v@[i as int]@);
        }
    }
    Option::None
}

} // verus!
