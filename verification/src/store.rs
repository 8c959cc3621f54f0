//! Store support types: errors, query predicates, compaction statistics,
//! and the spec of query matching shared by the store flavors.

use vstd::prelude::*;
use vstd::string::{StringExecFns, StrSliceExecFns};
use vstd::utf8::encode_utf8;
use crate::digest::Digest32;
use crate::entry::{EntryType, EntryView, is_expired_spec};

verus! {

// ─── Errors ─────────────────────────────────────────────────────────────

/// Errors surfaced by blackboard operations.
#[derive(Debug)]
pub enum BlackboardError {
    /// An operation referenced a hash that is not in the store.
    NotFound(String),
    /// An authorization hook refused the write.
    PolicyDenied(String),
    /// Underlying persistence or lock failure.
    Storage(String),
    /// An import or export payload was malformed.
    Serialization(String),
    /// The optional vector backend reported a failure.
    Lance(String),
    /// A board-to-board transfer failed.
    SyncFailed(String),
}

/// The mathematical image of an error.
pub ghost enum ErrorView {
    NotFound(Seq<char>),
    PolicyDenied(Seq<char>),
    Storage(Seq<char>),
    Serialization(Seq<char>),
    Lance(Seq<char>),
    SyncFailed(Seq<char>),
}

impl View for BlackboardError {
    type V = ErrorView;

    open spec fn view(&self) -> ErrorView {
        match self {
            BlackboardError::NotFound(s) => ErrorView::NotFound(s@),
            BlackboardError::PolicyDenied(s) => ErrorView::PolicyDenied(s@),
            BlackboardError::Storage(s) => ErrorView::Storage(s@),
            BlackboardError::Serialization(s) => ErrorView::Serialization(s@),
            BlackboardError::Lance(s) => ErrorView::Lance(s@),
            BlackboardError::SyncFailed(s) => ErrorView::SyncFailed(s@),
        }
    }
}

impl BlackboardError {
    /// A human-readable description of the error.
    pub fn message(&self) -> (r: String)
        ensures
            r@ == match self@ {
                ErrorView::NotFound(s) => "Entry not found: "@ + s,
                ErrorView::PolicyDenied(s) => "Policy denied: "@ + s,
                ErrorView::Storage(s) => "Storage error: "@ + s,
                ErrorView::Serialization(s) => "Serialization error: "@ + s,
                ErrorView::Lance(s) => "Lance error: "@ + s,
                ErrorView::SyncFailed(s) => "Sync error: "@ + s,
            },
    {
        match self {
            BlackboardError::NotFound(s) => String::from_str("Entry not found: ").concat(
                s.as_str()),
            BlackboardError::PolicyDenied(s) => String::from_str("Policy denied: ")
                .concat(s.as_str()),
            BlackboardError::Storage(s) => String::from_str("Storage error: ").concat(
                s.as_str()),
            BlackboardError::Serialization(s) => String::from_str("Serialization error: ")
                .concat(s.as_str()),
            BlackboardError::Lance(s) => String::from_str("Lance error: ").concat(
                s.as_str()),
            BlackboardError::SyncFailed(s) => String::from_str("Sync error: ").concat(
                s.as_str()),
        }
    }
}

/// Result type for blackboard operations.
pub type BlackboardResult<T> = Result<T, BlackboardError>;

// ─── Query ──────────────────────────────────────────────────────────────

/// Query parameters for searching the blackboard.
#[derive(Debug)]
pub struct BlackboardQuery {
    /// Case-insensitive substring to look for in entry content.
    pub text: Option<String>,
    /// Restrict to these entry kinds.
    pub entry_types: Option<Vec<EntryType>>,
    /// Restrict to these author fingerprints.
    pub authors: Option<Vec<String>>,
    /// Restrict to direct children of this entry.
    pub parent_hash: Option<Digest32>,
    /// Include tombstoned entries?
    pub include_tombstoned: bool,
    /// Maximum number of results.
    pub limit: usize,
    /// Minimum confidence, in hundredths.
    pub min_confidence: u32,
    /// Only entries from this epoch or later. Advisory: entries do not carry
    /// their commit epoch, so the in-memory stores accept and ignore it.
    pub min_epoch: Option<u64>,
}

/// The mathematical image of a query.
pub ghost struct QueryView {
    pub text: Option<Seq<char>>,
    pub entry_types: Option<Seq<EntryType>>,
    pub authors: Option<Seq<Seq<char>>>,
    pub parent_hash: Option<Digest32>,
    pub include_tombstoned: bool,
    pub limit: usize,
    pub min_confidence: u32,
    pub min_epoch: Option<u64>,
}

impl View for BlackboardQuery {
    type V = QueryView;

    open spec fn view(&self) -> QueryView {
        QueryView {
            text: self.text.deep_view(),
            entry_types: match self.entry_types {
                Option::Some(ref v) => Option::Some(v@),
                Option::None => Option::None,
            },
            authors: self.authors.deep_view(),
            parent_hash: self.parent_hash,
            include_tombstoned: self.include_tombstoned,
            limit: self.limit,
            min_confidence: self.min_confidence,
            min_epoch: self.min_epoch,
        }
    }
}

/// The query with no predicates and a zero result limit.
pub open spec fn default_query_view() -> QueryView {
    QueryView {
        text: Option::None,
        entry_types: Option::None,
        authors: Option::None,
        parent_hash: Option::None,
        include_tombstoned: false,
        limit: 0usize,
        min_confidence: 0u32,
        min_epoch: Option::None,
    }
}

impl Default for BlackboardQuery {
    fn default() -> (r: Self)
        ensures
            r@ == default_query_view(),
    {
        BlackboardQuery {
            text: Option::None,
            entry_types: Option::None,
            authors: Option::None,
            parent_hash: Option::None,
            include_tombstoned: false,
            limit: 0,
            min_confidence: 0,
            min_epoch: Option::None,
        }
    }
}

impl BlackboardQuery {
    /// A content-substring query with a result limit of ten.
    pub fn new(text: String) -> (r: Self)
        ensures
            r@ == (QueryView {
                text: Option::Some(text@),
                limit: 10usize,
                ..default_query_view()
            }),
    {
        BlackboardQuery {
            text: Option::Some(text),
            limit: 10,
            ..Default::default()
        }
    }

    /// A query for one entry kind, with a result limit of fifty.
    pub fn by_type(entry_type: EntryType) -> (r: Self)
        ensures
            r@ == (QueryView {
                entry_types: Option::Some(seq![entry_type]),
                limit: 50usize,
                ..default_query_view()
            }),
    {
        let mut kinds: Vec<EntryType> = Vec::new();
        kinds.push(entry_type);
        let r = BlackboardQuery {
            entry_types: Option::Some(kinds),
            limit: 50,
            ..Default::default()
        };
        proof {
            assert(r@.entry_types.unwrap() =~= seq![entry_type]);
        }
        r
    }

    /// A query for one author, with a result limit of fifty.
    pub fn by_author(author: String) -> (r: Self)
        ensures
            r@ == (QueryView {
                authors: Option::Some(seq![author@]),
                limit: 50usize,
                ..default_query_view()
            }),
    {
        let mut authors: Vec<String> = Vec::new();
        authors.push(author);
        let r = BlackboardQuery {
            authors: Option::Some(authors),
            limit: 50,
            ..Default::default()
        };
        proof {
            assert(r@.authors.unwrap() =~= seq![r.authors.unwrap()@[0]@]);
        }
        r
    }

    /// A query for the direct children of an entry, limit fifty.
    pub fn children_of(parent: Digest32) -> (r: Self)
        ensures
            r@ == (QueryView {
                parent_hash: Option::Some(parent),
                limit: 50usize,
                ..default_query_view()
            }),
    {
        BlackboardQuery {
            parent_hash: Option::Some(parent),
            limit: 50,
            ..Default::default()
        }
    }

    /// Set the result limit.
    pub fn with_limit(self, limit: usize) -> (r: Self)
        ensures
            r@ == (QueryView { limit, ..self@ }),
    {
        Self { limit, ..self }
    }

    /// Set the minimum confidence, in hundredths.
    pub fn with_min_confidence(self, c: u32) -> (r: Self)
        ensures
            r@ == (QueryView { min_confidence: c, ..self@ }),
    {
        Self { min_confidence: c, ..self }
    }
}

// ─── Compaction statistics ──────────────────────────────────────────────

/// Statistics returned by compaction.
#[derive(Clone, Copy, PartialEq, Eq, Structural, Debug)]
pub struct CompactionStats {
    /// Live entries before compaction.
    pub entries_before: usize,
    /// Live entries after compaction.
    pub entries_after: usize,
    /// Tombstoned entries counted during the sweep.
    pub tombstoned: usize,
    /// Expired entries counted, plus entries evicted for capacity.
    pub pruned: usize,
    /// Tombstoned entries removed because a live successor supersedes them.
    pub superseded_removed: usize,
}

impl Default for CompactionStats {
    fn default() -> (r: Self)
        ensures
            r == (CompactionStats {
                entries_before: 0usize,
                entries_after: 0usize,
                tombstoned: 0usize,
                pruned: 0usize,
                superseded_removed: 0usize,
            }),
    {
        CompactionStats {
            entries_before: 0,
            entries_after: 0,
            tombstoned: 0,
            pruned: 0,
            superseded_removed: 0,
        }
    }
}

/// Direction of a board-to-board synchronisation.
#[derive(Clone, Copy, PartialEq, Eq, Structural, Debug)]
pub enum SyncDirection {
    /// Send local entries to the remote side.
    Push,
    /// Receive remote entries.
    Pull,
    /// Bidirectional merge.
    Both,
}

// ─── Text matching ──────────────────────────────────────────────────────

/// What `str::to_lowercase` returns: Unicode lowercasing, a pure function
/// of the character sequence alone.
pub uninterp spec fn lower_of(s: Seq<char>) -> Seq<char>;

/// Relies on str::to_lowercase: the result depends on the characters alone.
#[verifier::external_body]
fn lowercase(s: &str) -> (r: String)
    ensures
        r@ == lower_of(s@),
{
    s.to_lowercase()
}

/// What `str::trim` returns: the text with leading and trailing
/// whitespace removed, a pure function of the character sequence alone.
pub uninterp spec fn trim_of(s: Seq<char>) -> Seq<char>;

/// Relies on str::trim: the result depends on the characters alone.
#[verifier::external_body]
pub(crate) fn trimmed(s: &str) -> (r: String)
    ensures
        r@ == trim_of(s@),
{
    s.trim().to_string()
}

/// Whether `needle` occurs as a contiguous run inside `hay`.
pub open spec fn contains_seq(hay: Seq<u8>, needle: Seq<u8>) -> bool {
    exists|k: int| 0 <= k <= hay.len() - needle.len()
        && #[trigger] hay.subrange(k, k + needle.len()) =~= needle
}

/// Check whether `needle` occurs inside `hay`.
pub fn contains_bytes(hay: &Vec<u8>, needle: &Vec<u8>) -> (r: bool)
    ensures
        r == contains_seq(hay@, needle@),
{
    let m = needle.len();
    let n = hay.len();
    if m > n {
        proof {
            assert(!contains_seq(hay@, needle@));
        }
        return false;
    }
    let mut k: usize = 0;
    while k <= n - m
        invariant
            m <= n,
            m == needle@.len(),
            n == hay@.len(),
            k <= n - m + 1,
            forall|k0: int| 0 <= k0 < k ==> #[trigger] hay@.subrange(k0,
                k0 + m as int) !~= needle@,
        decreases n - m + 1 - k,
    {
        let mut j: usize = 0;
        let mut all_match: bool = true;
        while j < m
            invariant
                m <= n,
                m == needle@.len(),
                n == hay@.len(),
                k <= n - m,
                j <= m,
                all_match == (forall|j0: int| 0 <= j0 < j ==> hay@[k + j0]
                    == needle@[j0]),
            decreases m - j,
        {
            if hay[k + j] != needle[j] {
                all_match = false;
                proof {
                    assert(hay@[k + j as int] != needle@[j as int]);
                }
                j = m;
            } else {
                j = j + 1;
            }
        }
        if all_match {
            proof {
                assert(hay@.subrange(k as int, k as int + m as int) =~= needle@);
            }
            return true;
        }
        proof {
            assert(exists|j0: int| 0 <= j0 < m && hay@[k + j0] != needle@[j0]);
            let j0 = choose|j0: int| 0 <= j0 < m && hay@[k + j0] != needle@[j0];
            assert(hay@.subrange(k as int, k as int + m as int)[j0]
                == hay@[k + j0]);
            assert(hay@.subrange(k as int, k as int + m as int) !~= needle@);
        }
        k = k + 1;
    }
    proof {
        assert forall|k0: int| 0 <= k0 <= n - m
            implies #[trigger] hay@.subrange(k0, k0 + m as int) !~= needle@ by {}
        assert(!contains_seq(hay@, needle@));
    }
    false
}

/// Whether the lowercased text of `needle` occurs in the lowercased text of
/// `content`, compared over their UTF-8 bytes.
pub open spec fn text_match_spec(content: Seq<char>, needle: Seq<char>) -> bool {
    contains_seq(encode_utf8(lower_of(content)), encode_utf8(lower_of(needle)))
}

/// Case-insensitive substring test, as queries apply it to entry content.
pub fn content_matches(content: &str, needle: &str) -> (r: bool)
    ensures
        r == text_match_spec(content@, needle@),
{
    let lc = lowercase(content);
    let ln = lowercase(needle);
    let hay = lc.as_str().as_bytes_vec();
    let nee = ln.as_str().as_bytes_vec();
    contains_bytes(&hay, &nee)
}

/// Whether an entry passes every predicate of a query, conjunctively:
/// the lifecycle and confidence filters, the text filter, and the kind,
/// author and parent restrictions. Index selection only narrows the
/// candidates; every candidate is still held against all predicates.
pub open spec fn passes_filters(e: EntryView, q: QueryView, stm_ttl_ms: u64,
    now_ms: u64) -> bool
{
    &&& (q.include_tombstoned || !e.tombstoned)
    &&& (q.include_tombstoned || !is_expired_spec(e, stm_ttl_ms, now_ms))
    &&& e.confidence >= q.min_confidence
    &&& match q.text {
        Option::Some(t) => text_match_spec(e.content, t),
        Option::None => true,
    }
    &&& match q.entry_types {
        Option::Some(ts) => ts.contains(e.entry_type),
        Option::None => true,
    }
    &&& match q.authors {
        Option::Some(authors) => authors.contains(e.author),
        Option::None => true,
    }
    &&& match q.parent_hash {
        Option::Some(p) => e.parent_hash == Option::Some(p),
        Option::None => true,
    }
}

/// Apply every predicate of a query to an entry.
pub fn entry_passes_filters(e: &crate::entry::BlackboardEntry, q: &BlackboardQuery,
    stm_ttl_ms: u64, now_ms: u64) -> (r: bool)
    ensures
        r == passes_filters(e@, q@, stm_ttl_ms, now_ms),
{
    if !q.include_tombstoned && e.tombstoned {
        return false;
    }
    if !q.include_tombstoned && e.is_expired(stm_ttl_ms, now_ms) {
        return false;
    }
    if e.confidence < q.min_confidence {
        return false;
    }
    match &q.text {
        Option::Some(t) => {
            if !content_matches(e.content.as_str(), t.as_str()) {
                return false;
            }
        }
        Option::None => {}
    }
    match &q.entry_types {
        Option::Some(ts) => {
            let mut found = false;
            let n = ts.len();
            let mut i: usize = 0;
            while i < n
                invariant
                    i <= n,
                    n == ts@.len(),
                    found == (exists|j: int| 0 <= j < i && ts@[j] == e.entry_type),
                decreases n - i,
            {
                if ts[i] == e.entry_type {
                    found = true;
                }
                i = i + 1;
            }
            if !found {
                proof {
                    assert(!q@.entry_types.unwrap().contains(e@.entry_type));
                }
                return false;
            }
            proof {
                assert(q@.entry_types.unwrap().contains(e@.entry_type));
            }
        }
        Option::None => {}
    }
    match &q.authors {
        Option::Some(authors) => {
            let mut found = false;
            let n = authors.len();
            let mut i: usize = 0;
            while i < n
                invariant
                    i <= n,
                    n == authors@.len(),
                    found == (exists|j: int| 0 <= j < i
                        && authors.deep_view()[j] == e@.author),
                decreases n - i,
            {
                proof {
                    assert(authors.deep_view()[i as int] == authors@[i as int]@);
                }
                if crate::entry::string_eq(&authors[i], &e.author) {
                    found = true;
                }
                i = i + 1;
            }
            if !found {
                proof {
                    assert(!q@.authors.unwrap().contains(e@.author));
                }
                return false;
            }
            proof {
                assert(q@.authors.unwrap().contains(e@.author));
            }
        }
        Option::None => {}
    }
    match &q.parent_hash {
        Option::Some(p) => {
            match &e.parent_hash {
                Option::Some(ep) => *ep == *p,
                Option::None => false,
            }
        }
        Option::None => true,
    }
}

} // verus!
