//! Blackboard entry — the atomic, immutable unit of shared agent state.
//!
//! An entry is content-addressed: its identity is a digest over
//! (author, content, parent). All fields but the tombstone flag are fixed
//! at construction. Contracts speak of entries through [`EntryView`], the
//! mathematical image of an entry.

use vstd::prelude::*;
use vstd::string::StrSliceExecFns;
use vstd::utf8::encode_utf8;
use crate::digest::{Digest32, digest_spec, digest_bytes_spec, digest_bytes, word_bytes,
    push_word_bytes};
use crate::text::{hex_of, hex_encode};
use crate::clock::now_millis;

verus! {

/// What kind of assertion an entry represents.
#[derive(Clone, Copy, PartialEq, Eq, Structural, Debug)]
pub enum EntryType {
    /// Verified or sourced information.
    Fact,
    /// Proposed interpretation, not yet confirmed.
    Hypothesis,
    /// Committed decision.
    Decision,
    /// Explicit rejection of another entry.
    Veto,
    /// Incomplete work product, awaiting continuation.
    Partial,
    /// Request for information from other agents.
    Query,
    /// Observation from tool execution.
    Observation,
    /// An agent's reasoning trace.
    Reasoning,
}

/// Tier determines TTL behavior and storage priority.
#[derive(Clone, Copy, PartialEq, Eq, Structural, Debug)]
pub enum EntryTier {
    /// Short-lived; expires per the configured default TTL.
    Stm,
    /// Session-scoped; never expires by default.
    Session,
    /// Persistent; never expires by default.
    Ltm,
}

impl Default for EntryTier {
    fn default() -> (r: Self)
        ensures
            r == EntryTier::Session,
    {
        EntryTier::Session
    }
}

/// A tagged scalar value carried in entry metadata.
#[derive(Debug)]
pub enum MetaValue {
    Null,
    Bool(bool),
    Int(i64),
    Text(String),
}

/// The mathematical image of a [`MetaValue`].
pub ghost enum MetaValueView {
    Null,
    Bool(bool),
    Int(i64),
    Text(Seq<char>),
}

impl View for MetaValue {
    type V = MetaValueView;

    open spec fn view(&self) -> MetaValueView {
        match self {
            MetaValue::Null => MetaValueView::Null,
            MetaValue::Bool(b) => MetaValueView::Bool(*b),
            MetaValue::Int(i) => MetaValueView::Int(*i),
            MetaValue::Text(s) => MetaValueView::Text(s@),
        }
    }
}

impl DeepView for MetaValue {
    type V = MetaValueView;

    open spec fn deep_view(&self) -> MetaValueView {
        self.view()
    }
}

impl Clone for MetaValue {
    fn clone(&self) -> (r: Self)
        ensures
            r == self,
    {
        match self {
            MetaValue::Null => MetaValue::Null,
            MetaValue::Bool(b) => MetaValue::Bool(*b),
            MetaValue::Int(i) => MetaValue::Int(*i),
            MetaValue::Text(s) => MetaValue::Text(s.clone()),
        }
    }
}

/// A single blackboard entry.
#[derive(Debug)]
pub struct BlackboardEntry {
    /// Content digest over (author, content, parent). This is the primary
    /// key; it is computed on construction and never changes.
    pub content_hash: Digest32,
    /// Who wrote this entry (an opaque fingerprint string).
    pub author: String,
    /// What kind of assertion.
    pub entry_type: EntryType,
    /// Storage tier, which determines the default TTL.
    pub tier: EntryTier,
    /// The textual payload injected into prompts.
    pub content: String,
    /// Structured metadata; later values for a key replace earlier ones.
    pub metadata: Vec<(String, MetaValue)>,
    /// Digest of the entry this refines or responds to; absent for roots.
    pub parent_hash: Option<Digest32>,
    /// Entries this one explicitly replaces.
    pub supersedes: Vec<Digest32>,
    /// Entries that support this conclusion.
    pub evidence: Vec<Digest32>,
    /// Digest of the prompt prefix this entry was generated within.
    pub prompt_prefix_hash: Option<Digest32>,
    /// Opaque record of the authorization decision for this write.
    pub policy_audit: Option<String>,
    /// Self-assessed confidence in hundredths, clamped to 0..=100.
    pub confidence: u32,
    /// Creation time, milliseconds since the Unix epoch.
    pub created_at: u64,
    /// Explicit TTL override in milliseconds; absent means tier default.
    pub ttl: Option<u64>,
    /// Whether this entry has been logically deleted. The only mutable field.
    pub tombstoned: bool,
}

/// The mathematical image of a [`BlackboardEntry`].
pub ghost struct EntryView {
    pub content_hash: Digest32,
    pub author: Seq<char>,
    pub entry_type: EntryType,
    pub tier: EntryTier,
    pub content: Seq<char>,
    pub metadata: Seq<(Seq<char>, MetaValueView)>,
    pub parent_hash: Option<Digest32>,
    pub supersedes: Seq<Digest32>,
    pub evidence: Seq<Digest32>,
    pub prompt_prefix_hash: Option<Digest32>,
    pub policy_audit: Option<Seq<char>>,
    pub confidence: u32,
    pub created_at: u64,
    pub ttl: Option<u64>,
    pub tombstoned: bool,
}

impl View for BlackboardEntry {
    type V = EntryView;

    open spec fn view(&self) -> EntryView {
        EntryView {
            content_hash: self.content_hash,
            author: self.author@,
            entry_type: self.entry_type,
            tier: self.tier,
            content: self.content@,
            metadata: self.metadata.deep_view(),
            parent_hash: self.parent_hash,
            supersedes: self.supersedes@,
            evidence: self.evidence@,
            prompt_prefix_hash: self.prompt_prefix_hash,
            policy_audit: self.policy_audit.deep_view(),
            confidence: self.confidence,
            created_at: self.created_at,
            ttl: self.ttl,
            tombstoned: self.tombstoned,
        }
    }
}

impl DeepView for BlackboardEntry {
    type V = EntryView;

    open spec fn deep_view(&self) -> EntryView {
        self.view()
    }
}

/// Copy a vector of digests.
pub fn clone_digests(v: &Vec<Digest32>) -> (r: Vec<Digest32>)
    ensures
        r@ == v@,
{
    let mut out: Vec<Digest32> = Vec::new();
    let n = v.len();
    for i in 0..n
        invariant
            n == v@.len(),
            out@ == v@.take(i as int),
    {
        out.push(v[i]);
        proof {
            assert(out@ =~= v@.take(i + 1));
        }
    }
    proof {
        assert(v@.take(n as int) =~= v@);
    }
    out
}

/// Copy a metadata list, pair by pair.
fn clone_metadata(v: &Vec<(String, MetaValue)>) -> (r: Vec<(String, MetaValue)>)
    ensures
        r.deep_view() == v.deep_view(),
{
    let mut out: Vec<(String, MetaValue)> = Vec::new();
    let n = v.len();
    for i in 0..n
        invariant
            n == v@.len(),
            out.deep_view() =~~= v.deep_view().take(i as int),
    {
        let pair = &v[i];
        let key = pair.0.clone();
        let val = pair.1.clone();
        proof {
            assert(key@ == v@[i as int].0@);
            assert(val@ == v@[i as int].1@);
        }
        out.push((key, val));
        proof {
            assert(out@.last().deep_view() == v@[i as int].deep_view());
            assert(out.deep_view() =~~= v.deep_view().take(i + 1));
        }
    }
    proof {
        assert(v.deep_view().take(n as int) =~~= v.deep_view());
    }
    out
}

impl Clone for BlackboardEntry {
    fn clone(&self) -> (r: Self)
        ensures
            r@ == self@,
    {
        let r = BlackboardEntry {
            content_hash: self.content_hash,
            author: self.author.clone(),
            entry_type: self.entry_type,
            tier: self.tier,
            content: self.content.clone(),
            metadata: clone_metadata(&self.metadata),
            parent_hash: self.parent_hash,
            supersedes: clone_digests(&self.supersedes),
            evidence: clone_digests(&self.evidence),
            prompt_prefix_hash: self.prompt_prefix_hash,
            policy_audit: match &self.policy_audit {
                Option::Some(s) => Option::Some(s.clone()),
                Option::None => Option::None,
            },
            confidence: self.confidence,
            created_at: self.created_at,
            ttl: self.ttl,
            tombstoned: self.tombstoned,
        };
        r
    }
}

/// The byte sequence fed to the digest for an entry's identity:
/// each string is length-prefixed, and an absent parent is kept distinct
/// from any present one by a tag byte.
pub open spec fn hash_input_spec(author: Seq<char>, content: Seq<char>,
    parent: Option<Digest32>) -> Seq<u8>
{
    word_bytes(encode_utf8(author).len() as u64) + encode_utf8(author)
        + word_bytes(encode_utf8(content).len() as u64) + encode_utf8(content)
        + match parent {
            Option::None => seq![0u8],
            Option::Some(p) => seq![1u8] + digest_bytes_spec(p),
        }
}

/// The identity digest of an entry with the given author, content and parent.
pub open spec fn entry_hash_spec(author: Seq<char>, content: Seq<char>,
    parent: Option<Digest32>) -> Digest32
{
    digest_spec(hash_input_spec(author, content, parent))
}

/// Compute the identity digest over (author, content, parent).
pub fn compute_entry_hash(author: &str, content: &str, parent: &Option<Digest32>)
    -> (r: Digest32)
    ensures
        r == entry_hash_spec(author@, content@, *parent),
{
    let mut input: Vec<u8> = Vec::new();
    let mut author_bytes = author.as_bytes_vec();
    let mut content_bytes = content.as_bytes_vec();
    push_word_bytes(&mut input, author_bytes.len() as u64);
    input.append(&mut author_bytes);
    push_word_bytes(&mut input, content_bytes.len() as u64);
    input.append(&mut content_bytes);
    match parent {
        Option::None => {
            input.push(0u8);
        }
        Option::Some(p) => {
            input.push(1u8);
            let mut pb = p.to_bytes();
            input.append(&mut pb);
        }
    }
    proof {
        assert(input@ =~= hash_input_spec(author@, content@, *parent));
    }
    digest_bytes(input.as_slice())
}

/// The TTL that effectively applies to an entry: an explicit override wins;
/// otherwise the short-term tier uses the configured default (zero meaning
/// no expiry), and the other tiers never expire. `None` means no expiry.
pub open spec fn effective_ttl_spec(tier: EntryTier, ttl: Option<u64>,
    default_stm_ttl_ms: u64) -> Option<u64>
{
    match ttl {
        Option::Some(t) => Option::Some(t),
        Option::None => match tier {
            EntryTier::Stm => if default_stm_ttl_ms == 0 {
                Option::None
            } else {
                Option::Some(default_stm_ttl_ms)
            },
            EntryTier::Session => Option::None,
            EntryTier::Ltm => Option::None,
        },
    }
}

/// Whether an entry counts as expired at the given instant: tombstoned, or
/// past its effective TTL.
pub open spec fn is_expired_spec(e: EntryView, default_stm_ttl_ms: u64,
    now_ms: u64) -> bool
{
    e.tombstoned || match effective_ttl_spec(e.tier, e.ttl, default_stm_ttl_ms) {
        Option::Some(t) => now_ms > e.created_at + t,
        Option::None => false,
    }
}

/// All pairs of `m` except those under the given key.
pub open spec fn without_key(m: Seq<(Seq<char>, MetaValueView)>, key: Seq<char>)
    -> Seq<(Seq<char>, MetaValueView)>
{
    m.filter(|p: (Seq<char>, MetaValueView)| p.0 != key)
}

impl BlackboardEntry {
    /// Create a new entry at an explicit creation time.
    pub fn new_at(author: String, entry_type: EntryType, content: String,
        parent_hash: Option<Digest32>, created_at_ms: u64) -> (r: Self)
        ensures
            r@ == (EntryView {
                content_hash: entry_hash_spec(author@, content@, parent_hash),
                author: author@,
                entry_type,
                tier: EntryTier::Session,
                content: content@,
                metadata: Seq::empty(),
                parent_hash,
                supersedes: Seq::empty(),
                evidence: Seq::empty(),
                prompt_prefix_hash: Option::None,
                policy_audit: Option::None,
                confidence: 100u32,
                created_at: created_at_ms,
                ttl: Option::None,
                tombstoned: false,
            }),
    {
        let content_hash = compute_entry_hash(author.as_str(), content.as_str(),
            &parent_hash);
        let r = BlackboardEntry {
            content_hash,
            author,
            entry_type,
            tier: EntryTier::Session,
            content,
            metadata: Vec::new(),
            parent_hash,
            supersedes: Vec::new(),
            evidence: Vec::new(),
            prompt_prefix_hash: Option::None,
            policy_audit: Option::None,
            confidence: 100,
            created_at: created_at_ms,
            ttl: Option::None,
            tombstoned: false,
        };
        proof {
            assert(r@.metadata =~= Seq::<(Seq<char>, MetaValueView)>::empty());
        }
        r
    }

    /// Create a new entry, stamped with the current wall-clock time.
    pub fn new(author: String, entry_type: EntryType, content: String,
        parent_hash: Option<Digest32>) -> (r: Self)
        ensures
            r@ == (EntryView { created_at: r@.created_at, ..(EntryView {
                content_hash: entry_hash_spec(author@, content@, parent_hash),
                author: author@,
                entry_type,
                tier: EntryTier::Session,
                content: content@,
                metadata: Seq::empty(),
                parent_hash,
                supersedes: Seq::empty(),
                evidence: Seq::empty(),
                prompt_prefix_hash: Option::None,
                policy_audit: Option::None,
                confidence: 100u32,
                created_at: 0u64,
                ttl: Option::None,
                tombstoned: false,
            }) }),
    {
        let now = now_millis();
        Self::new_at(author, entry_type, content, parent_hash, now)
    }

    /// Set the storage tier.
    pub fn with_tier(self, tier: EntryTier) -> (r: Self)
        ensures
            r@ == (EntryView { tier, ..self@ }),
    {
        Self { tier, ..self }
    }

    /// Set the confidence, in hundredths, clamped to 0..=100.
    pub fn with_confidence(self, c: u32) -> (r: Self)
        ensures
            r@ == (EntryView {
                confidence: if c > 100 { 100u32 } else { c },
                ..self@
            }),
    {
        let clamped = if c > 100 { 100 } else { c };
        Self { confidence: clamped, ..self }
    }

    /// Set the evidence chain.
    pub fn with_evidence(self, evidence: Vec<Digest32>) -> (r: Self)
        ensures
            r@ == (EntryView { evidence: evidence@, ..self@ }),
    {
        Self { evidence, ..self }
    }

    /// Set the supersession chain.
    pub fn with_supersedes(self, supersedes: Vec<Digest32>) -> (r: Self)
        ensures
            r@ == (EntryView { supersedes: supersedes@, ..self@ }),
    {
        Self { supersedes, ..self }
    }

    /// Add a metadata pair; an existing pair under the same key is replaced.
    pub fn with_metadata(self, key: String, value: MetaValue) -> (r: Self)
        ensures
            r@ == (EntryView {
                metadata: without_key(self@.metadata, key@).push((key@, value@)),
                ..self@
            }),
    {
        let mut kept: Vec<(String, MetaValue)> = Vec::new();
        let n = self.metadata.len();
        let mut i: usize = 0;
        while i < n
            invariant
                i <= n,
                n == self.metadata@.len(),
                kept.deep_view() =~= without_key(self.metadata.deep_view().take(i as int),
                    key@),
            decreases n - i,
        {
            proof {
                reveal(Seq::filter);
                assert(self.metadata.deep_view().take(i + 1).drop_last()
                    =~= self.metadata.deep_view().take(i as int));
                assert(self.metadata.deep_view().take(i + 1).last()
                    == self.metadata@[i as int].deep_view());
            }
            let pair = &self.metadata[i];
            if !string_eq(&pair.0, &key) {
                kept.push((pair.0.clone(), pair.1.clone()));
            }
            i = i + 1;
        }
        proof {
            assert(self.metadata.deep_view().take(n as int)
                =~= self.metadata.deep_view());
        }
        kept.push((key, value));
        let r = Self { metadata: kept, ..self };
        proof {
            assert(r@.metadata =~= without_key(self@.metadata, key@).push((key@,
                value@)));
        }
        r
    }

    /// Set an explicit TTL override, in milliseconds.
    pub fn with_ttl(self, ttl_ms: u64) -> (r: Self)
        ensures
            r@ == (EntryView { ttl: Option::Some(ttl_ms), ..self@ }),
    {
        Self { ttl: Option::Some(ttl_ms), ..self }
    }

    /// Record the prompt-prefix digest this entry was generated within.
    pub fn with_prompt_prefix_hash(self, h: Digest32) -> (r: Self)
        ensures
            r@ == (EntryView { prompt_prefix_hash: Option::Some(h), ..self@ }),
    {
        Self { prompt_prefix_hash: Option::Some(h), ..self }
    }

    /// Record the authorization decision for this write.
    pub fn with_policy_audit(self, decision: String) -> (r: Self)
        ensures
            r@ == (EntryView { policy_audit: Option::Some(decision@), ..self@ }),
    {
        Self { policy_audit: Option::Some(decision), ..self }
    }

    /// Is this entry expired at `now_ms`, given the default short-term TTL?
    pub fn is_expired(&self, default_stm_ttl_ms: u64, now_ms: u64) -> (r: bool)
        ensures
            r == is_expired_spec(self@, default_stm_ttl_ms, now_ms),
    {
        if self.tombstoned {
            return true;
        }
        let ttl_ms: u64;
        match self.ttl {
            Option::Some(t) => {
                ttl_ms = t;
            }
            Option::None => {
                match self.tier {
                    EntryTier::Stm => {
                        if default_stm_ttl_ms == 0 {
                            return false;
                        }
                        ttl_ms = default_stm_ttl_ms;
                    }
                    EntryTier::Session => {
                        return false;
                    }
                    EntryTier::Ltm => {
                        return false;
                    }
                }
            }
        }
        now_ms > self.created_at && now_ms - self.created_at > ttl_ms
    }

    /// Whether two entries are the same entry: identity is the content
    /// digest alone, so two entries with equal digests stand for one
    /// assertion whatever their lifecycle fields say.
    pub fn same_entry(&self, other: &Self) -> (r: bool)
        ensures
            r == (self.content_hash == other.content_hash),
    {
        self.content_hash == other.content_hash
    }

    /// Hex-encoded content digest, for display.
    pub fn hash_hex(&self) -> (r: String)
        ensures
            r@ == hex_of(digest_bytes_spec(self.content_hash)),
    {
        let bytes = self.content_hash.to_bytes();
        hex_encode(bytes.as_slice())
    }
}

/// Compare two strings for equality of their character sequences.
pub fn string_eq(a: &String, b: &String) -> (r: bool)
    ensures
        r == (a@ == b@),
{
    a.eq(b)
}

} // verus!
