//! Snapshot — an immutable view of the blackboard for prompt construction,
//! with its cache thumbprint and pre-rendered prompt text.
//!
//! Agents that work against snapshots with equal thumbprints have byte-equal
//! prompt prefixes, which is what makes provider-side prefix caches hit.

use vstd::prelude::*;
use vstd::string::StringExecFns;
use crate::digest::{Digest32, digest_spec, digest_bytes_spec, digest_bytes, word_bytes,
    push_word_bytes, word_from_bytes};
use crate::entry::{BlackboardEntry, EntryType, EntryView, clone_digests};
use crate::text::{hex_of, hex_encode, hex8_of, push_hex8, dec_of, push_dec_u64, conf_of,
    push_conf};

verus! {

broadcast use vstd::seq_lib::group_filter_ensures;

// ─── Cache thumbprint ───────────────────────────────────────────────────

/// The concatenated digest bytes of a sequence of entries.
pub open spec fn hashes_bytes(entries: Seq<EntryView>) -> Seq<u8>
    decreases entries.len(),
{
    if entries.len() == 0 {
        Seq::empty()
    } else {
        hashes_bytes(entries.drop_last()) + digest_bytes_spec(entries.last().content_hash)
    }
}

/// The thumbprint of an entry sequence: the digest of every entry hash in
/// order, followed by the entry count.
pub open spec fn thumbprint_spec(entries: Seq<EntryView>) -> Digest32 {
    digest_spec(hashes_bytes(entries) + word_bytes(entries.len() as u64))
}

/// Cache thumbprint — the digest of the canonical entry ordering.
///
/// Two agents that see the same thumbprint share a prompt prefix.
#[derive(Clone, Copy, PartialEq, Eq, Structural, Debug)]
pub struct CacheThumbprint {
    /// The underlying 32-byte digest.
    pub digest: Digest32,
}

impl CacheThumbprint {
    /// Compute the thumbprint of a slice of entries in canonical order.
    pub fn from_entries(entries: &[BlackboardEntry]) -> (r: Self)
        ensures
            r.digest == thumbprint_spec(entries.deep_view()),
    {
        let mut input: Vec<u8> = Vec::new();
        let n = entries.len();
        for i in 0..n
            invariant
                n == entries@.len(),
                input@ == hashes_bytes(entries.deep_view().take(i as int)),
        {
            proof {
                assert(entries.deep_view().take(i + 1).drop_last()
                    =~= entries.deep_view().take(i as int));
            }
            let d = &entries[i].content_hash;
            push_word_bytes(&mut input, d.w0);
            push_word_bytes(&mut input, d.w1);
            push_word_bytes(&mut input, d.w2);
            push_word_bytes(&mut input, d.w3);
            proof {
                assert(input@ =~= hashes_bytes(entries.deep_view().take(i + 1)));
            }
        }
        proof {
            assert(entries.deep_view().take(n as int) =~= entries.deep_view());
        }
        push_word_bytes(&mut input, n as u64);
        let r = CacheThumbprint { digest: digest_bytes(input.as_slice()) };
        proof {
            assert(input@ =~= hashes_bytes(entries.deep_view())
                + word_bytes(entries.deep_view().len() as u64));
        }
        r
    }

    /// Reconstruct a thumbprint from its 32 bytes.
    pub fn from_bytes(bytes: &[u8]) -> (r: Self)
        requires
            bytes@.len() == 32,
        ensures
            digest_bytes_spec(r.digest) == bytes@,
    {
        let w0 = word_from_bytes(bytes[0], bytes[1], bytes[2], bytes[3], bytes[4],
            bytes[5], bytes[6], bytes[7]);
        let w1 = word_from_bytes(bytes[8], bytes[9], bytes[10], bytes[11], bytes[12],
            bytes[13], bytes[14], bytes[15]);
        let w2 = word_from_bytes(bytes[16], bytes[17], bytes[18], bytes[19], bytes[20],
            bytes[21], bytes[22], bytes[23]);
        let w3 = word_from_bytes(bytes[24], bytes[25], bytes[26], bytes[27], bytes[28],
            bytes[29], bytes[30], bytes[31]);
        let r = CacheThumbprint { digest: Digest32 { w0, w1, w2, w3 } };
        proof {
            assert(digest_bytes_spec(r.digest) =~= bytes@);
        }
        r
    }

    /// The raw 32 bytes of this thumbprint.
    pub fn as_bytes(&self) -> (r: Vec<u8>)
        ensures
            r@ == digest_bytes_spec(self.digest),
    {
        self.digest.to_bytes()
    }

    /// Hex-encoded thumbprint.
    pub fn hex(&self) -> (r: String)
        ensures
            r@ == hex_of(digest_bytes_spec(self.digest)),
    {
        let bytes = self.digest.to_bytes();
        hex_encode(bytes.as_slice())
    }

    /// The zero thumbprint, reported for an empty or failed board.
    pub fn zero() -> (r: Self)
        ensures
            r.digest == (Digest32 { w0: 0, w1: 0, w2: 0, w3: 0 }),
    {
        CacheThumbprint { digest: Digest32::zero() }
    }
}

// ─── Rendering ──────────────────────────────────────────────────────────

/// The section label of an entry kind.
pub open spec fn kind_label_spec(k: EntryType) -> Seq<char> {
    match k {
        EntryType::Decision => "Decisions"@,
        EntryType::Fact => "Facts"@,
        EntryType::Hypothesis => "Hypotheses"@,
        EntryType::Observation => "Observations"@,
        EntryType::Partial => "In Progress"@,
        EntryType::Query => "Open Questions"@,
        EntryType::Veto => "Vetoed"@,
        EntryType::Reasoning => "Reasoning Traces"@,
    }
}

/// The section label of an entry kind.
pub fn kind_label(k: &EntryType) -> (r: &'static str)
    ensures
        r@ == kind_label_spec(*k),
{
    match k {
        EntryType::Decision => "Decisions",
        EntryType::Fact => "Facts",
        EntryType::Hypothesis => "Hypotheses",
        EntryType::Observation => "Observations",
        EntryType::Partial => "In Progress",
        EntryType::Query => "Open Questions",
        EntryType::Veto => "Vetoed",
        EntryType::Reasoning => "Reasoning Traces",
    }
}

/// The rendered line of one entry.
pub open spec fn line_spec(e: EntryView) -> Seq<char> {
    "- ["@ + hex8_of(e.content_hash) + "] ("@ + e.author + ", conf="@
        + conf_of(e.confidence as int) + "): "@ + e.content + "\n"@
}

/// Whether an entry belongs to the section of kind `k`.
pub open spec fn in_section(e: EntryView, k: EntryType) -> bool {
    e.entry_type == k && !e.tombstoned
}

/// The concatenated lines of a group of entries.
pub open spec fn lines_spec(es: Seq<EntryView>) -> Seq<char>
    decreases es.len(),
{
    if es.len() == 0 {
        Seq::empty()
    } else {
        lines_spec(es.drop_last()) + line_spec(es.last())
    }
}

/// The rendered section for kind `k`: nothing if no entry of that kind is
/// present, else a heading followed by one line per entry, in order.
pub open spec fn section_spec(es: Seq<EntryView>, k: EntryType) -> Seq<char> {
    let g = es.filter(|e: EntryView| in_section(e, k));
    if g.len() == 0 {
        Seq::empty()
    } else {
        "\n## "@ + kind_label_spec(k) + "\n"@ + lines_spec(g)
    }
}

/// The rendered header of a snapshot with the given entries.
pub open spec fn header_spec(es: Seq<EntryView>) -> Seq<char> {
    "[Blackboard — "@ + dec_of(es.len()) + " entries, thumbprint "@
        + hex8_of(thumbprint_spec(es)) + "]\n"@
}

/// The full rendered prompt text of an entry sequence: empty for an empty
/// board, else the header followed by the sections in their fixed order.
pub open spec fn render_spec(es: Seq<EntryView>) -> Seq<char> {
    if es.len() == 0 {
        Seq::empty()
    } else {
        header_spec(es) + section_spec(es, EntryType::Decision)
            + section_spec(es, EntryType::Fact)
            + section_spec(es, EntryType::Hypothesis)
            + section_spec(es, EntryType::Observation)
            + section_spec(es, EntryType::Partial)
            + section_spec(es, EntryType::Query)
            + section_spec(es, EntryType::Veto)
            + section_spec(es, EntryType::Reasoning)
    }
}

/// Append the rendered line of one entry.
fn render_line(out: &mut String, e: &BlackboardEntry)
    ensures
        final(out)@ == old(out)@ + line_spec(e@),
{
    out.append("- [");
    push_hex8(out, &e.content_hash);
    out.append("] (");
    out.append(e.author.as_str());
    out.append(", conf=");
    push_conf(out, e.confidence);
    out.append("): ");
    out.append(e.content.as_str());
    out.append("\n");
    proof {
        assert(final(out)@ =~= old(out)@ + line_spec(e@));
    }
}

/// Append the rendered section of kind `k`.
fn render_section(out: &mut String, entries: &Vec<BlackboardEntry>, k: &EntryType)
    ensures
        final(out)@ == old(out)@ + section_spec(entries.deep_view(), *k),
{
    let ghost es = entries.deep_view();
    let n = entries.len();
    let mut any: bool = false;
    for i in 0..n
        invariant
            n == entries@.len(),
            es == entries.deep_view(),
            es.len() == n,
            any == (exists|j: int| 0 <= j < i && in_section(es[j], *k)),
    {
        proof {
            assert(es[i as int] == entries@[i as int]@);
        }
        if entries[i].entry_type == *k && !entries[i].tombstoned {
            any = true;
        }
    }
    if !any {
        proof {
            reveal(Seq::filter);
            assert forall|j: int| 0 <= j < es.len()
                implies !(|e: EntryView| in_section(e, *k))(es[j]) by {}
            assert(es.filter(|e: EntryView| in_section(e, *k)).len() == 0) by {
                lemma_filter_none(es, |e: EntryView| in_section(e, *k));
            }
        }
        return;
    }
    out.append("\n## ");
    out.append(kind_label(k));
    out.append("\n");
    let ghost mid = old(out)@ + "\n## "@ + kind_label_spec(*k) + "\n"@;
    proof {
        assert(out@ =~= mid);
    }
    for i in 0..n
        invariant
            n == entries@.len(),
            es == entries.deep_view(),
            es.len() == n,
            out@ == mid + lines_spec(es.take(i as int).filter(|e: EntryView|
                in_section(e, *k))),
    {
        proof {
            reveal(Seq::filter);
            assert(es.take(i + 1).drop_last() =~= es.take(i as int));
            assert(es.take(i + 1).last() == es[i as int]);
            assert(es[i as int] == entries@[i as int]@);
        }
        if entries[i].entry_type == *k && !entries[i].tombstoned {
            render_line(out, &entries[i]);
        }
        proof {
            let p = |e: EntryView| in_section(e, *k);
            if p(es[i as int]) {
                let g0 = es.take(i as int).filter(p);
                let g1 = es.take(i + 1).filter(p);
                assert(g1 =~= g0.push(es[i as int]));
                assert(g1.drop_last() =~= g0);
                assert(g1.last() == es[i as int]);
                assert(lines_spec(g1) == lines_spec(g1.drop_last()) + line_spec(g1.last()));
                assert(lines_spec(g1) =~= lines_spec(g0) + line_spec(es[i as int]));
            } else {
                assert(es.take(i + 1).filter(p) =~= es.take(i as int).filter(p));
            }
        }
    }
    proof {
        assert(es.take(n as int) =~= es);
        let p = |e: EntryView| in_section(e, *k);
        assert(es.filter(p).len() > 0) by {
            let j = choose|j: int| 0 <= j < n && in_section(es[j], *k);
            lemma_filter_some(es, p, j);
        }
        assert(final(out)@ =~= old(out)@ + section_spec(es, *k));
    }
}

/// A predicate that holds of no element makes its filter empty.
proof fn lemma_filter_none<A>(s: Seq<A>, p: spec_fn(A) -> bool)
    requires
        forall|j: int| 0 <= j < s.len() ==> !p(s[j]),
    ensures
        s.filter(p).len() == 0,
    decreases s.len(),
{
    reveal(Seq::filter);
    if s.len() > 0 {
        lemma_filter_none(s.drop_last(), p);
    }
}

/// A predicate that holds of some element makes its filter non-empty.
proof fn lemma_filter_some<A>(s: Seq<A>, p: spec_fn(A) -> bool, j: int)
    requires
        0 <= j < s.len(),
        p(s[j]),
    ensures
        s.filter(p).len() > 0,
    decreases s.len(),
{
    reveal(Seq::filter);
    if j < s.len() - 1 {
        assert(s.drop_last()[j] == s[j]);
        lemma_filter_some(s.drop_last(), p, j);
    }
}

/// Render an entry sequence into the prompt-prefix text.
pub fn render_for_prompt(entries: &Vec<BlackboardEntry>) -> (r: String)
    ensures
        r@ == render_spec(entries.deep_view()),
{
    let ghost es = entries.deep_view();
    if entries.len() == 0 {
        let r = String::new();
        proof {
            assert(r@ =~= render_spec(es));
        }
        return r;
    }
    let mut out = String::new();
    out.append("[Blackboard — ");
    push_dec_u64(&mut out, entries.len() as u64);
    out.append(" entries, thumbprint ");
    let tp = CacheThumbprint::from_entries(entries.as_slice());
    push_hex8(&mut out, &tp.digest);
    out.append("]\n");
    proof {
        assert(out@ =~= header_spec(es));
    }
    let ghost header = out@;
    render_section(&mut out, entries, &EntryType::Decision);
    render_section(&mut out, entries, &EntryType::Fact);
    render_section(&mut out, entries, &EntryType::Hypothesis);
    render_section(&mut out, entries, &EntryType::Observation);
    render_section(&mut out, entries, &EntryType::Partial);
    render_section(&mut out, entries, &EntryType::Query);
    render_section(&mut out, entries, &EntryType::Veto);
    render_section(&mut out, entries, &EntryType::Reasoning);
    proof {
        assert(out@ =~= render_spec(es));
    }
    out
}

// ─── Snapshot ───────────────────────────────────────────────────────────

/// An immutable snapshot of the blackboard at a specific epoch.
#[derive(Debug)]
pub struct BlackboardSnapshot {
    /// Epoch at which this snapshot was taken.
    pub epoch: u64,
    /// Entries in canonical order.
    pub entries: Vec<BlackboardEntry>,
    /// Thumbprint of the canonical entry ordering.
    pub thumbprint: CacheThumbprint,
    /// Pre-rendered prompt text.
    pub rendered: String,
}

/// The mathematical image of a snapshot.
pub ghost struct SnapshotView {
    pub epoch: u64,
    pub entries: Seq<EntryView>,
    pub thumbprint: Digest32,
    pub rendered: Seq<char>,
}

impl View for BlackboardSnapshot {
    type V = SnapshotView;

    open spec fn view(&self) -> SnapshotView {
        SnapshotView {
            epoch: self.epoch,
            entries: self.entries.deep_view(),
            thumbprint: self.thumbprint.digest,
            rendered: self.rendered@,
        }
    }
}

/// Whether a snapshot is internally consistent: its thumbprint and rendered
/// text are those of its entry sequence.
pub open spec fn snapshot_wf(s: SnapshotView) -> bool {
    s.thumbprint == thumbprint_spec(s.entries) && s.rendered == render_spec(s.entries)
}

/// Copy a vector of entries.
pub fn clone_entries(v: &Vec<BlackboardEntry>) -> (r: Vec<BlackboardEntry>)
    ensures
        r.deep_view() == v.deep_view(),
{
    let mut out: Vec<BlackboardEntry> = Vec::new();
    let n = v.len();
    for i in 0..n
        invariant
            n == v@.len(),
            out@.len() == i,
            forall|j: int| 0 <= j < i ==> #[trigger] out@[j].deep_view()
                == v@[j].deep_view(),
    {
        let e = v[i].clone();
        proof {
            assert(e@ == v@[i as int]@);
        }
        out.push(e);
    }
    proof {
        assert(out.deep_view() =~= v.deep_view());
    }
    out
}

impl Clone for BlackboardSnapshot {
    fn clone(&self) -> (r: Self)
        ensures
            r@ == self@,
    {
        let r = BlackboardSnapshot {
            epoch: self.epoch,
            entries: clone_entries(&self.entries),
            thumbprint: self.thumbprint,
            rendered: self.rendered.clone(),
        };
        proof {
            assert(r@ =~~= self@);
        }
        r
    }
}

impl BlackboardSnapshot {
    /// Build a snapshot from entries in canonical order, computing its
    /// thumbprint and rendered text.
    pub fn new(epoch: u64, entries: Vec<BlackboardEntry>) -> (r: Self)
        ensures
            r@.epoch == epoch,
            r@.entries == entries.deep_view(),
            r@.thumbprint == thumbprint_spec(entries.deep_view()),
            r@.rendered == render_spec(entries.deep_view()),
            snapshot_wf(r@),
    {
        let thumbprint = CacheThumbprint::from_entries(entries.as_slice());
        let rendered = render_for_prompt(&entries);
        BlackboardSnapshot { epoch, entries, thumbprint, rendered }
    }

    /// The empty snapshot at epoch zero.
    pub fn empty() -> (r: Self)
        ensures
            r@.epoch == 0,
            r@.entries =~= Seq::<EntryView>::empty(),
            r@.thumbprint == thumbprint_spec(Seq::empty()),
            r@.rendered == render_spec(Seq::empty()),
            snapshot_wf(r@),
    {
        let r = Self::new(0, Vec::new());
        proof {
            assert(r@.entries =~= Seq::<EntryView>::empty());
        }
        r
    }

    /// The pre-rendered prompt text.
    pub fn as_prompt(&self) -> (r: &str)
        ensures
            r@ == self@.rendered,
    {
        self.rendered.as_str()
    }

    /// Number of entries in this snapshot.
    pub fn len(&self) -> (r: usize)
        ensures
            r == self@.entries.len(),
    {
        self.entries.len()
    }

    /// Whether this snapshot holds no entries.
    pub fn is_empty(&self) -> (r: bool)
        ensures
            r == (self@.entries.len() == 0),
    {
        self.entries.len() == 0
    }
}

} // verus!
