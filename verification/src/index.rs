//! Secondary indexes: by-kind, by-author and by-parent maps from a key to
//! the ordered sequence of entry hashes posted under it.
//!
//! Each index is held flat, as a sequence of (key, hash) pairs in insertion
//! order; the bucket of a key is the subsequence of hashes paired with it.
//! Indexes hold hashes only, never entries: the authoritative entry bodies
//! live in the store's own maps.

use vstd::prelude::*;
use crate::digest::Digest32;
use crate::entry::{EntryType, string_eq};

verus! {

/// The hashes paired with key `k`, in order.
pub open spec fn bucket_of<K>(items: Seq<(K, Digest32)>, k: K) -> Seq<Digest32>
    decreases items.len(),
{
    if items.len() == 0 {
        Seq::empty()
    } else {
        bucket_of(items.drop_last(), k) + if items.last().0 == k {
            seq![items.last().1]
        } else {
            Seq::empty()
        }
    }
}

/// Whether the pair (k, h) occurs in the index.
pub open spec fn has_pair<K>(items: Seq<(K, Digest32)>, k: K, h: Digest32) -> bool {
    exists|i: int| 0 <= i < items.len() && items[i] == (k, h)
}

/// The index with every pair (k, h) removed.
pub open spec fn drop_pair<K>(items: Seq<(K, Digest32)>, k: K, h: Digest32)
    -> Seq<(K, Digest32)>
{
    items.filter(|p: (K, Digest32)| !(p.0 == k && p.1 == h))
}

/// A hash is in a bucket exactly when its pair is in the index.
pub proof fn lemma_bucket_has_pair<K>(items: Seq<(K, Digest32)>, k: K, h: Digest32)
    ensures
        bucket_of(items, k).contains(h) == has_pair(items, k, h),
    decreases items.len(),
{
    if items.len() > 0 {
        lemma_bucket_has_pair(items.drop_last(), k, h);
        if bucket_of(items, k).contains(h) {
            if !(items.last().0 == k && items.last().1 == h) {
                assert(bucket_of(items.drop_last(), k).contains(h));
                let i = choose|i: int| 0 <= i < items.len() - 1
                    && items.drop_last()[i] == (k, h);
                assert(items[i] == (k, h));
            }
        }
        if has_pair(items, k, h) {
            let i = choose|i: int| 0 <= i < items.len() && items[i] == (k, h);
            if i < items.len() - 1 {
                assert(items.drop_last()[i] == (k, h));
                assert(bucket_of(items.drop_last(), k).contains(h));
                let b = bucket_of(items.drop_last(), k);
                let j = choose|j: int| 0 <= j < b.len() && b[j] == h;
                assert(bucket_of(items, k)[j] == h);
            } else {
                assert(bucket_of(items, k).last() == h);
            }
        }
    }
}

/// Removing the pairs of one key and hash empties exactly that hash out of
/// that key's bucket and leaves every other bucket untouched.
pub proof fn lemma_drop_pair_buckets<K>(items: Seq<(K, Digest32)>, k: K, h: Digest32,
    k2: K)
    ensures
        k2 == k ==> bucket_of(drop_pair(items, k, h), k2)
            =~= bucket_of(items, k2).filter(|x: Digest32| x != h),
        k2 != k ==> bucket_of(drop_pair(items, k, h), k2) =~= bucket_of(items, k2),
    decreases items.len(),
{
    reveal(Seq::filter);
    if items.len() > 0 {
        lemma_drop_pair_buckets(items.drop_last(), k, h, k2);
        assert(drop_pair(items, k, h) == drop_pair(items.drop_last(), k, h)
            + if !(items.last().0 == k && items.last().1 == h) {
                seq![items.last()]
            } else {
                Seq::empty()
            });
        lemma_bucket_of_add_one(drop_pair(items.drop_last(), k, h), items.last(),
            !(items.last().0 == k && items.last().1 == h), k2);
        assert(bucket_of(items, k2) == bucket_of(items.drop_last(), k2)
            + if items.last().0 == k2 { seq![items.last().1] } else { Seq::empty() });
        if k2 == k {
            let pd = |x: Digest32| x != h;
            let single = seq![items.last().1];
            Seq::filter_distributes_over_add(bucket_of(items.drop_last(), k2),
                if items.last().0 == k2 { single } else { Seq::empty() }, pd);
            assert(single.drop_last() =~= Seq::<Digest32>::empty());
            assert(Seq::<Digest32>::empty().filter(pd) =~= Seq::<Digest32>::empty());
            assert(single.filter(pd) =~= if pd(items.last().1) {
                single
            } else {
                Seq::empty()
            });
            assert(bucket_of(items, k2).filter(|x: Digest32| x != h)
                =~= bucket_of(items.drop_last(), k2).filter(|x: Digest32| x != h)
                + if items.last().0 == k2 && items.last().1 != h {
                    seq![items.last().1]
                } else {
                    Seq::empty()
                });
        }
    }
}

/// Unfolding helper: the bucket of a sequence extended by one possibly-kept
/// pair.
proof fn lemma_bucket_of_add_one<K>(items: Seq<(K, Digest32)>, p: (K, Digest32),
    kept: bool, k2: K)
    ensures
        bucket_of(items + if kept { seq![p] } else { Seq::empty() }, k2)
            =~= bucket_of(items, k2) + if kept && p.0 == k2 {
                seq![p.1]
            } else {
                Seq::empty()
            },
{
    if kept {
        let ext = items + seq![p];
        assert(ext.drop_last() =~= items);
        assert(ext.last() == p);
    } else {
        assert(items + Seq::<(K, Digest32)>::empty() =~= items);
    }
}

/// A bucket of an index extended by one pair.
pub proof fn lemma_bucket_push<K>(items: Seq<(K, Digest32)>, p: (K, Digest32), k2: K)
    ensures
        bucket_of(items.push(p), k2) =~= bucket_of(items, k2) + if p.0 == k2 {
            seq![p.1]
        } else {
            Seq::empty()
        },
{
    assert(items.push(p).drop_last() =~= items);
    assert(items.push(p).last() == p);
}

// ─── By-kind index ──────────────────────────────────────────────────────

/// Index from entry kind to the hashes posted under it.
pub struct TypeIndex {
    items: Vec<(EntryType, Digest32)>,
}

impl View for TypeIndex {
    type V = Seq<(EntryType, Digest32)>;

    closed spec fn view(&self) -> Seq<(EntryType, Digest32)> {
        self.items@
    }
}

impl TypeIndex {
    /// The empty index.
    pub fn new() -> (r: Self)
        ensures
            r@ =~= Seq::<(EntryType, Digest32)>::empty(),
    {
        TypeIndex { items: Vec::new() }
    }

    /// Append a hash under a kind.
    pub fn add(&mut self, k: EntryType, h: Digest32)
        ensures
            final(self)@ == old(self)@.push((k, h)),
    {
        self.items.push((k, h));
    }

    /// Remove every occurrence of a hash under a kind.
    pub fn remove(&mut self, k: EntryType, h: Digest32)
        ensures
            final(self)@ == drop_pair(old(self)@, k, h),
    {
        let n = self.items.len();
        let mut kept: Vec<(EntryType, Digest32)> = Vec::new();
        let mut i: usize = 0;
        while i < n
            invariant
                i <= n,
                n == self.items@.len(),
                kept@ =~= drop_pair(self.items@.take(i as int), k, h),
            decreases n - i,
        {
            proof {
                reveal(Seq::filter);
                assert(self.items@.take(i + 1).drop_last() =~= self.items@.take(i as int));
            }
            let p = self.items[i];
            if !(p.0 == k && p.1 == h) {
                kept.push(p);
            }
            i = i + 1;
        }
        proof {
            assert(self.items@.take(n as int) =~= self.items@);
        }
        self.items = kept;
    }

    /// The hashes posted under a kind, in insertion order.
    pub fn get(&self, k: EntryType) -> (r: Vec<Digest32>)
        ensures
            r@ == bucket_of(self@, k),
    {
        let n = self.items.len();
        let mut out: Vec<Digest32> = Vec::new();
        for i in 0..n
            invariant
                n == self.items@.len(),
                out@ =~= bucket_of(self.items@.take(i as int), k),
        {
            proof {
                assert(self.items@.take(i + 1).drop_last() =~= self.items@.take(i as int));
            }
            let p = self.items[i];
            if p.0 == k {
                out.push(p.1);
            }
            proof {
                assert(out@ =~= bucket_of(self.items@.take(i + 1), k));
            }
        }
        proof {
            assert(self.items@.take(n as int) =~= self.items@);
        }
        out
    }

    /// Drop every pair.
    pub fn clear(&mut self)
        ensures
            final(self)@ =~= Seq::<(EntryType, Digest32)>::empty(),
    {
        self.items.clear();
    }
}

// ─── By-author index ────────────────────────────────────────────────────

/// Index from author fingerprint to the hashes posted under it.
pub struct AuthorIndex {
    items: Vec<(String, Digest32)>,
}

impl View for AuthorIndex {
    type V = Seq<(Seq<char>, Digest32)>;

    closed spec fn view(&self) -> Seq<(Seq<char>, Digest32)> {
        Seq::new(self.items@.len(), |i: int| (self.items@[i].0@, self.items@[i].1))
    }
}

impl AuthorIndex {
    /// The empty index.
    pub fn new() -> (r: Self)
        ensures
            r@ =~= Seq::<(Seq<char>, Digest32)>::empty(),
    {
        AuthorIndex { items: Vec::new() }
    }

    /// Append a hash under an author.
    pub fn add(&mut self, k: &String, h: Digest32)
        ensures
            final(self)@ =~= old(self)@.push((k@, h)),
    {
        self.items.push((k.clone(), h));
    }

    /// Remove every occurrence of a hash under an author.
    pub fn remove(&mut self, k: &String, h: Digest32)
        ensures
            final(self)@ =~= drop_pair(old(self)@, k@, h),
    {
        let n = self.items.len();
        let mut kept: Vec<(String, Digest32)> = Vec::new();
        let mut i: usize = 0;
        while i < n
            invariant
                i <= n,
                n == self.items@.len(),
                Seq::new(kept@.len(), |j: int| (kept@[j].0@, kept@[j].1))
                    =~= drop_pair(Seq::new(i as nat, |j: int| (self.items@[j].0@,
                        self.items@[j].1)), k@, h),
            decreases n - i,
        {
            proof {
                reveal(Seq::filter);
                let prefix1 = Seq::new((i + 1) as nat, |j: int| (self.items@[j].0@,
                    self.items@[j].1));
                let prefix0 = Seq::new(i as nat, |j: int| (self.items@[j].0@,
                    self.items@[j].1));
                assert(prefix1.drop_last() =~= prefix0);
                assert(prefix1.last() == (self.items@[i as int].0@,
                    self.items@[i as int].1));
            }
            let matches_key = string_eq(&self.items[i].0, k);
            let same_hash = self.items[i].1 == h;
            if !(matches_key && same_hash) {
                let p = &self.items[i];
                kept.push((p.0.clone(), p.1));
            }
            i = i + 1;
        }
        proof {
            assert(Seq::new(n as nat, |j: int| (self.items@[j].0@, self.items@[j].1))
                =~= self@);
        }
        self.items = kept;
    }

    /// The hashes posted under an author, in insertion order.
    pub fn get(&self, k: &String) -> (r: Vec<Digest32>)
        ensures
            r@ == bucket_of(self@, k@),
    {
        let n = self.items.len();
        let mut out: Vec<Digest32> = Vec::new();
        for i in 0..n
            invariant
                n == self.items@.len(),
                self@.len() == n,
                out@ =~= bucket_of(self@.take(i as int), k@),
        {
            proof {
                assert(self@.take(i + 1).drop_last() =~= self@.take(i as int));
                assert(self@.take(i + 1).last() == (self.items@[i as int].0@,
                    self.items@[i as int].1));
            }
            let matches_key = string_eq(&self.items[i].0, k);
            if matches_key {
                out.push(self.items[i].1);
            }
            proof {
                assert(out@ =~= bucket_of(self@.take(i + 1), k@));
            }
        }
        proof {
            assert(self@.take(n as int) =~= self@);
        }
        out
    }

    /// Drop every pair.
    pub fn clear(&mut self)
        ensures
            final(self)@ =~= Seq::<(Seq<char>, Digest32)>::empty(),
    {
        self.items.clear();
    }
}

// ─── By-parent index ────────────────────────────────────────────────────

/// Index from parent hash to the hashes of its direct children.
pub struct ParentIndex {
    items: Vec<(Digest32, Digest32)>,
}

impl View for ParentIndex {
    type V = Seq<(Digest32, Digest32)>;

    closed spec fn view(&self) -> Seq<(Digest32, Digest32)> {
        self.items@
    }
}

impl ParentIndex {
    /// The empty index.
    pub fn new() -> (r: Self)
        ensures
            r@ =~= Seq::<(Digest32, Digest32)>::empty(),
    {
        ParentIndex { items: Vec::new() }
    }

    /// Append a child hash under a parent hash.
    pub fn add(&mut self, k: Digest32, h: Digest32)
        ensures
            final(self)@ == old(self)@.push((k, h)),
    {
        self.items.push((k, h));
    }

    /// Remove every occurrence of a child hash under a parent hash.
    pub fn remove(&mut self, k: Digest32, h: Digest32)
        ensures
            final(self)@ == drop_pair(old(self)@, k, h),
    {
        let n = self.items.len();
        let mut kept: Vec<(Digest32, Digest32)> = Vec::new();
        let mut i: usize = 0;
        while i < n
            invariant
                i <= n,
                n == self.items@.len(),
                kept@ =~= drop_pair(self.items@.take(i as int), k, h),
            decreases n - i,
        {
            proof {
                reveal(Seq::filter);
                assert(self.items@.take(i + 1).drop_last() =~= self.items@.take(i as int));
            }
            let p = self.items[i];
            if !(p.0 == k && p.1 == h) {
                kept.push(p);
            }
            i = i + 1;
        }
        proof {
            assert(self.items@.take(n as int) =~= self.items@);
        }
        self.items = kept;
    }

    /// The child hashes of a parent, in insertion order.
    pub fn get(&self, k: &Digest32) -> (r: Vec<Digest32>)
        ensures
            r@ == bucket_of(self@, *k),
    {
        let n = self.items.len();
        let mut out: Vec<Digest32> = Vec::new();
        for i in 0..n
            invariant
                n == self.items@.len(),
                out@ =~= bucket_of(self.items@.take(i as int), *k),
        {
            proof {
                assert(self.items@.take(i + 1).drop_last() =~= self.items@.take(i as int));
            }
            let p = self.items[i];
            if p.0 == *k {
                out.push(p.1);
            }
            proof {
                assert(out@ =~= bucket_of(self.items@.take(i + 1), *k));
            }
        }
        proof {
            assert(self.items@.take(n as int) =~= self.items@);
        }
        out
    }

    /// Drop every pair.
    pub fn clear(&mut self)
        ensures
            final(self)@ =~= Seq::<(Digest32, Digest32)>::empty(),
    {
        self.items.clear();
    }
}

} // verus!
