//! The 32-byte digest used for entry identity and cache thumbprints.
//!
//! The digest is SHA-256: collision-resistant, feed-order-sensitive, a
//! pure function of its input, and identical across processes and
//! machines — the properties entry identity and cache-thumbprint
//! comparison rest on. The hash itself is computed by the sha2 crate
//! behind one trusted wrapper; everything built on top of the digest is
//! verified against the named result.

use vstd::prelude::*;

verus! {

/// What SHA-256 returns for a byte sequence: a function of the bytes
/// alone, identical in every process and on every machine.
pub uninterp spec fn sha256_of(bytes: Seq<u8>) -> Seq<u8>;

/// Relies on sha2::Sha256 through the one-shot `Digest::digest`: the
/// SHA-256 digest of the input, always 32 bytes.
#[verifier::external_body]
fn sha256(bytes: &[u8]) -> (r: Vec<u8>)
    ensures
        r@ == sha256_of(bytes@),
        r@.len() == 32,
{
    <sha2::Sha256 as sha2::Digest>::digest(bytes).to_vec()
}

/// A 32-byte digest held as four 64-bit words.
///
/// The bytes of the digest, where byte order matters (hex rendering, feeding
/// one digest into another), are the big-endian bytes of `w0` through `w3`.
#[derive(Clone, Copy, PartialEq, Eq, Structural, Debug)]
pub struct Digest32 {
    pub w0: u64,
    pub w1: u64,
    pub w2: u64,
    pub w3: u64,
}

/// The 64-bit word formed by eight big-endian bytes of `b` starting at
/// `off`.
pub open spec fn word_at(b: Seq<u8>, off: int) -> u64 {
    ((b[off] as u64) << 56) | ((b[off + 1] as u64) << 48)
        | ((b[off + 2] as u64) << 40) | ((b[off + 3] as u64) << 32)
        | ((b[off + 4] as u64) << 24) | ((b[off + 5] as u64) << 16)
        | ((b[off + 6] as u64) << 8) | (b[off + 7] as u64)
}

/// The digest of a byte sequence: its SHA-256 hash, as four words.
pub open spec fn digest_spec(s: Seq<u8>) -> Digest32 {
    let h = sha256_of(s);
    Digest32 {
        w0: word_at(h, 0),
        w1: word_at(h, 8),
        w2: word_at(h, 16),
        w3: word_at(h, 24),
    }
}

/// Assemble a 64-bit word from its big-endian bytes.
pub fn word_from_bytes(b0: u8, b1: u8, b2: u8, b3: u8, b4: u8, b5: u8, b6: u8,
    b7: u8) -> (w: u64)
    ensures
        w == ((b0 as u64) << 56) | ((b1 as u64) << 48) | ((b2 as u64) << 40)
            | ((b3 as u64) << 32) | ((b4 as u64) << 24) | ((b5 as u64) << 16)
            | ((b6 as u64) << 8) | (b7 as u64),
        word_bytes(w) == seq![b0, b1, b2, b3, b4, b5, b6, b7],
{
    let w: u64 = ((b0 as u64) << 56) | ((b1 as u64) << 48) | ((b2 as u64) << 40)
        | ((b3 as u64) << 32) | ((b4 as u64) << 24) | ((b5 as u64) << 16)
        | ((b6 as u64) << 8) | (b7 as u64);
    proof {
        assert((w >> 56) as u8 == b0 && (w >> 48) as u8 == b1 && (w >> 40) as u8 == b2
            && (w >> 32) as u8 == b3 && (w >> 24) as u8 == b4 && (w >> 16) as u8 == b5
            && (w >> 8) as u8 == b6 && w as u8 == b7) by (bit_vector)
            requires
                w == ((b0 as u64) << 56) | ((b1 as u64) << 48) | ((b2 as u64) << 40)
                    | ((b3 as u64) << 32) | ((b4 as u64) << 24) | ((b5 as u64) << 16)
                    | ((b6 as u64) << 8) | (b7 as u64),
        ;
        assert(word_bytes(w) =~= seq![b0, b1, b2, b3, b4, b5, b6, b7]);
    }
    w
}

/// Compute the digest of a byte sequence.
pub fn digest_bytes(bytes: &[u8]) -> (r: Digest32)
    ensures
        r == digest_spec(bytes@),
{
    let h = sha256(bytes);
    let w0 = word_from_bytes(h[0], h[1], h[2], h[3], h[4], h[5], h[6], h[7]);
    let w1 = word_from_bytes(h[8], h[9], h[10], h[11], h[12], h[13], h[14], h[15]);
    let w2 = word_from_bytes(h[16], h[17], h[18], h[19], h[20], h[21], h[22], h[23]);
    let w3 = word_from_bytes(h[24], h[25], h[26], h[27], h[28], h[29], h[30], h[31]);
    Digest32 { w0, w1, w2, w3 }
}

/// The big-endian bytes of a 64-bit word.
pub open spec fn word_bytes(w: u64) -> Seq<u8> {
    seq![
        (w >> 56) as u8,
        (w >> 48) as u8,
        (w >> 40) as u8,
        (w >> 32) as u8,
        (w >> 24) as u8,
        (w >> 16) as u8,
        (w >> 8) as u8,
        w as u8,
    ]
}

/// The 32 bytes of a digest: the big-endian bytes of its four words.
pub open spec fn digest_bytes_spec(d: Digest32) -> Seq<u8> {
    word_bytes(d.w0) + word_bytes(d.w1) + word_bytes(d.w2) + word_bytes(d.w3)
}

/// Append the big-endian bytes of a word to a byte vector.
pub fn push_word_bytes(out: &mut Vec<u8>, w: u64)
    ensures
        final(out)@ == old(out)@ + word_bytes(w),
{
    out.push((w >> 56) as u8);
    out.push((w >> 48) as u8);
    out.push((w >> 40) as u8);
    out.push((w >> 32) as u8);
    out.push((w >> 24) as u8);
    out.push((w >> 16) as u8);
    out.push((w >> 8) as u8);
    out.push(w as u8);
    proof {
        assert(final(out)@ =~= old(out)@ + word_bytes(w));
    }
}

impl Digest32 {
    /// The all-zero digest.
    pub fn zero() -> (r: Digest32)
        ensures
            r == (Digest32 { w0: 0, w1: 0, w2: 0, w3: 0 }),
    {
        Digest32 { w0: 0, w1: 0, w2: 0, w3: 0 }
    }

    /// The 32 bytes of this digest, big-endian word by word.
    pub fn to_bytes(&self) -> (r: Vec<u8>)
        ensures
            r@ == digest_bytes_spec(*self),
    {
        let mut out: Vec<u8> = Vec::new();
        push_word_bytes(&mut out, self.w0);
        push_word_bytes(&mut out, self.w1);
        push_word_bytes(&mut out, self.w2);
        push_word_bytes(&mut out, self.w3);
        proof {
            assert(out@ =~= digest_bytes_spec(*self));
        }
        out
    }
}

/// Whether digest `a` is strictly below `b` in byte order (big-endian
/// lexicographic order over the 32 bytes, which coincides with numeric
/// comparison of the words taken in sequence).
pub open spec fn digest_lt(a: Digest32, b: Digest32) -> bool {
    if a.w0 != b.w0 {
        a.w0 < b.w0
    } else if a.w1 != b.w1 {
        a.w1 < b.w1
    } else if a.w2 != b.w2 {
        a.w2 < b.w2
    } else {
        a.w3 < b.w3
    }
}

/// Byte order is a strict total order: exactly one of `a < b`, `a == b`,
/// `b < a` holds.
pub proof fn lemma_digest_order(a: Digest32, b: Digest32)
    ensures
        a != b ==> (digest_lt(a, b) || digest_lt(b, a)),
        !(digest_lt(a, b) && digest_lt(b, a)),
        digest_lt(a, b) ==> a != b,
{
}

/// Compare two digests in byte order.
pub fn digest_lt_exec(a: &Digest32, b: &Digest32) -> (r: bool)
    ensures
        r == digest_lt(*a, *b),
{
    if a.w0 != b.w0 {
        a.w0 < b.w0
    } else if a.w1 != b.w1 {
        a.w1 < b.w1
    } else if a.w2 != b.w2 {
        a.w2 < b.w2
    } else {
        a.w3 < b.w3
    }
}

} // verus!
