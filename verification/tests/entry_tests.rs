//! Entries, digests and text rendering.

use blackboard::digest::{Digest32, digest_bytes};
use blackboard::entry::{BlackboardEntry, EntryType, EntryTier, MetaValue};
use blackboard::snapshot::CacheThumbprint;
use blackboard::text::{hex_encode, push_dec_u64, push_conf};

fn entry(author: &str, kind: EntryType, content: &str) -> BlackboardEntry {
    BlackboardEntry::new_at(author.to_string(), kind, content.to_string(), None, 1_000)
}

#[test]
fn digest_matches_sha256_reference_vectors() {
    // SHA-256 of the single byte 0x61 ("a").
    let d = digest_bytes(&[0x61]);
    assert_eq!(d.w0, 0xca978112ca1bbdca);
    assert_eq!(d.w1, 0xfac231b39a23dc4d);
    assert_eq!(d.w2, 0xa786eff8147c4e72);
    assert_eq!(d.w3, 0xb9807785afee48bb);
    assert_eq!(
        hex_encode(&d.to_bytes()),
        "ca978112ca1bbdcafac231b39a23dc4da786eff8147c4e72b9807785afee48bb"
    );
    // SHA-256 of the empty input.
    let e = digest_bytes(&[]);
    assert_eq!(e.w0, 0xe3b0c44298fc1c14);
    assert_eq!(e.w1, 0x9afbf4c8996fb924);
    assert_eq!(e.w2, 0x27ae41e4649b934c);
    assert_eq!(e.w3, 0xa495991b7852b855);
}

#[test]
fn hash_is_deterministic_in_its_inputs() {
    let a = entry("A", EntryType::Fact, "same words");
    let b = entry("A", EntryType::Decision, "same words");
    // Kind, tier and time do not enter the hash; author/content/parent do.
    assert_eq!(a.content_hash, b.content_hash);
    let c = entry("A", EntryType::Fact, "other words");
    assert_ne!(a.content_hash, c.content_hash);
    let d = entry("B", EntryType::Fact, "same words");
    assert_ne!(a.content_hash, d.content_hash);
    let with_parent = BlackboardEntry::new_at(
        "A".to_string(),
        EntryType::Fact,
        "same words".to_string(),
        Some(c.content_hash),
        1_000,
    );
    assert_ne!(a.content_hash, with_parent.content_hash);
}

#[test]
fn empty_fields_differ_from_absent_parent() {
    let no_parent = entry("A", EntryType::Fact, "");
    let zero = Digest32 { w0: 0, w1: 0, w2: 0, w3: 0 };
    let zero_parent = BlackboardEntry::new_at(
        "A".to_string(),
        EntryType::Fact,
        "".to_string(),
        Some(zero),
        1_000,
    );
    assert_ne!(no_parent.content_hash, zero_parent.content_hash);
}

#[test]
fn builders_set_their_fields() {
    let e = entry("A", EntryType::Fact, "payload")
        .with_tier(EntryTier::Ltm)
        .with_confidence(85)
        .with_ttl(5_000)
        .with_policy_audit("granted".to_string())
        .with_prompt_prefix_hash(Digest32 { w0: 9, w1: 8, w2: 7, w3: 6 });
    assert!(matches!(e.tier, EntryTier::Ltm));
    assert_eq!(e.confidence, 85);
    assert_eq!(e.ttl, Some(5_000));
    assert_eq!(e.policy_audit.as_deref(), Some("granted"));
    assert_eq!(e.prompt_prefix_hash, Some(Digest32 { w0: 9, w1: 8, w2: 7, w3: 6 }));
    assert!(!e.tombstoned);
}

#[test]
fn confidence_is_clamped() {
    let e = entry("A", EntryType::Fact, "sure").with_confidence(250);
    assert_eq!(e.confidence, 100);
}

#[test]
fn metadata_replaces_by_key() {
    let e = entry("A", EntryType::Fact, "meta")
        .with_metadata("tool".to_string(), MetaValue::Text("search".to_string()))
        .with_metadata("attempt".to_string(), MetaValue::Int(1))
        .with_metadata("tool".to_string(), MetaValue::Text("browse".to_string()));
    assert_eq!(e.metadata.len(), 2);
    assert_eq!(e.metadata[0].0, "attempt");
    assert_eq!(e.metadata[1].0, "tool");
    match &e.metadata[1].1 {
        MetaValue::Text(s) => assert_eq!(s, "browse"),
        _ => panic!("tool metadata must be text"),
    }
}

#[test]
fn expiry_follows_tier_and_override() {
    let stm = entry("A", EntryType::Observation, "short").with_tier(EntryTier::Stm);
    // Default short-term TTL of 2000 ms from a creation time of 1000 ms.
    assert!(!stm.is_expired(2_000, 3_000));
    assert!(stm.is_expired(2_000, 3_001));
    // A zero default means no expiry for the short-term tier.
    assert!(!stm.is_expired(0, u64::MAX));
    // Session and persistent tiers never expire by default.
    let session = entry("A", EntryType::Fact, "keep");
    assert!(!session.is_expired(1, u64::MAX));
    // An explicit override beats the tier default.
    let short = entry("A", EntryType::Fact, "flash").with_ttl(10);
    assert!(short.is_expired(0, 1_011));
    assert!(!short.is_expired(0, 1_010));
    // Tombstoned entries count as expired at any instant.
    let mut dead = entry("A", EntryType::Fact, "dead");
    dead.tombstoned = true;
    assert!(dead.is_expired(0, 0));
}

#[test]
fn hex_encoding_is_exact() {
    assert_eq!(hex_encode(&[0x00, 0xff, 0x1a]), "00ff1a");
    assert_eq!(hex_encode(&[]), "");
    let e = entry("A", EntryType::Fact, "hexed");
    assert_eq!(e.hash_hex().len(), 64);
    assert_eq!(e.hash_hex(), hex_encode(&e.content_hash.to_bytes()));
}

#[test]
fn decimal_and_confidence_rendering() {
    let mut s = String::new();
    push_dec_u64(&mut s, 0);
    s.push_str(" ");
    push_dec_u64(&mut s, 10_450);
    assert_eq!(s, "0 10450");
    let mut c = String::new();
    push_conf(&mut c, 0);
    push_conf(&mut c, 7);
    push_conf(&mut c, 95);
    push_conf(&mut c, 100);
    assert_eq!(c, "0.000.070.951.00");
}

#[test]
fn thumbprint_bytes_round_trip() {
    let t = CacheThumbprint::zero();
    assert_eq!(t.hex(), "0".repeat(64));
    let d = Digest32 { w0: 0x0102030405060708, w1: 0, w2: 0, w3: 0xff };
    let bytes = d.to_bytes();
    assert_eq!(bytes.len(), 32);
    assert_eq!(&bytes[0..8], &[1, 2, 3, 4, 5, 6, 7, 8]);
    let back = CacheThumbprint::from_bytes(&bytes);
    assert_eq!(back.digest, d);
}

#[test]
fn entry_clone_is_deep() {
    let e = entry("A", EntryType::Fact, "cloned")
        .with_metadata("k".to_string(), MetaValue::Bool(true))
        .with_evidence(vec![Digest32 { w0: 1, w1: 1, w2: 1, w3: 1 }]);
    let c = e.clone();
    assert_eq!(c.content_hash, e.content_hash);
    assert_eq!(c.author, e.author);
    assert_eq!(c.content, e.content);
    assert_eq!(c.metadata.len(), 1);
    assert_eq!(c.evidence, e.evidence);
}
