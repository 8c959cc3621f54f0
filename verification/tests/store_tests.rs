//! End-to-end scenarios over the content-addressed store.

use blackboard::config::BlackboardConfig;
use blackboard::entry::{BlackboardEntry, EntryType, EntryTier};
use blackboard::hashed::HashedBlackboard;
use blackboard::store::{BlackboardQuery, BlackboardError};

fn config(max_entries: usize, stm_ttl_seconds: u64, prune: bool) -> BlackboardConfig {
    let mut c = BlackboardConfig::default();
    c.max_entries = max_entries;
    c.stm_ttl_seconds = stm_ttl_seconds;
    c.prune_expired = prune;
    c
}

fn entry(author: &str, kind: EntryType, content: &str) -> BlackboardEntry {
    BlackboardEntry::new_at(author.to_string(), kind, content.to_string(), None, 1_000)
}

#[test]
fn cache_alignment_demo() {
    let mut board = HashedBlackboard::new(config(100, 0, false));
    let e1 = entry("A", EntryType::Fact, "x");
    let e2 = entry("B", EntryType::Decision, "go");
    let h1 = board.post(e1).unwrap();
    let h2 = board.post(e2).unwrap();
    board.advance_epoch();
    let s1 = board.snapshot_at(2_000).unwrap();
    let s2 = board.snapshot_at(2_000).unwrap();
    assert_eq!(s1.thumbprint, s2.thumbprint);
    let rendered = s1.as_prompt().to_owned();
    let decisions = rendered.find("## Decisions").expect("decisions section");
    let facts = rendered.find("## Facts").expect("facts section");
    assert!(decisions < facts);
    let hex1: String = blackboard::text::hex_encode(&h1.to_bytes())
        .chars()
        .take(8)
        .collect();
    let hex2: String = blackboard::text::hex_encode(&h2.to_bytes())
        .chars()
        .take(8)
        .collect();
    assert!(rendered.contains(&hex1));
    assert!(rendered.contains(&hex2));
}

#[test]
fn snapshot_purity_with_no_mutation() {
    let mut board = HashedBlackboard::new(config(100, 0, false));
    board.post(entry("A", EntryType::Fact, "one")).unwrap();
    board.post(entry("A", EntryType::Fact, "two")).unwrap();
    board.advance_epoch();
    let s1 = board.snapshot().unwrap();
    let s2 = board.snapshot().unwrap();
    assert_eq!(s1.thumbprint, s2.thumbprint);
    assert_eq!(s1.as_prompt(), s2.as_prompt());
}

#[test]
fn supersession_chain() {
    // Both posts land before any epoch advance: the superseded entry is
    // still staged when its successor tombstones it.
    let mut board = HashedBlackboard::new(config(100, 0, false));
    let e1 = entry("A", EntryType::Hypothesis, "maybe");
    let h1 = board.post(e1).unwrap();
    let e2 = BlackboardEntry::new_at(
        "A".to_string(),
        EntryType::Hypothesis,
        "no".to_string(),
        None,
        1_100,
    )
    .with_supersedes(vec![h1]);
    let h2 = board.post(e2).unwrap();
    let got = board.get(&h1).unwrap().expect("superseded entry still present");
    assert!(got.tombstoned);
    board.advance_epoch();
    let snap = board.snapshot_at(2_000).unwrap();
    assert_eq!(snap.len(), 1);
    assert_eq!(snap.entries[0].content_hash, h2);
}

#[test]
fn supersession_of_a_committed_entry() {
    let mut board = HashedBlackboard::new(config(100, 0, false));
    let e1 = entry("A", EntryType::Hypothesis, "maybe");
    let h1 = board.post(e1).unwrap();
    board.advance_epoch();
    let e2 = BlackboardEntry::new_at(
        "A".to_string(),
        EntryType::Fact,
        "confirmed".to_string(),
        None,
        1_100,
    )
    .with_supersedes(vec![h1]);
    let h2 = board.post(e2).unwrap();
    assert!(board.get(&h1).unwrap().unwrap().tombstoned);
    board.advance_epoch();
    let snap = board.snapshot_at(2_000).unwrap();
    assert_eq!(snap.len(), 1);
    assert_eq!(snap.entries[0].content_hash, h2);
}

#[test]
fn ttl_expiry_tombstone_mode() {
    // One-second short-term TTL; the entry is created at t=1000 ms.
    let mut board = HashedBlackboard::new(config(100, 1, false));
    let e = entry("A", EntryType::Observation, "fleeting").with_tier(EntryTier::Stm);
    board.post(e).unwrap();
    board.advance_epoch();
    // Within the TTL the entry is visible.
    let fresh = board.snapshot_at(1_500).unwrap();
    assert_eq!(fresh.len(), 1);
    // Two seconds later it has expired out of the snapshot.
    let mut board2 = HashedBlackboard::new(config(100, 1, false));
    let e2 = entry("A", EntryType::Observation, "fleeting").with_tier(EntryTier::Stm);
    board2.post(e2).unwrap();
    board2.advance_epoch();
    let stale = board2.snapshot_at(3_000).unwrap();
    assert_eq!(stale.len(), 0);
    // Without pruning, compaction keeps the expired entry in live.
    let stats = board2.compact_at(3_000).unwrap();
    assert_eq!(stats.entries_before, 1);
    assert_eq!(stats.entries_after, 1);
    assert_eq!(stats.pruned, 1);
}

#[test]
fn ttl_expiry_prune_mode() {
    let mut board = HashedBlackboard::new(config(100, 1, true));
    let e = entry("A", EntryType::Observation, "fleeting").with_tier(EntryTier::Stm);
    let h = board.post(e).unwrap();
    board.advance_epoch();
    let stats = board.compact_at(3_000).unwrap();
    assert_eq!(stats.entries_before, 1);
    assert_eq!(stats.entries_after, 0);
    assert!(board.get(&h).unwrap().is_none());
    // The canonical order no longer references the entry.
    let stats_kv = board.stats();
    assert_eq!(stats_kv[4].0, "canonical_order_len");
    assert_eq!(stats_kv[4].1, "0");
}

#[test]
fn capacity_enforcement() {
    let mut board = HashedBlackboard::new(config(3, 0, false));
    let mut hashes = Vec::new();
    for i in 0..5 {
        let e = entry("A", EntryType::Fact, &format!("fact number {}", i));
        hashes.push(board.post(e).unwrap());
    }
    board.advance_epoch();
    board.compact_at(2_000).unwrap();
    assert_eq!(board.len(), 3);
    // A batch enters the canonical order in ascending hash byte order, so
    // the two front-most hashes of that order are evicted and the three
    // rear-most survive.
    let mut in_order = hashes.clone();
    in_order.sort_by_key(|h| (h.w0, h.w1, h.w2, h.w3));
    assert!(board.get(&in_order[0]).unwrap().is_none());
    assert!(board.get(&in_order[1]).unwrap().is_none());
    assert!(board.get(&in_order[2]).unwrap().is_some());
    assert!(board.get(&in_order[3]).unwrap().is_some());
    assert!(board.get(&in_order[4]).unwrap().is_some());
}

#[test]
fn thumbprint_ignores_posting_order() {
    // The same entry set staged in opposite orders promotes to the same
    // canonical batch, so the thumbprints agree.
    let mut a = HashedBlackboard::new(config(100, 0, false));
    let mut b = HashedBlackboard::new(config(100, 0, false));
    let contents = ["one", "two", "three", "four"];
    for c in contents.iter() {
        a.post(entry("A", EntryType::Fact, c)).unwrap();
    }
    for c in contents.iter().rev() {
        b.post(entry("A", EntryType::Fact, c)).unwrap();
    }
    a.advance_epoch();
    b.advance_epoch();
    let ta = a.snapshot_at(5_000).unwrap().thumbprint;
    let tb = b.snapshot_at(5_000).unwrap().thumbprint;
    assert_eq!(ta, tb);
}

#[test]
fn idempotent_import() {
    let mut source = HashedBlackboard::new(config(100, 0, false));
    for i in 0..4 {
        let e = entry("A", EntryType::Fact, &format!("payload {}", i));
        source.post(e).unwrap();
    }
    source.advance_epoch();
    let payload = source.export_entries(None).unwrap();
    let mut sink = HashedBlackboard::new(config(100, 0, false));
    let imported = sink.import_entries(payload).unwrap();
    assert_eq!(imported.len(), 4);
    sink.advance_epoch();
    let s_src = source.snapshot_at(2_000).unwrap();
    let s_dst = sink.snapshot_at(2_000).unwrap();
    assert_eq!(s_src.thumbprint, s_dst.thumbprint);
    // Re-importing the same payload takes nothing in.
    let payload_again = source.export_entries(None).unwrap();
    let imported_again = sink.import_entries(payload_again).unwrap();
    assert_eq!(imported_again.len(), 0);
}

#[test]
fn import_validation_rejects_forged_hash() {
    let mut board = HashedBlackboard::new(config(100, 0, false));
    let mut forged = entry("A", EntryType::Fact, "true statement");
    forged.content = "tampered statement".to_string();
    let before = board.len();
    let result = board.import_entries(vec![forged]);
    match result {
        Err(BlackboardError::Serialization(_)) => {}
        _ => panic!("a forged hash must be a serialization error"),
    }
    assert_eq!(board.len(), before);
}

#[test]
fn query_by_index() {
    let mut board = HashedBlackboard::new(config(100, 0, false));
    let specs = [
        ("A", EntryType::Fact, "alpha one"),
        ("B", EntryType::Decision, "beta go"),
        ("A", EntryType::Decision, "alpha go"),
        ("B", EntryType::Fact, "beta two"),
        ("A", EntryType::Fact, "alpha three"),
    ];
    for (author, kind, content) in specs.iter() {
        board.post(entry(author, *kind, content)).unwrap();
    }
    board.advance_epoch();
    let by_author = board
        .query_at(&BlackboardQuery::by_author("A".to_string()), 2_000)
        .unwrap();
    assert_eq!(by_author.len(), 3);
    assert_eq!(by_author[0].content, "alpha one");
    assert_eq!(by_author[1].content, "alpha go");
    assert_eq!(by_author[2].content, "alpha three");
    for e in &by_author {
        assert_eq!(e.author, "A");
    }
    let decisions = board
        .query_at(&BlackboardQuery::by_type(EntryType::Decision), 2_000)
        .unwrap();
    assert_eq!(decisions.len(), 2);
    for e in &decisions {
        assert!(matches!(e.entry_type, EntryType::Decision));
    }
}

#[test]
fn query_text_and_confidence() {
    let mut board = HashedBlackboard::new(config(100, 0, false));
    board
        .post(entry("A", EntryType::Fact, "The Market Is Large").with_confidence(90))
        .unwrap();
    board
        .post(entry("B", EntryType::Fact, "niche detail").with_confidence(40))
        .unwrap();
    board.advance_epoch();
    let q = BlackboardQuery::new("market".to_string());
    let hits = board.query_at(&q, 2_000).unwrap();
    assert_eq!(hits.len(), 1);
    assert_eq!(hits[0].author, "A");
    let confident = board
        .query_at(&BlackboardQuery::default().with_limit(10).with_min_confidence(50), 2_000)
        .unwrap();
    assert_eq!(confident.len(), 1);
    assert_eq!(confident[0].author, "A");
}

#[test]
fn query_predicates_are_conjunctive() {
    let mut board = HashedBlackboard::new(config(100, 0, false));
    board.post(entry("A", EntryType::Decision, "go north")).unwrap();
    board.post(entry("B", EntryType::Decision, "go south")).unwrap();
    board.post(entry("A", EntryType::Fact, "north is cold")).unwrap();
    board.advance_epoch();
    let mut q = BlackboardQuery::by_type(EntryType::Decision);
    q.authors = Some(vec!["A".to_string()]);
    let hits = board.query_at(&q, 2_000).unwrap();
    assert_eq!(hits.len(), 1);
    assert_eq!(hits[0].author, "A");
    assert!(matches!(hits[0].entry_type, EntryType::Decision));
}

#[test]
fn tombstone_reaches_staged_entries() {
    let mut board = HashedBlackboard::new(config(100, 0, false));
    let h = board.post(entry("A", EntryType::Fact, "still staged")).unwrap();
    board.tombstone(&h).unwrap();
    assert!(board.get(&h).unwrap().unwrap().tombstoned);
}

#[test]
fn post_is_idempotent() {
    let mut board = HashedBlackboard::new(config(100, 0, false));
    let e1 = entry("A", EntryType::Fact, "same");
    let e2 = entry("A", EntryType::Fact, "same");
    let h1 = board.post(e1).unwrap();
    assert_eq!(board.len(), 1);
    let h2 = board.post(e2).unwrap();
    assert_eq!(h1, h2);
    assert_eq!(board.len(), 1);
}

#[test]
fn epoch_is_monotone() {
    let mut board = HashedBlackboard::new(config(100, 0, false));
    let mut last = board.epoch();
    for i in 0..4 {
        board.post(entry("A", EntryType::Fact, &format!("step {}", i))).unwrap();
        assert!(board.epoch() >= last);
        last = board.epoch();
        let next = board.advance_epoch();
        assert!(next > last);
        last = board.epoch();
        assert_eq!(next, last);
    }
    assert_eq!(last, 4);
}

#[test]
fn tombstone_missing_entry_is_not_found() {
    let mut board = HashedBlackboard::new(config(100, 0, false));
    let e = entry("A", EntryType::Fact, "present");
    let h = board.post(e).unwrap();
    let absent = blackboard::digest::Digest32 { w0: 1, w1: 2, w2: 3, w3: 4 };
    match board.tombstone(&absent) {
        Err(BlackboardError::NotFound(_)) => {}
        _ => panic!("a missing hash must be a not-found error"),
    }
    board.tombstone(&h).unwrap();
    assert!(board.get(&h).unwrap().unwrap().tombstoned);
}

#[test]
fn clear_empties_the_board_but_keeps_the_epoch() {
    let mut board = HashedBlackboard::new(config(100, 0, false));
    board.post(entry("A", EntryType::Fact, "gone soon")).unwrap();
    board.advance_epoch();
    board.clear().unwrap();
    assert_eq!(board.len(), 0);
    assert_eq!(board.epoch(), 1);
}

#[test]
fn thumbprint_deterministic_across_stores() {
    let mut a = HashedBlackboard::new(config(100, 0, false));
    let mut b = HashedBlackboard::new(config(100, 0, false));
    for board in [&mut a, &mut b] {
        board.post(entry("A", EntryType::Fact, "one")).unwrap();
        board.post(entry("B", EntryType::Decision, "two")).unwrap();
        board.advance_epoch();
    }
    let ta = a.snapshot_at(5_000).unwrap().thumbprint;
    let tb = b.snapshot_at(5_000).unwrap().thumbprint;
    assert_eq!(ta, tb);
}

#[test]
fn build_context_matches_snapshot_text() {
    let mut board = HashedBlackboard::new(config(100, 0, false));
    board.post(entry("A", EntryType::Fact, "context line")).unwrap();
    board.advance_epoch();
    let snap = board.snapshot().unwrap();
    let ctx = board.build_context_for_task("do things", "");
    assert_eq!(ctx, snap.as_prompt());
}

#[test]
fn stats_reports_the_store_shape() {
    let mut board = HashedBlackboard::new(config(100, 0, false));
    board.post(entry("A", EntryType::Fact, "live one")).unwrap();
    board.advance_epoch();
    board.post(entry("B", EntryType::Fact, "staged one")).unwrap();
    let kv = board.stats();
    assert_eq!(kv[0], ("flavor".to_string(), "hashed".to_string()));
    assert_eq!(kv[1], ("live_entries".to_string(), "1".to_string()));
    assert_eq!(kv[2], ("pending_entries".to_string(), "1".to_string()));
    assert_eq!(kv[3], ("epoch".to_string(), "1".to_string()));
    assert_eq!(kv[4], ("canonical_order_len".to_string(), "1".to_string()));
    assert_eq!(kv[5].0, "thumbprint");
    assert_eq!(kv[5].1.len(), 64);
}
