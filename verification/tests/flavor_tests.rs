//! The plain and vector-backed flavors, the factory, and the prompt
//! assembly and efficiency counters.

use blackboard::cache::{CacheEfficiency, anthropic_cache_marker,
    build_cached_message_array, PromptMessage, PromptBlock};
use blackboard::config::{Blackboard, BlackboardConfig, BlackboardFlavor,
    create_blackboard};
use blackboard::entry::{BlackboardEntry, EntryType};
use blackboard::lance::LanceBlackboard;
use blackboard::original::OriginalBlackboard;
use blackboard::store::{BlackboardQuery, BlackboardError};

fn entry(author: &str, kind: EntryType, content: &str) -> BlackboardEntry {
    BlackboardEntry::new_at(author.to_string(), kind, content.to_string(), None, 1_000)
}

#[test]
fn flavor_names_resolve() {
    assert!(matches!(BlackboardFlavor::from_name("hashed"), BlackboardFlavor::Hashed));
    assert!(matches!(BlackboardFlavor::from_name("blackboard"),
        BlackboardFlavor::Hashed));
    assert!(matches!(BlackboardFlavor::from_name("content-addressed"),
        BlackboardFlavor::Hashed));
    assert!(matches!(BlackboardFlavor::from_name("lance"), BlackboardFlavor::Lance));
    assert!(matches!(BlackboardFlavor::from_name("lancedb"), BlackboardFlavor::Lance));
    assert!(matches!(BlackboardFlavor::from_name("original"),
        BlackboardFlavor::Original));
    assert!(matches!(BlackboardFlavor::from_name("anything else"),
        BlackboardFlavor::Original));
}

#[test]
fn factory_selects_the_flavor() {
    let mut c = BlackboardConfig::default();
    assert!(matches!(create_blackboard(c.clone()), Blackboard::Original(_)));
    c.flavor = BlackboardFlavor::Hashed;
    assert!(matches!(create_blackboard(c.clone()), Blackboard::Hashed(_)));
    c.flavor = BlackboardFlavor::Lance;
    let board = create_blackboard(c);
    assert!(matches!(board, Blackboard::Lance(_)));
    assert_eq!(board.flavor_name(), "lance (fallback: hashed)");
}

#[test]
fn config_defaults() {
    let c = BlackboardConfig::default();
    assert!(matches!(c.flavor, BlackboardFlavor::Original));
    assert!(!c.prune_expired);
    assert!(c.separate_db);
    assert!(c.lance_s3_uri.is_none());
    assert_eq!(c.lance_path, "./blackboard_lance");
    assert_eq!(c.max_entries, 10_000);
    assert_eq!(c.stm_ttl_seconds, 3_600);
    assert_eq!(c.stm_ttl_ms(), 3_600_000);
}

#[test]
fn original_flavor_basics() {
    let mut board = OriginalBlackboard::new(BlackboardConfig::default());
    let h1 = board.post(entry("A", EntryType::Fact, "first")).unwrap();
    let dup = board.post(entry("A", EntryType::Fact, "first")).unwrap();
    assert_eq!(h1, dup);
    assert_eq!(board.len(), 1);
    board.post(entry("B", EntryType::Decision, "second")).unwrap();
    assert_eq!(board.len(), 2);
    let got = board.get(&h1).unwrap().expect("posted entry");
    assert_eq!(got.content, "first");
    let by_author = board
        .query_at(&BlackboardQuery::by_author("B".to_string()), 2_000)
        .unwrap();
    assert_eq!(by_author.len(), 1);
    assert_eq!(by_author[0].content, "second");
    let snap = board.snapshot_at(2_000).unwrap();
    assert_eq!(snap.epoch, 0);
    assert_eq!(snap.len(), 2);
    board.tombstone(&h1).unwrap();
    let snap2 = board.snapshot_at(2_000).unwrap();
    assert_eq!(snap2.len(), 1);
    let stats = board.compact_at(2_000).unwrap();
    assert_eq!(stats.entries_before, 2);
    assert_eq!(stats.entries_after, 1);
    assert_eq!(stats.tombstoned, 1);
    assert_eq!(stats.pruned, 1);
    assert_eq!(stats.superseded_removed, 0);
    assert_eq!(board.flavor_name(), "original");
    board.clear().unwrap();
    assert!(board.is_empty());
}

#[test]
fn original_context_builder_renders_matches() {
    let mut board = OriginalBlackboard::new(BlackboardConfig::default());
    board
        .post(entry("A", EntryType::Fact, "the market is large"))
        .unwrap();
    board
        .post(entry("B", EntryType::Fact, "unrelated detail"))
        .unwrap();
    let ctx = board.build_context_for_task_at(" The Market ", "", 2_000);
    assert_eq!(ctx, "Blackboard Context:\n- the market is large");
    let empty = board.build_context_for_task_at("  ", "", 2_000);
    assert_eq!(empty, "");
    let no_match = board.build_context_for_task_at("quantum", "", 2_000);
    assert_eq!(no_match, "");
}

#[test]
fn entries_are_identified_by_their_digest() {
    let a = entry("A", EntryType::Fact, "same words");
    let mut b = entry("A", EntryType::Fact, "same words");
    b.tombstoned = true;
    assert!(a.same_entry(&b));
    let c = entry("A", EntryType::Fact, "other words");
    assert!(!a.same_entry(&c));
}

#[test]
fn original_import_validates_hashes() {
    let mut board = OriginalBlackboard::new(BlackboardConfig::default());
    let mut forged = entry("A", EntryType::Fact, "true statement");
    forged.content = "tampered".to_string();
    match board.import_entries(vec![forged]) {
        Err(BlackboardError::Serialization(_)) => {}
        _ => panic!("a forged hash must be a serialization error"),
    }
    assert!(board.is_empty());
    let ok = board
        .import_entries(vec![entry("A", EntryType::Fact, "sound")])
        .unwrap();
    assert_eq!(ok.len(), 1);
    assert_eq!(board.len(), 1);
}

#[test]
fn lance_flavor_falls_back() {
    let mut board = LanceBlackboard::new(BlackboardConfig::default());
    assert_eq!(board.flavor_name(), "lance (fallback: hashed)");
    assert!(board.vector_search("anything", 5).is_empty());
    assert!(board.filter("tombstoned = false", 5).is_empty());
    match board.create_index() {
        Err(BlackboardError::Lance(_)) => {}
        _ => panic!("index creation without a backend must fail"),
    }
    match board.compact_lance() {
        Err(BlackboardError::Lance(_)) => {}
        _ => panic!("vector compaction without a backend must fail"),
    }
    let h = board.post(entry("A", EntryType::Fact, "stored")).unwrap();
    board.advance_epoch();
    assert_eq!(board.len(), 1);
    assert!(board.get(&h).unwrap().is_some());
    let snap = board.snapshot_at(2_000).unwrap();
    assert_eq!(snap.len(), 1);
    board.compact_at(2_000).unwrap();
    board.clear().unwrap();
    assert!(board.is_empty());
}

#[test]
fn message_array_places_the_cache_boundary() {
    let history = vec![PromptMessage {
        role: "assistant".to_string(),
        content: vec![PromptBlock { text: "earlier turn".to_string(),
            cache_boundary: false }],
    }];
    let messages = build_cached_message_array(
        "you are an agent".to_string(),
        "[Blackboard]".to_string(),
        "do the task".to_string(),
        history,
    );
    assert_eq!(messages.len(), 3);
    assert_eq!(messages[0].role, "system");
    assert_eq!(messages[0].content.len(), 2);
    assert_eq!(messages[0].content[0].text, "you are an agent");
    assert!(!messages[0].content[0].cache_boundary);
    assert_eq!(messages[0].content[1].text, "[Blackboard]");
    assert!(messages[0].content[1].cache_boundary);
    assert_eq!(messages[1].role, "user");
    assert_eq!(messages[1].content[0].text, "do the task");
    assert_eq!(messages[2].role, "assistant");
}

#[test]
fn empty_snapshot_means_no_boundary() {
    let messages = build_cached_message_array(
        "system text".to_string(),
        String::new(),
        "task".to_string(),
        Vec::new(),
    );
    assert_eq!(messages.len(), 2);
    assert_eq!(messages[0].content.len(), 1);
    assert!(!messages[0].content[0].cache_boundary);
    let marker = anthropic_cache_marker("snapshot text".to_string());
    assert!(marker.cache_boundary);
    assert_eq!(marker.text, "snapshot text");
}

#[test]
fn efficiency_counter_saturates_and_rates() {
    let mut eff = CacheEfficiency::default();
    eff.record_call(100, 40);
    assert_eq!(eff.total_prompt_tokens, 100);
    assert_eq!(eff.cached_tokens, 40);
    assert_eq!(eff.fresh_tokens, 60);
    assert_eq!(eff.cache_hits, 1);
    assert_eq!(eff.cache_misses, 0);
    eff.record_call(50, 0);
    assert_eq!(eff.fresh_tokens, 110);
    assert_eq!(eff.cache_misses, 1);
    // A call reporting more cached than sent leaves the fresh count alone.
    let fresh_before = eff.fresh_tokens;
    eff.record_call(10, 25);
    assert_eq!(eff.fresh_tokens, fresh_before);
    // Ratios in basis points: 2 hits of 3 calls; 65 of 160 tokens cached.
    assert_eq!(eff.hit_ratio(), 6_666);
    assert_eq!(eff.estimated_savings_ratio(), 65 * 9_000 / 160);
    let empty = CacheEfficiency::default();
    assert_eq!(empty.hit_ratio(), 0);
    assert_eq!(empty.estimated_savings_ratio(), 0);
}
