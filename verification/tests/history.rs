use wordlens::history::{snippet, History, SNIPPET_CHARS};
use wordlens::types::Lens;
use wordlens::MAX_HISTORY_ENTRIES;

#[test]
fn recent_returns_newest_first() {
    let mut h = History::default();
    h.push("alpha".to_string(), Lens::Simple, "explanation alpha");
    h.push("beta".to_string(), Lens::Simple, "explanation beta");
    let recent = h.recent(10);
    assert_eq!(recent[0].word, "beta");
    assert_eq!(recent[1].word, "alpha");
}

#[test]
fn history_caps_at_max_entries() {
    let mut h = History::default();
    for i in 0..=MAX_HISTORY_ENTRIES {
        h.push(format!("word{i}"), Lens::Simple, "exp");
    }
    assert_eq!(h.recent(100).len(), MAX_HISTORY_ENTRIES);
}

#[test]
fn snippet_truncated_at_120_chars() {
    let mut h = History::default();
    let long = "x".repeat(200);
    h.push("word".to_string(), Lens::Simple, &long);
    let recent = h.recent(1);
    assert_eq!(recent[0].snippet.chars().count(), 120);
}

#[test]
fn recent_limit_respected() {
    let mut h = History::default();
    for i in 0..10 {
        h.push(format!("w{i}"), Lens::Simple, "exp");
    }
    assert_eq!(h.recent(3).len(), 3);
}

#[test]
fn empty_history_returns_empty_vec() {
    let h = History::default();
    assert!(h.recent(10).is_empty());
}

#[test]
fn full_history_drops_oldest_entry() {
    let mut h = History::new();
    for i in 0..MAX_HISTORY_ENTRIES + 3 {
        h.push_at(format!("w{i}"), Lens::Game, "text", i as i64);
    }
    assert_eq!(h.len(), MAX_HISTORY_ENTRIES);
    let all = h.recent(MAX_HISTORY_ENTRIES);
    assert_eq!(all[0].word, format!("w{}", MAX_HISTORY_ENTRIES + 2));
    assert_eq!(all[0].timestamp, (MAX_HISTORY_ENTRIES + 2) as i64);
    assert_eq!(all[MAX_HISTORY_ENTRIES - 1].word, "w3");
}

#[test]
fn pushed_entry_is_read_back_first() {
    let mut h = History::new();
    h.push_at("entropy".to_string(), Lens::Poetic, "Disorder grows.", 1_744_000_000);
    h.push_at("gravity".to_string(), Lens::Learning, "Mass attracts mass.", 1_744_000_060);
    let r = h.recent(1);
    assert_eq!(r.len(), 1);
    assert_eq!(r[0].word, "gravity");
    assert_eq!(r[0].lens, Lens::Learning);
    assert_eq!(r[0].snippet, "Mass attracts mass.");
    assert_eq!(r[0].timestamp, 1_744_000_060);
    let r = h.recent(5);
    assert_eq!(r.len(), 2);
    assert_eq!(r[1].word, "entropy");
}

#[test]
fn snippet_counts_characters_not_bytes() {
    let long = "é".repeat(130);
    let s = snippet(&long);
    assert_eq!(s.chars().count(), SNIPPET_CHARS);
    assert_eq!(snippet("short"), "short");
    assert_eq!(snippet(""), "");
}

#[test]
fn push_records_a_timestamp() {
    let mut h = History::new();
    h.push("now".to_string(), Lens::Simple, "x");
    let r = h.recent(1);
    assert_eq!(r[0].word, "now");
    assert!(r[0].timestamp > 1_600_000_000);
}
