use wordlens::answer::{after_cache_lookup, fresh_response, recording_for, CacheLookup};
use wordlens::types::{ExplainRequest, Lens};

fn req(stream: bool) -> ExplainRequest {
    ExplainRequest { word: "Entropy".to_string(), lens: Lens::Poetic, stream }
}

#[test]
fn cache_hit_answers_with_cached_text() {
    match after_cache_lookup(&req(false), Some("Disorder.".to_string())) {
        CacheLookup::Reply(r) => {
            assert_eq!(r.explanation, "Disorder.");
            assert!(r.cached);
            assert_eq!(r.word, "Entropy");
            assert_eq!(r.lens, Lens::Poetic);
        }
        _ => panic!("expected a cached reply"),
    }
    match after_cache_lookup(&req(true), Some("Disorder.".to_string())) {
        CacheLookup::Burst(t) => assert_eq!(t, "Disorder."),
        _ => panic!("expected a burst"),
    }
}

#[test]
fn cache_miss_asks_the_model() {
    assert!(matches!(after_cache_lookup(&req(false), None), CacheLookup::AskModel));
    assert!(matches!(after_cache_lookup(&req(true), None), CacheLookup::AskModel));
}

#[test]
fn fresh_answers_are_not_marked_cached() {
    let r = fresh_response("word".to_string(), Lens::Game, "text".to_string());
    assert!(!r.cached);
    assert_eq!(r.explanation, "text");
    assert_eq!(r.word, "word");
    assert_eq!(r.lens, Lens::Game);
}

#[test]
fn streamed_answers_are_recorded_not_cached() {
    let s = recording_for(true);
    assert!(s.history && !s.cache);
    let j = recording_for(false);
    assert!(j.history && j.cache);
}

use wordlens::answer::{read_error_event, relay_chunks, timeout_event, RelayEvent};
use wordlens::ollama::OllamaChunk;

fn chunk(r: &str, done: bool) -> Option<OllamaChunk> {
    Some(OllamaChunk { response: r.to_string(), done })
}

fn show(e: &RelayEvent) -> (u8, String) {
    match e {
        RelayEvent::Token(t) => (0, t.clone()),
        RelayEvent::Done(t) => (1, t.clone()),
        RelayEvent::Error(t) => (2, t.clone()),
    }
}

#[test]
fn relay_sends_tokens_then_done_with_whole_answer() {
    let mut full = "In ".to_string();
    let evs = relay_chunks(&mut full, &vec![chunk("the", false), None, chunk("", false), chunk(" rain", true)]);
    let shown: Vec<_> = evs.iter().map(show).collect();
    assert_eq!(
        shown,
        vec![(0, "the".to_string()), (0, " rain".to_string()), (1, "In the rain".to_string())]
    );
    assert_eq!(full, "In the rain");
    let evs = relay_chunks(&mut full, &vec![chunk("", true)]);
    assert_eq!(evs.iter().map(show).collect::<Vec<_>>(), vec![(1, "In the rain".to_string())]);
}

#[test]
fn relay_error_texts() {
    assert_eq!(show(&read_error_event("reset")), (2, "Stream read error: reset".to_string()));
    assert_eq!(show(&timeout_event()), (2, "Stream timed out".to_string()));
}
