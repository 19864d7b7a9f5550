use wordlens::types::{default_limit, HistoryQuery, Lens};
use wordlens::{DEFAULT_HISTORY_LIMIT, MAX_HISTORY_ENTRIES};

#[test]
fn lens_display_is_lowercase() {
    assert_eq!(Lens::Simple.to_string(), "simple");
    assert_eq!(Lens::Cyberpunk.to_string(), "cyberpunk");
}

#[test]
fn lens_index_locates_lens_in_all() {
    let all = Lens::all();
    assert_eq!(all.len(), 5);
    for (i, l) in all.iter().enumerate() {
        assert_eq!(l.index(), i);
        assert_eq!(all[l.index()], *l);
    }
}

#[test]
fn lens_texts() {
    assert_eq!(Lens::Game.id(), "game");
    assert_eq!(Lens::Learning.as_str(), "learning");
    assert_eq!(Lens::Poetic.label(), "Poetic");
    assert_eq!(Lens::Simple.tagline(), "Clear & easy");
    assert_eq!(Lens::Poetic.tagline(), "Metaphorical & beautiful");
    assert_eq!(Lens::Cyberpunk.css_class(), "lens-cyberpunk");
}

#[test]
fn lens_ids_are_distinct() {
    let all = Lens::all();
    for a in all {
        for b in all {
            assert_eq!(a == b, a.id() == b.id());
        }
    }
}

#[test]
fn history_limit_defaults_and_caps() {
    assert_eq!(default_limit(), DEFAULT_HISTORY_LIMIT);
    assert_eq!(default_limit(), 20);
    assert_eq!(HistoryQuery { limit: 7 }.effective_limit(), 7);
    assert_eq!(HistoryQuery { limit: 500 }.effective_limit(), MAX_HISTORY_ENTRIES);
    assert_eq!(HistoryQuery { limit: 50 }.effective_limit(), 50);
}

#[test]
fn lens_descriptions_and_subtitles() {
    assert_eq!(Lens::Game.subtitle(), "Game lens · Interactive & fun");
    assert_eq!(Lens::Poetic.subtitle(), "Poetic lens · Metaphorical & beautiful");
    assert!(Lens::Cyberpunk.description().starts_with("Dark, futuristic, and tech-noir."));
    assert!(Lens::Simple.description().ends_with("without jargon."));
}
