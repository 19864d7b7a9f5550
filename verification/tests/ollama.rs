use wordlens::error::AppError;
use wordlens::ollama::{
    absorb_chunk, build_prompt, cache_key, explanation_text, lens_token_limit, nonempty_lines,
    ollama_body, prompt_template, validate_request, OllamaChunk, MAX_WORD_LEN, NUM_CTX,
};
use wordlens::types::{ExplainRequest, Lens};

fn req(word: &str, lens: Lens) -> ExplainRequest {
    ExplainRequest { word: word.to_string(), lens, stream: false }
}

const ALL: [Lens; 5] = [Lens::Simple, Lens::Learning, Lens::Game, Lens::Cyberpunk, Lens::Poetic];

#[test]
fn empty_word_rejected() {
    assert!(validate_request(&req("", Lens::Simple)).is_err());
}

#[test]
fn whitespace_word_rejected() {
    assert!(validate_request(&req("   ", Lens::Simple)).is_err());
}

#[test]
fn word_at_limit_passes() {
    let w = "a".repeat(MAX_WORD_LEN);
    assert!(validate_request(&req(&w, Lens::Simple)).is_ok());
}

#[test]
fn word_over_limit_rejected() {
    let w = "a".repeat(MAX_WORD_LEN + 1);
    assert!(validate_request(&req(&w, Lens::Simple)).is_err());
}

#[test]
fn multibyte_chars_count_as_one_each() {
    let w = "é".repeat(MAX_WORD_LEN);
    assert!(validate_request(&req(&w, Lens::Simple)).is_ok());
    let w = "é".repeat(MAX_WORD_LEN + 1);
    assert!(validate_request(&req(&w, Lens::Simple)).is_err());
}

#[test]
fn build_prompt_substitutes_word_for_all_lenses() {
    for lens in ALL {
        let p = build_prompt("quantum", lens);
        assert!(p.contains("quantum"), "{lens:?}: word not in prompt");
        assert!(!p.contains("{word}"), "{lens:?}: placeholder not replaced");
    }
}

#[test]
fn token_limits_all_positive() {
    for lens in ALL {
        assert!(lens_token_limit(lens) > 0, "{lens:?}: token limit is zero");
    }
}

#[test]
fn validation_messages() {
    match validate_request(&req(" \t ", Lens::Game)) {
        Err(AppError::InvalidRequest(m)) => assert_eq!(m, "Word cannot be empty."),
        _ => panic!("expected an invalid request"),
    }
    let w = "b".repeat(MAX_WORD_LEN + 5);
    match validate_request(&req(&w, Lens::Game)) {
        Err(AppError::InvalidRequest(m)) => assert_eq!(m, "Word is too long (max 200 characters)."),
        _ => panic!("expected an invalid request"),
    }
}

#[test]
fn validation_counts_the_trimmed_word() {
    let w = format!("   {}   ", "a".repeat(MAX_WORD_LEN));
    assert!(validate_request(&req(&w, Lens::Simple)).is_ok());
    assert!(validate_request(&req("\u{3000}\u{00A0}\n", Lens::Simple)).is_err());
}

#[test]
fn prompt_is_template_with_trimmed_word() {
    for lens in ALL {
        let expected = prompt_template(lens).replace("{word}", "entropy");
        assert_eq!(build_prompt("  entropy\n", lens), expected);
    }
    let p = build_prompt("love", Lens::Cyberpunk);
    assert!(p.contains("SUBJECT: love\n"));
}

#[test]
fn token_limits_per_lens() {
    assert_eq!(lens_token_limit(Lens::Simple), 180);
    assert_eq!(lens_token_limit(Lens::Learning), 520);
    assert_eq!(lens_token_limit(Lens::Game), 420);
    assert_eq!(lens_token_limit(Lens::Cyberpunk), 320);
    assert_eq!(lens_token_limit(Lens::Poetic), 360);
}

#[test]
fn body_carries_its_arguments() {
    let b = ollama_body("llama3", "Explain x", true, 320);
    assert_eq!(b.model, "llama3");
    assert_eq!(b.prompt, "Explain x");
    assert!(b.stream);
    assert_eq!(b.num_predict, 320);
    assert_eq!(b.num_ctx, NUM_CTX);
    assert_eq!(NUM_CTX, 2048);
}

#[test]
fn cache_key_trims_and_lowercases() {
    let (w, l) = cache_key("  ENTROPY ", Lens::Poetic);
    assert_eq!(w, "entropy");
    assert_eq!(l, Lens::Poetic);
    let (w, _) = cache_key("Ärger", Lens::Simple);
    assert_eq!(w, "ärger");
}

#[test]
fn explanation_text_trims_or_gives_notice() {
    assert_eq!(explanation_text("  Entropy is disorder.\n"), "Entropy is disorder.");
    assert_eq!(explanation_text(" \n\t"), "No response generated.");
    assert_eq!(explanation_text(""), "No response generated.");
}

#[test]
fn nonempty_lines_skips_blank_lines() {
    let lines = nonempty_lines("{\"a\":1}\n\n  \r\n{\"b\":2}\r\n{\"c\":3}");
    assert_eq!(lines, vec!["{\"a\":1}", "{\"b\":2}", "{\"c\":3}"]);
    assert!(nonempty_lines("").is_empty());
    assert!(nonempty_lines("\n \n").is_empty());
}

#[test]
fn absorb_chunk_accumulates_text() {
    let mut full = String::new();
    let (t, d) = absorb_chunk(&mut full, &OllamaChunk { response: "Hel".to_string(), done: false });
    assert_eq!(t.as_deref(), Some("Hel"));
    assert!(!d);
    let (t, d) = absorb_chunk(&mut full, &OllamaChunk { response: "lo".to_string(), done: false });
    assert_eq!(t.as_deref(), Some("lo"));
    assert!(!d);
    let (t, d) = absorb_chunk(&mut full, &OllamaChunk { response: String::new(), done: true });
    assert_eq!(t, None);
    assert!(d);
    assert_eq!(full, "Hello");
}

#[test]
fn cache_key_ignores_surrounding_whitespace() {
    assert_eq!(cache_key(" Irony\t", Lens::Game), cache_key("Irony", Lens::Game));
    assert_ne!(cache_key("Irony", Lens::Game), cache_key("Irony", Lens::Simple));
}
