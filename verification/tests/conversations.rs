use wordlens::chat::{backend_unreachable_text, server_error_text, Conversations};
use wordlens::types::{Lens, Role};

#[test]
fn reply_stays_in_its_lens_after_switching() {
    let mut c = Conversations::new();
    let w = c.send(Lens::Cyberpunk, "  entropy ", false, "b1");
    assert_eq!(w.as_deref(), Some("entropy"));
    c.start_reply(Lens::Cyberpunk, "b1");
    // The user switches to another lens and sends there meanwhile.
    c.send(Lens::Simple, "love", false, "b2");
    c.start_reply(Lens::Simple, "b2");
    let done = c.extend_reply(Lens::Cyberpunk, "b1-reply", &vec![("Rain".to_string(), false), (String::new(), true)]);
    assert!(done);
    c.finish_reply(Lens::Cyberpunk, "b1-reply", None);
    let cp = c.messages(Lens::Cyberpunk);
    assert_eq!(cp.len(), 2);
    assert_eq!(cp[0].id, "b1-user");
    assert_eq!(cp[0].role, Role::User);
    assert_eq!(cp[0].content, "entropy");
    assert_eq!(cp[1].id, "b1-reply");
    assert_eq!(cp[1].lens, Some(Lens::Cyberpunk));
    assert_eq!(cp[1].content, "Rain");
    assert!(!cp[1].streaming);
    let sp = c.messages(Lens::Simple);
    assert_eq!(sp.len(), 2);
    assert_eq!(sp[1].content, "");
    assert!(sp[1].streaming);
    assert!(c.messages(Lens::Game).is_empty());
}

#[test]
fn send_refuses_empty_or_loading() {
    let mut c = Conversations::new();
    assert_eq!(c.send(Lens::Game, "   ", false, "x"), None);
    assert_eq!(c.send(Lens::Game, "word", true, "x"), None);
    assert!(c.messages(Lens::Game).is_empty());
}

#[test]
fn regenerate_truncates_after_last_user_message() {
    let mut c = Conversations::new();
    c.send(Lens::Learning, "gravity", false, "a");
    c.start_reply(Lens::Learning, "a");
    c.finish_reply(Lens::Learning, "a-reply", Some(&server_error_text(502)));
    assert_eq!(c.messages(Lens::Learning)[1].content, "Server error 502");
    let w = c.regenerate(Lens::Learning, "z");
    assert_eq!(w.as_deref(), Some("gravity"));
    let m = c.messages(Lens::Learning);
    assert_eq!(m.len(), 1);
    assert_eq!(m[0].id, "z-user");
    assert_eq!(c.regenerate(Lens::Poetic, "q"), None);
    c.clear(Lens::Learning);
    assert!(c.messages(Lens::Learning).is_empty());
}

#[test]
fn extend_missing_reply_changes_nothing() {
    let mut c = Conversations::new();
    c.send(Lens::Simple, "a", false, "k");
    assert!(!c.extend_reply(Lens::Simple, "nope", &vec![("x".to_string(), false)]));
    assert_eq!(c.messages(Lens::Simple).len(), 1);
    assert_eq!(c.messages(Lens::Simple)[0].content, "a");
}

#[test]
fn client_error_texts() {
    assert_eq!(
        backend_unreachable_text(),
        "Could not reach the WordLens backend. Is `cargo run` running on port 3001?"
    );
    assert_eq!(server_error_text(500), "Server error 500");
    assert_eq!(server_error_text(0), "Server error 0");
    assert_eq!(server_error_text(65535), "Server error 65535");
}
