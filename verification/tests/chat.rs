use wordlens::chat::{apply_tokens, has_responses, prepare_send, regenerate_point};
use wordlens::types::Role;
use wordlens::types::Role::{Assistant, User};

#[test]
fn send_needs_text_and_idle() {
    assert_eq!(prepare_send("  entropy ", false), Some("entropy".to_string()));
    assert_eq!(prepare_send("   ", false), None);
    assert_eq!(prepare_send("entropy", true), None);
}

#[test]
fn regenerate_restarts_at_last_user_message() {
    assert_eq!(regenerate_point(&[User, Assistant, User, Assistant]), Some(2));
    assert_eq!(regenerate_point(&[User, Assistant, User]), Some(2));
    assert_eq!(regenerate_point(&[Assistant]), None);
    assert_eq!(regenerate_point(&[]), None);
}

#[test]
fn responses_present() {
    assert!(has_responses(&[Role::User, Role::Assistant]));
    assert!(!has_responses(&[Role::User]));
    assert!(!has_responses(&[]));
}

#[test]
fn tokens_extend_reply_until_done() {
    let mut c = "In".to_string();
    let done = apply_tokens(&mut c, &vec![(" the".to_string(), false), (" rain".to_string(), false)]);
    assert!(!done);
    assert_eq!(c, "In the rain");
    let done = apply_tokens(
        &mut c,
        &vec![(".".to_string(), false), (String::new(), true), ("after".to_string(), false)],
    );
    assert!(done);
    assert_eq!(c, "In the rain.");
}

#[test]
fn batches_give_the_same_reply() {
    let toks = vec![("a".to_string(), false), ("b".to_string(), false), (String::new(), true), ("c".to_string(), false)];
    let mut whole = String::new();
    let d_whole = apply_tokens(&mut whole, &toks);
    for cut in 0..=toks.len() {
        let mut c = String::new();
        let d1 = apply_tokens(&mut c, &toks[..cut].to_vec());
        let d2 = if d1 { false } else { apply_tokens(&mut c, &toks[cut..].to_vec()) };
        assert_eq!(c, whole);
        assert_eq!(d1 || d2, d_whole);
    }
    assert_eq!(whole, "ab");
}
