use file_explorer::generation::TokenLoop;

#[test]
fn cache_feeds_one_position_after_first_step() {
    let mut l = TokenLoop::new(4, 2, true);
    assert_eq!(l.context(10), (10, 0));
    l.fed(10);
    assert!(l.accept(7));
    l.advance();
    assert_eq!(l.context(11), (1, 10));
    let mut plain = TokenLoop::new(4, 2, false);
    plain.advance();
    assert_eq!(plain.context(11), (11, 0));
}

#[test]
fn stops_at_end_token_or_limit() {
    let mut l = TokenLoop::new(2, 2, true);
    assert!(l.accept(5));
    l.advance();
    assert!(!l.accept(2));
    assert!(!l.is_running());
    assert_eq!(l.token_ids, vec![5]);
    let mut m = TokenLoop::new(1, 2, true);
    assert!(m.is_running());
    m.accept(3);
    m.advance();
    assert!(!m.is_running());
}

#[test]
fn streamed_text_per_token() {
    let mut l = TokenLoop::new(10, 0, true);
    assert_eq!(l.stream_step(Some("He".into()), Some("He".into())), Some("He".to_string()));
    assert_eq!(l.last_decoded_len, 2);
    assert_eq!(l.stream_step(Some(String::new()), Some("Hello".into())), Some("llo".to_string()));
    assert_eq!(l.last_decoded_len, 5);
    assert_eq!(l.stream_step(None, Some("Hello".into())), None);
    assert_eq!(l.stream_step(Some("!".into()), Some("Hello!".into())), Some("!".to_string()));
    assert_eq!(l.last_decoded_len, 5);
    assert_eq!(l.step, 4);
}

#[test]
fn kept_tokens_stay_within_limit() {
    let mut l = TokenLoop::new(2, 0, false);
    while l.is_running() {
        l.accept(9);
        l.advance();
    }
    assert_eq!(l.token_ids, vec![9, 9]);
    assert!(l.token_ids.len() <= l.max_new_tokens);
}
