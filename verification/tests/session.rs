use nezumi_ai_core::session::{chat_turn_messages, InMemoryStore};

#[test]
fn history_keeps_order() {
    let mut s = InMemoryStore::new();
    assert!(s.history().is_empty());
    s.add("user", "a");
    s.add("model", "b");
    let h = s.history();
    assert_eq!(h.len(), 2);
    assert_eq!((h[0].role.as_str(), h[0].content.as_str()), ("user", "a"));
    assert_eq!((h[1].role.as_str(), h[1].content.as_str()), ("model", "b"));
    s.clear();
    assert!(s.history().is_empty());
}

#[test]
fn turn_saved_with_cleaned_answer() {
    let mut s = InMemoryStore::new();
    s.commit_chat_turn("question", "<think>hmm</think> Answer <end_of_turn>");
    let h = s.history();
    assert_eq!(h.len(), 2);
    assert_eq!((h[0].role.as_str(), h[0].content.as_str()), ("user", "question"));
    assert_eq!((h[1].role.as_str(), h[1].content.as_str()), ("model", "Answer"));
}

#[test]
fn empty_answer_saves_nothing() {
    let mut s = InMemoryStore::new();
    s.commit_chat_turn("question", "  <think>only thoughts</think>  ");
    assert!(s.history().is_empty());
    assert!(chat_turn_messages("q", "").is_empty());
    assert_eq!(chat_turn_messages("q", "a").len(), 2);
}
