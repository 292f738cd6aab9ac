use nezumi_ai_core::engines::llama::{
    check_chat_messages, check_model_path, check_prompt, contains_nul, generation_max_tokens,
};
use nezumi_ai_core::engines::ChatMessage;
use nezumi_ai_core::error::NezumiError;

#[test]
fn token_limit() {
    assert_eq!(generation_max_tokens(None), 512);
    assert_eq!(generation_max_tokens(Some(64)), 64);
    assert_eq!(generation_max_tokens(Some(usize::MAX)), usize::MAX as i32);
}

#[test]
fn nul_checks() {
    assert!(contains_nul("a\0b"));
    assert!(!contains_nul("ab"));
    assert!(check_model_path("m.gguf").is_ok());
    assert!(matches!(check_model_path("m\0.gguf"), Err(NezumiError::ModelLoadFailed(m)) if m == "invalid path"));
    assert!(matches!(check_prompt("p\0"), Err(NezumiError::InferenceError(m)) if m == "invalid prompt"));
    let good = vec![ChatMessage::new("user", "hi")];
    assert!(check_chat_messages(&good).is_ok());
    let both = vec![ChatMessage::new("user", "h\0i"), ChatMessage::new("us\0er", "hi")];
    assert!(matches!(check_chat_messages(&both), Err(NezumiError::InferenceError(m)) if m == "invalid chat role"));
    let content = vec![ChatMessage::new("user", "h\0i")];
    assert!(matches!(check_chat_messages(&content), Err(NezumiError::InferenceError(m)) if m == "invalid chat content"));
}
