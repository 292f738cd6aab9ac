use nezumi_ai_core::engines::litert::{
    build_chat_prompt, check_model_path, decode_available, wrap_input_prompt, LiteRtOutputParser,
};
use nezumi_ai_core::engines::ChatMessage;
use nezumi_ai_core::error::NezumiError;

#[test]
fn chat_prompt_layout() {
    let ms = vec![
        ChatMessage::new("system", "Be kind."),
        ChatMessage::new("user", "Hi"),
        ChatMessage::new("model", "Hello"),
        ChatMessage::new("tool", "ignored"),
        ChatMessage::new("assistant", "Again"),
        ChatMessage::new("system", "Second."),
    ];
    assert_eq!(
        build_chat_prompt(&ms),
        "Be kind.\n\nSecond.\n\nUser: Hi\nAssistant: Hello\nAssistant: Again\nAssistant:"
    );
    assert_eq!(build_chat_prompt(&[]), "Assistant:");
}

#[test]
fn input_prompt_wrapping() {
    assert_eq!(
        wrap_input_prompt("Hi"),
        "<start_of_turn>user\nHi<end_of_turn>\n<start_of_turn>model\n"
    );
    let already = "<start_of_turn>user\nx<end_of_turn>";
    assert_eq!(wrap_input_prompt(already), already);
}

#[test]
fn model_path_check() {
    assert!(check_model_path("m.litertlm").is_ok());
    assert!(check_model_path("M.TFLITE").is_ok());
    match check_model_path("m.gguf") {
        Err(NezumiError::UnsupportedModel(m)) => {
            assert_eq!(m, "LiteRT-LM expects a .litertlm model file, got: m.gguf")
        }
        _ => panic!("expected UnsupportedModel"),
    }
}

#[test]
fn reply_is_picked_out() {
    let mut p = LiteRtOutputParser::new();
    let s = p.feed("loading...\nprompt echo <start_of_");
    assert!(s.output.is_none() && !s.stop && !p.is_started());
    let s = p.feed("turn>model\n  Hello");
    assert_eq!(s.output.as_deref(), Some("Hello"));
    assert!(!s.stop && p.is_started());
    let s = p.feed(" world");
    assert_eq!(s.output.as_deref(), Some(" world"));
    let s = p.feed("!\nUser: more");
    assert_eq!(s.output.as_deref(), Some("!"));
    assert!(s.stop);
    assert!(p.finish().is_none());
}

#[test]
fn assistant_marker_and_benchmark_stop() {
    let mut p = LiteRtOutputParser::new();
    let s = p.feed("User: q\nAssistant: first\nAssistant: Reply text BenchmarkInfo: 3 tok/s");
    assert_eq!(s.output.as_deref(), Some("Reply text"));
    assert!(s.stop);
    let mut q = LiteRtOutputParser::new();
    let s = q.feed("\nAssistant:x benchmark_info");
    assert_eq!(s.output.as_deref(), Some("x"));
    assert!(s.stop);
}

#[test]
fn long_preamble_is_bounded() {
    let mut p = LiteRtOutputParser::new();
    let noise = "é".repeat(3000);
    let s = p.feed(&noise);
    assert!(s.output.is_none());
    let s = p.feed("\nAssistant: ok");
    assert_eq!(s.output.as_deref(), Some("ok"));
}

#[test]
fn utf8_split_across_reads() {
    let bytes = "aé".as_bytes().to_vec();
    let mut pending = bytes[..2].to_vec();
    assert_eq!(decode_available(&mut pending), "a");
    assert_eq!(pending, vec![bytes[1]]);
    pending.push(bytes[2]);
    assert_eq!(decode_available(&mut pending), "é");
    assert!(pending.is_empty());
    let mut all = "日本".as_bytes().to_vec();
    assert_eq!(decode_available(&mut all), "日本");
}
