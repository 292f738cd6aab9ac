use nezumi_ai_core::chat::{mentions_qwen, plan_model_load};
use nezumi_ai_core::engines::selector::{HardwareProfile, ModelFormat, UserPreference};
use nezumi_ai_core::engines::EngineType;
use nezumi_ai_core::session::Message;
use nezumi_ai_core::{Config, PromptSettings};

#[test]
fn qwen_model_appends_no_think_to_last_user_message() {
    let core = PromptSettings {
        system_prompt: None,
        thinking: false,
        model_path: Some("/models/Qwen3.5-4B-Q4_K_M.gguf".to_string()),
    };

    let messages = core.build_chat_messages(&[], "こんにちは");
    assert_eq!(messages.len(), 1);
    assert_eq!(messages[0].role, "user");
    assert_eq!(messages[0].content, "こんにちは\n/no_think");
}

#[test]
fn no_think_added_to_system_prompt() {
    let s = PromptSettings {
        system_prompt: Some("Be brief.".to_string()),
        thinking: false,
        model_path: Some("gemma.gguf".to_string()),
    };
    let history = vec![
        Message { role: "user".to_string(), content: "hi".to_string() },
        Message { role: "model".to_string(), content: "hello".to_string() },
    ];
    let m = s.build_chat_messages(&history, "bye");
    assert_eq!(m.len(), 4);
    assert_eq!((m[0].role.as_str(), m[0].content.as_str()), ("system", "Be brief. NO_THINK"));
    assert_eq!((m[1].role.as_str(), m[1].content.as_str()), ("user", "hi"));
    assert_eq!((m[2].role.as_str(), m[2].content.as_str()), ("model", "hello"));
    assert_eq!((m[3].role.as_str(), m[3].content.as_str()), ("user", "bye"));
}

#[test]
fn system_prompt_that_mentions_think_is_kept() {
    let s = PromptSettings {
        system_prompt: Some("THINK hard".to_string()),
        thinking: false,
        model_path: None,
    };
    let m = s.build_chat_messages(&[], "q");
    assert_eq!(m[0].content, "THINK hard");
    let e = PromptSettings { system_prompt: Some(String::new()), thinking: false, model_path: None };
    assert_eq!(e.build_chat_messages(&[], "q")[0].content, "NO_THINK");
}

#[test]
fn default_system_messages() {
    let plain = PromptSettings { system_prompt: None, thinking: false, model_path: None };
    let m = plain.build_chat_messages(&[], "q");
    assert_eq!((m[0].role.as_str(), m[0].content.as_str()), ("system", "NO_THINK"));
    let think = PromptSettings {
        system_prompt: None,
        thinking: true,
        model_path: Some("qwen.gguf".to_string()),
    };
    assert!(think.thinking_enabled());
    assert!(!think.should_use_qwen_instant_directive());
    let m = think.build_chat_messages(&[], "q");
    assert_eq!(m.len(), 2);
    assert!(m[0].content.starts_with("You are a helpful assistant. Think through"));
    assert_eq!(m[1].content, "q");
}

#[test]
fn qwen_system_prompt_left_alone() {
    let s = PromptSettings {
        system_prompt: Some("Sys".to_string()),
        thinking: false,
        model_path: Some("C:/m/QWEN-7b.gguf".to_string()),
    };
    assert!(s.should_use_qwen_instant_directive());
    let m = s.build_chat_messages(&[], "x");
    assert_eq!(m[0].content, "Sys");
    assert_eq!(m[1].content, "x\n/no_think");
    assert!(mentions_qwen("/models/qwen3"));
    assert!(!mentions_qwen("/models/QWEN3"));
}

#[test]
fn loading_plan_picks_a_supporting_engine() {
    let hw = HardwareProfile { has_cuda: false, has_metal: false, has_vulkan: false };
    let (engine, meta) = plan_model_load("a.litertlm", &hw, &UserPreference::Auto).ok().unwrap();
    assert_eq!(engine, EngineType::LiteRT);
    assert_eq!(meta.format, ModelFormat::TfLite);
    let (engine, _) = plan_model_load("b.GGUF", &hw, &UserPreference::SpeedFirst).ok().unwrap();
    assert_eq!(engine, EngineType::Llama);
}

#[test]
fn default_config() {
    let c = Config::default();
    assert!(c.db_path.is_none());
    assert_eq!(c.preference, UserPreference::Auto);
    assert!(c.system_prompt.is_none());
    assert!(!c.thinking);
}
