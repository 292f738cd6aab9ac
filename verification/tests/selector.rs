use nezumi_ai_core::engines::selector::{
    parse_context_len_hint, EngineSelector, HardwareProfile, ModelFormat, ModelMeta, Quantization,
    UserPreference,
};
use nezumi_ai_core::engines::{EngineType, LoadConfig};

#[test]
fn gguf_without_gpu_uses_llama() {
    let meta = ModelMeta::from_path("gemma-3-1b-it-q4_k_m.gguf");
    let hw = HardwareProfile {
        has_cuda: false,
        has_metal: false,
        has_vulkan: false,
    };
    let pref = UserPreference::Auto;

    assert_eq!(EngineSelector::select(&meta, &hw, &pref), EngineType::Llama);
}

#[test]
fn parses_context_len_from_filename() {
    let meta = ModelMeta::from_path("model-32k-q4.gguf");
    assert_eq!(meta.context_len, Some(32 * 1024));
}

#[test]
fn litertlm_uses_litert_whatever_the_hardware() {
    let meta = ModelMeta::from_path("gemma3-1b-it-int4.litertlm");
    assert_eq!(meta.format, ModelFormat::TfLite);
    let hw = HardwareProfile { has_cuda: true, has_metal: true, has_vulkan: true };
    for pref in [UserPreference::Auto, UserPreference::SpeedFirst, UserPreference::QualityFirst] {
        assert_eq!(EngineSelector::select(&meta, &hw, &pref), EngineType::LiteRT);
    }
}

#[test]
fn upper_case_extension_is_recognised() {
    // The lower-case form decides, so the wrapper around `to_lowercase` matters here.
    let meta = ModelMeta::from_path("/models/Qwen3.5-4B-Q4_K_M.GGUF");
    assert_eq!(meta.format, ModelFormat::Gguf);
    assert_eq!(meta.quantization, Quantization::Medium);
    assert_eq!(meta.path, "/models/Qwen3.5-4B-Q4_K_M.GGUF");
    let t = ModelMeta::from_path("MODEL.TFLITE");
    assert_eq!(t.format, ModelFormat::TfLite);
}

#[test]
fn unknown_format_goes_to_llama() {
    let meta = ModelMeta::from_path("weights.bin");
    assert_eq!(meta.format, ModelFormat::Unknown);
    assert_eq!(meta.quantization, Quantization::Unknown);
    assert_eq!(meta.context_len, None);
    let hw = HardwareProfile { has_cuda: false, has_metal: false, has_vulkan: false };
    let engine = EngineSelector::select(&meta, &hw, &UserPreference::Auto);
    assert_eq!(engine, EngineType::Llama);
    assert!(engine.supports(&meta));
    assert!(!EngineType::LiteRT.supports(&meta));
}

#[test]
fn quantization_levels() {
    assert_eq!(ModelMeta::from_path("m-f16.gguf").quantization, Quantization::High);
    assert_eq!(ModelMeta::from_path("m-q8_0.gguf").quantization, Quantization::High);
    assert_eq!(ModelMeta::from_path("m-q6_k.gguf").quantization, Quantization::Medium);
    assert_eq!(ModelMeta::from_path("m-q3_k_s.gguf").quantization, Quantization::Low);
    assert_eq!(ModelMeta::from_path("m-q2.gguf").quantization, Quantization::Low);
}

#[test]
fn context_hints_in_order() {
    assert_eq!(parse_context_len_hint("model-128k.gguf"), Some(131072));
    assert_eq!(parse_context_len_hint("model-64k.gguf"), Some(65536));
    assert_eq!(parse_context_len_hint("model-16k.gguf"), Some(16384));
    assert_eq!(parse_context_len_hint("model-8k.gguf"), Some(8192));
    assert_eq!(parse_context_len_hint("model.gguf"), None);
    // The upper-case form is only seen through `from_path`.
    assert_eq!(ModelMeta::from_path("M-64K.gguf").context_len, Some(65536));
}

#[test]
fn gpu_and_defaults() {
    let hw = HardwareProfile { has_cuda: false, has_metal: true, has_vulkan: false };
    assert!(hw.has_gpu());
    let none = HardwareProfile { has_cuda: false, has_metal: false, has_vulkan: false };
    assert!(!none.has_gpu());
    let d = LoadConfig::default();
    assert_eq!((d.n_gpu_layers, d.n_ctx), (0, 2048));
    let g = LoadConfig::gpu(20);
    assert_eq!((g.n_gpu_layers, g.n_ctx), (20, 2048));
    let f = LoadConfig::full_gpu();
    assert_eq!((f.n_gpu_layers, f.n_ctx), (999, 2048));
    assert_eq!(UserPreference::default(), UserPreference::Auto);
}
