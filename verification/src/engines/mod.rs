//! Inference backends: which engine runs a model and how it is configured.
use vstd::prelude::*;

pub mod litert;
pub mod llama;
pub mod selector;

use selector::{ModelFormat, ModelMeta};

verus! {

/// The two inference backends.
#[derive(Debug, Clone, Copy, PartialEq, Eq, Structural)]
pub enum EngineType {
    /// llama.cpp, for GGUF models.
    Llama,
    /// LiteRT-LM, for `.litertlm` / `.tflite` models.
    LiteRT,
}

/// Whether an engine can run a model of the given format.
pub open spec fn engine_supports(engine: EngineType, format: ModelFormat) -> bool {
    match engine {
        EngineType::Llama => format is Gguf || format is Unknown,
        EngineType::LiteRT => format is TfLite,
    }
}

impl EngineType {
    /// Whether this engine can run the model described by `meta`.
    pub fn supports(self, meta: &ModelMeta) -> (r: bool)
        ensures
            r == engine_supports(self, meta.format),
    {
        match self {
            EngineType::Llama => match meta.format {
                ModelFormat::Gguf | ModelFormat::Unknown => true,
                ModelFormat::TfLite => false,
            },
            EngineType::LiteRT => match meta.format {
                ModelFormat::TfLite => true,
                ModelFormat::Gguf | ModelFormat::Unknown => false,
            },
        }
    }
}

/// How a model is loaded: how many layers go to the GPU, and the context size.
#[derive(Debug, Clone)]
pub struct LoadConfig {
    pub n_gpu_layers: i32,
    pub n_ctx: i32,
}

impl Default for LoadConfig {
    /// CPU only, with a context of 2048 tokens.
    fn default() -> (c: Self)
        ensures
            c.n_gpu_layers == 0,
            c.n_ctx == 2048,
    {
        LoadConfig { n_gpu_layers: 0, n_ctx: 2048 }
    }
}

impl LoadConfig {
    /// `n_gpu_layers` layers on the GPU, with a context of 2048 tokens.
    pub fn gpu(n_gpu_layers: i32) -> (c: Self)
        ensures
            c.n_gpu_layers == n_gpu_layers,
            c.n_ctx == 2048,
    {
        LoadConfig { n_gpu_layers, n_ctx: 2048 }
    }

    /// Every layer on the GPU (999 layers), with a context of 2048 tokens.
    pub fn full_gpu() -> (c: Self)
        ensures
            c.n_gpu_layers == 999,
            c.n_ctx == 2048,
    {
        LoadConfig { n_gpu_layers: 999, n_ctx: 2048 }
    }
}

/// One message of a conversation as it is handed to an engine.
#[derive(Debug, Clone)]
pub struct ChatMessage {
    pub role: String,
    pub content: String,
}

impl View for ChatMessage {
    type V = (Seq<char>, Seq<char>);

    open spec fn view(&self) -> (Seq<char>, Seq<char>) {
        (self.role@, self.content@)
    }
}

/// The views of a list of chat messages, in order.
pub open spec fn chat_view(ms: Seq<ChatMessage>) -> Seq<(Seq<char>, Seq<char>)> {
    ms.map_values(|m: ChatMessage| m@)
}

impl ChatMessage {
    pub fn new(role: &str, content: &str) -> (m: Self)
        ensures
            m@ == (role@, content@),
    {
        ChatMessage { role: role.to_owned(), content: content.to_owned() }
    }
}

} // verus!
