//! What a model file is, read from its name, and which engine runs it.
use vstd::prelude::*;
use crate::engines::{engine_supports, EngineType};
use crate::text::{contains, contains_exec, ends_with, ends_with_exec, owned, to_chars};

verus! {

/// The file format of a model.
#[derive(Debug, Clone, PartialEq, Eq, Structural)]
pub enum ModelFormat {
    Gguf,
    TfLite,
    Unknown,
}

/// The quantization level of a model, guessed from its file name.
#[derive(Debug, Clone, PartialEq, Eq, Structural)]
pub enum Quantization {
    /// Q8 / F16 / F32
    High,
    /// Q4 / Q5 / Q6
    Medium,
    /// Q2 / Q3
    Low,
    Unknown,
}

/// What is known of a model from its path.
#[derive(Debug, Clone)]
pub struct ModelMeta {
    pub path: String,
    pub format: ModelFormat,
    pub context_len: Option<usize>,
    pub quantization: Quantization,
}

/// The result of `str::to_lowercase` (Unicode lower case) on `s`.
pub uninterp spec fn spec_to_lowercase(s: Seq<char>) -> Seq<char>;

/// `str::to_lowercase`: the lower-case form of `s`, as Unicode defines it.
/// Its result is named by `spec_to_lowercase`; nothing more is stated of it.
#[verifier::external_body]
pub(crate) fn to_lowercase(s: &str) -> (r: String)
    ensures
        r@ == spec_to_lowercase(s@),
{
    s.to_lowercase()
}

/// The format that a lower-cased path names by its extension.
pub open spec fn format_of(lower: Seq<char>) -> ModelFormat {
    if ends_with(lower, ".gguf"@) {
        ModelFormat::Gguf
    } else if ends_with(lower, ".tflite"@) || ends_with(lower, ".litertlm"@) {
        ModelFormat::TfLite
    } else {
        ModelFormat::Unknown
    }
}

/// The quantization that a lower-cased path mentions.
pub open spec fn quantization_of(lower: Seq<char>) -> Quantization {
    if contains(lower, "q8"@) || contains(lower, "f16"@) || contains(lower, "f32"@) {
        Quantization::High
    } else if contains(lower, "q4"@) || contains(lower, "q5"@) || contains(lower, "q6"@) {
        Quantization::Medium
    } else if contains(lower, "q2"@) || contains(lower, "q3"@) {
        Quantization::Low
    } else {
        Quantization::Unknown
    }
}

/// The context length that a lower-cased path mentions ("128k" .. "8k",
/// tried in that order), in tokens.
pub open spec fn context_len_hint(lower: Seq<char>) -> Option<usize> {
    if contains(lower, "128k"@) {
        Some(131072usize)
    } else if contains(lower, "64k"@) {
        Some(65536usize)
    } else if contains(lower, "32k"@) {
        Some(32768usize)
    } else if contains(lower, "16k"@) {
        Some(16384usize)
    } else if contains(lower, "8k"@) {
        Some(8192usize)
    } else {
        None
    }
}

/// `m` is what `path`, whose lower-case form is `lower`, tells of its model.
pub open spec fn describes(m: ModelMeta, path: Seq<char>, lower: Seq<char>) -> bool {
    &&& m.path@ == path
    &&& m.format == format_of(lower)
    &&& m.context_len == context_len_hint(lower)
    &&& m.quantization == quantization_of(lower)
}

/// The context length named in a lower-cased path, if any.
pub fn parse_context_len_hint(lower_path: &str) -> (r: Option<usize>)
    ensures
        r == context_len_hint(lower_path@),
{
    let lower = to_chars(lower_path);
    if contains_exec(&lower, &to_chars("128k")) {
        Some(128 * 1024)
    } else if contains_exec(&lower, &to_chars("64k")) {
        Some(64 * 1024)
    } else if contains_exec(&lower, &to_chars("32k")) {
        Some(32 * 1024)
    } else if contains_exec(&lower, &to_chars("16k")) {
        Some(16 * 1024)
    } else if contains_exec(&lower, &to_chars("8k")) {
        Some(8 * 1024)
    } else {
        None
    }
}

impl ModelMeta {
    /// Reads format, quantization and context length from a model's path
    /// (its lower-case form decides).
    pub fn from_path(path: &str) -> (m: Self)
        ensures
            describes(m, path@, spec_to_lowercase(path@)),
    {
        let lower = to_lowercase(path);
        Self::from_lowercase_path(path, lower.as_str())
    }

    /// What `from_path` makes of `path`, given the lower-case form `lower` of it.
    pub fn from_lowercase_path(path: &str, lower: &str) -> (m: Self)
        ensures
            describes(m, path@, lower@),
    {
        let l = to_chars(lower);
        let format = if ends_with_exec(&l, &to_chars(".gguf")) {
            ModelFormat::Gguf
        } else if ends_with_exec(&l, &to_chars(".tflite")) || ends_with_exec(
            &l,
            &to_chars(".litertlm"),
        ) {
            ModelFormat::TfLite
        } else {
            ModelFormat::Unknown
        };
        let quantization = if contains_exec(&l, &to_chars("q8")) || contains_exec(
            &l,
            &to_chars("f16"),
        ) || contains_exec(&l, &to_chars("f32")) {
            Quantization::High
        } else if contains_exec(&l, &to_chars("q4")) || contains_exec(&l, &to_chars("q5"))
            || contains_exec(&l, &to_chars("q6")) {
            Quantization::Medium
        } else if contains_exec(&l, &to_chars("q2")) || contains_exec(&l, &to_chars("q3")) {
            Quantization::Low
        } else {
            Quantization::Unknown
        };
        let context_len = parse_context_len_hint(lower);
        ModelMeta { path: owned(path), format, context_len, quantization }
    }
}

/// Which GPU back ends are available.
#[derive(Debug, Clone)]
pub struct HardwareProfile {
    pub has_cuda: bool,
    pub has_metal: bool,
    pub has_vulkan: bool,
}

impl HardwareProfile {
    /// Whether any GPU back end is available.
    pub fn has_gpu(&self) -> (r: bool)
        ensures
            r == (self.has_cuda || self.has_metal || self.has_vulkan),
    {
        self.has_cuda || self.has_metal || self.has_vulkan
    }
}

/// What the user prefers when an engine is chosen.
#[derive(Debug, Clone, PartialEq, Eq, Structural)]
pub enum UserPreference {
    Auto,
    SpeedFirst,
    QualityFirst,
}

impl Default for UserPreference {
    fn default() -> (p: Self)
        ensures
            p == UserPreference::Auto,
    {
        UserPreference::Auto
    }
}

/// The engine chosen for a model format.
pub open spec fn select_engine(format: ModelFormat) -> EngineType {
    match format {
        ModelFormat::TfLite => EngineType::LiteRT,
        ModelFormat::Gguf | ModelFormat::Unknown => EngineType::Llama,
    }
}

/// Chooses the engine for a model.
pub struct EngineSelector;

impl EngineSelector {
    /// The best engine for a model, given the hardware and what the user
    /// prefers; the model's format alone decides: LiteRT-LM for TFLite
    /// models, llama.cpp for everything else.
    pub fn select(meta: &ModelMeta, _hw: &HardwareProfile, _pref: &UserPreference) -> (e:
        EngineType)
        ensures
            e == select_engine(meta.format),
    {
        match meta.format {
            ModelFormat::TfLite => EngineType::LiteRT,
            ModelFormat::Gguf | ModelFormat::Unknown => EngineType::Llama,
        }
    }
}

/// Law: the engine that the selector picks can always run the model it was picked for.
pub proof fn law_selected_engine_supports_model(format: ModelFormat)
    ensures
        engine_supports(select_engine(format), format),
{
}

/// Law: a path that ends in `.gguf` (in any case) always goes to llama.cpp,
/// and one that ends in `.litertlm` or `.tflite` always goes to LiteRT-LM.
pub proof fn law_extension_decides_engine(lower: Seq<char>)
    ensures
        ends_with(lower, ".gguf"@) ==> select_engine(format_of(lower)) == EngineType::Llama,
        (ends_with(lower, ".litertlm"@) || ends_with(lower, ".tflite"@)) && !ends_with(
            lower,
            ".gguf"@,
        ) ==> select_engine(format_of(lower)) == EngineType::LiteRT,
{
}

} // verus!
