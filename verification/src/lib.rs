//! The core of a desktop inference library: which engine runs a model, how a
//! conversation is put together and kept, and how what a model produces is
//! cleaned up before it is shown or saved.
use vstd::prelude::*;

pub mod text;
pub mod cleanup;
pub mod error;
pub mod engines;
pub mod cli;
pub mod session;
pub mod chat;

pub use cleanup::{clean_assistant_output, strip_template_tags, strip_thinking_tags};
pub use chat::{Config, PromptSettings};
pub use engines::LoadConfig;
pub use engines::selector::{ModelMeta as Meta, UserPreference as Preference};

verus! {

} // verus!
