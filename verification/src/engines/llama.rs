//! The decisions taken before llama.cpp is called: what every text handed to
//! it as a C string must satisfy, and the generation limits.
use vstd::prelude::*;
use crate::engines::{chat_view, ChatMessage};
use crate::error::NezumiError;
use crate::text::{owned, to_chars};

verus! {

broadcast use vstd::string::group_string_axioms;

/// Whether `s` holds a NUL character, which no C string can carry.
pub open spec fn has_nul(s: Seq<char>) -> bool {
    exists|i: int| 0 <= i < s.len() && s[i] == '\0'
}

/// Whether `s` holds a NUL character.
pub fn contains_nul(s: &str) -> (r: bool)
    ensures
        r == has_nul(s@),
{
    let v = to_chars(s);
    let mut i: usize = 0;
    while i < v.len()
        invariant
            i <= v@.len(),
            v@ == s@,
            forall|j: int| 0 <= j < i ==> v@[j] != '\0',
        decreases v@.len() - i,
    {
        if v[i] == '\0' {
            assert(s@[i as int] == '\0');
            return true;
        }
        i = i + 1;
    }
    false
}

/// The token limit handed to llama.cpp: the one asked for, 512 by default,
/// as a C `int` (a larger number wraps around as Rust's `as` does).
pub open spec fn max_tokens_arg(max_tokens: Option<usize>) -> i32 {
    (match max_tokens {
        Some(m) => m,
        None => 512usize,
    }) as i32
}

/// The token limit handed to llama.cpp (see `max_tokens_arg`).
pub fn generation_max_tokens(max_tokens: Option<usize>) -> (r: i32)
    ensures
        r == max_tokens_arg(max_tokens),
{
    let m = match max_tokens {
        Some(m) => m,
        None => 512,
    };
    #[verifier::truncate]
    (m as i32)
}

/// Refuses a model path that cannot be handed to C.
pub fn check_model_path(path: &str) -> (r: Result<(), NezumiError>)
    ensures
        r is Ok <==> !has_nul(path@),
        r matches Err(e) ==> e matches NezumiError::ModelLoadFailed(m) && m@ == "invalid path"@,
{
    if contains_nul(path) {
        return Err(NezumiError::ModelLoadFailed(owned("invalid path")));
    }
    Ok(())
}

/// Refuses a prompt that cannot be handed to C.
pub fn check_prompt(prompt: &str) -> (r: Result<(), NezumiError>)
    ensures
        r is Ok <==> !has_nul(prompt@),
        r matches Err(e) ==> e matches NezumiError::InferenceError(m) && m@ == "invalid prompt"@,
{
    if contains_nul(prompt) {
        return Err(NezumiError::InferenceError(owned("invalid prompt")));
    }
    Ok(())
}

/// Refuses a conversation that cannot be handed to C: every role is checked
/// first, then every content.
pub fn check_chat_messages(messages: &[ChatMessage]) -> (r: Result<(), NezumiError>)
    ensures
        ({
            let ms = chat_view(messages@);
            let bad_role = exists|i: int| 0 <= i < ms.len() && has_nul(#[trigger] ms[i].0);
            let bad_content = exists|i: int| 0 <= i < ms.len() && has_nul(#[trigger] ms[i].1);
            &&& r is Ok <==> !bad_role && !bad_content
            &&& bad_role ==> (r matches Err(e) && e matches NezumiError::InferenceError(m) && m@
                == "invalid chat role"@)
            &&& !bad_role && bad_content ==> (r matches Err(e) && e matches NezumiError::InferenceError(
                m,
            ) && m@ == "invalid chat content"@)
        }),
{
    let ghost ms = chat_view(messages@);
    let mut i: usize = 0;
    while i < messages.len()
        invariant
            i <= messages@.len(),
            ms == chat_view(messages@),
            forall|j: int| 0 <= j < i ==> !has_nul(#[trigger] ms[j].0),
        decreases messages@.len() - i,
    {
        if contains_nul(messages[i].role.as_str()) {
            assert(has_nul(ms[i as int].0));
            return Err(NezumiError::InferenceError(owned("invalid chat role")));
        }
        i = i + 1;
    }
    let mut k: usize = 0;
    while k < messages.len()
        invariant
            k <= messages@.len(),
            ms == chat_view(messages@),
            forall|j: int| 0 <= j < messages@.len() ==> !has_nul(#[trigger] ms[j].0),
            forall|j: int| 0 <= j < k ==> !has_nul(#[trigger] ms[j].1),
        decreases messages@.len() - k,
    {
        if contains_nul(messages[k].content.as_str()) {
            assert(has_nul(ms[k as int].1));
            return Err(NezumiError::InferenceError(owned("invalid chat content")));
        }
        k = k + 1;
    }
    Ok(())
}

} // verus!
