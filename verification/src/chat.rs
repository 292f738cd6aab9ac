//! How a conversation is put together before it reaches an engine, and the
//! decisions taken when a model is loaded.
use vstd::prelude::*;
use vstd::string::StringExecFns;
use crate::engines::selector::{
    describes, select_engine, spec_to_lowercase, to_lowercase, EngineSelector, HardwareProfile,
    ModelMeta, UserPreference,
};
use crate::engines::{chat_view, engine_supports, ChatMessage, EngineType};
use crate::error::NezumiError;
use crate::session::{messages_view, Message};
use crate::text::{
    contains, contains_exec, ends_with, find, lemma_find, lemma_occurs_contains, owned, to_chars,
};

verus! {

broadcast use vstd::string::group_string_axioms;

/// How the library is set up.
pub struct Config {
    /// Where the conversation history is kept on disk; in memory when absent.
    pub db_path: Option<String>,
    pub preference: UserPreference,
    pub system_prompt: Option<String>,
    /// Whether the model is asked to reason step by step.
    pub thinking: bool,
}

impl Default for Config {
    /// History in memory, automatic engine choice, no system prompt, no thinking.
    fn default() -> (c: Self)
        ensures
            c.db_path is None,
            c.preference == UserPreference::Auto,
            c.system_prompt is None,
            !c.thinking,
    {
        Config {
            db_path: None,
            preference: UserPreference::Auto,
            system_prompt: None,
            thinking: false,
        }
    }
}

/// The system prompt used in thinking mode when none is configured.
pub open spec fn thinking_prompt() -> Seq<char> {
    "You are a helpful assistant. Think through the problem step by step before answering. Use your reasoning abilities to analyze the question carefully."@
}

/// A configured system prompt, with `NO_THINK` appended (after a space when
/// the prompt is not empty) unless it already mentions `THINK`.
pub open spec fn with_no_think(sys: Seq<char>) -> Seq<char> {
    if !contains(sys, "NO_THINK"@) && !contains(sys, "THINK"@) {
        (if sys.len() > 0 { sys + " "@ } else { sys }) + "NO_THINK"@
    } else {
        sys
    }
}

/// The system message that opens a conversation, if any.
pub open spec fn system_messages(system_prompt: Option<Seq<char>>, thinking: bool, qwen: bool) -> Seq<
    (Seq<char>, Seq<char>),
> {
    match system_prompt {
        Some(sys) => seq![
            ("system"@, if !thinking && !qwen {
                with_no_think(sys)
            } else {
                sys
            }),
        ],
        None => if !thinking && !qwen {
            seq![("system"@, "NO_THINK"@)]
        } else if thinking {
            seq![("system"@, thinking_prompt())]
        } else {
            Seq::empty()
        },
    }
}

/// What the user's turn says: for Qwen models without thinking, the input
/// followed by a `/no_think` line.
pub open spec fn user_turn(input: Seq<char>, thinking: bool, qwen: bool) -> Seq<char> {
    if qwen && !thinking {
        input + "\n/no_think"@
    } else {
        input
    }
}

/// The conversation handed to an engine: the system message, the history in
/// order, and the user's new turn last.
pub open spec fn chat_messages(
    system_prompt: Option<Seq<char>>,
    thinking: bool,
    qwen: bool,
    history: Seq<(Seq<char>, Seq<char>)>,
    input: Seq<char>,
) -> Seq<(Seq<char>, Seq<char>)> {
    system_messages(system_prompt, thinking, qwen) + history + seq![
        ("user"@, user_turn(input, thinking, qwen)),
    ]
}

/// Whether the loaded model is a Qwen model to be asked not to think: thinking
/// is off and the lower-cased model path mentions `qwen`.
pub open spec fn qwen_directive(thinking: bool, model_path: Option<Seq<char>>) -> bool {
    !thinking && match model_path {
        Some(p) => contains(spec_to_lowercase(p), "qwen"@),
        None => false,
    }
}

/// The view of an optional string.
pub open spec fn opt_view(s: Option<String>) -> Option<Seq<char>> {
    match s {
        Some(t) => Some(t@),
        None => None,
    }
}

/// Whether a lower-cased model path names a Qwen model.
pub fn mentions_qwen(lower_path: &str) -> (r: bool)
    ensures
        r == contains(lower_path@, "qwen"@),
{
    contains_exec(&to_chars(lower_path), &to_chars("qwen"))
}

/// What shapes the prompt: the system prompt, thinking mode and the model loaded.
pub struct PromptSettings {
    pub system_prompt: Option<String>,
    pub thinking: bool,
    pub model_path: Option<String>,
}

impl PromptSettings {
    /// Whether thinking mode is on.
    pub fn thinking_enabled(&self) -> (r: bool)
        ensures
            r == self.thinking,
    {
        self.thinking
    }

    /// Whether the user's turn gets a `/no_think` line (see `qwen_directive`).
    pub fn should_use_qwen_instant_directive(&self) -> (r: bool)
        ensures
            r == qwen_directive(self.thinking, opt_view(self.model_path)),
    {
        if self.thinking {
            return false;
        }
        match &self.model_path {
            Some(path) => {
                let lower = to_lowercase(path.as_str());
                mentions_qwen(lower.as_str())
            },
            None => false,
        }
    }

    /// The conversation for an engine, given whether the Qwen directive applies.
    pub fn assemble_chat_messages(
        &self,
        qwen_instant: bool,
        history: &[Message],
        user_input: &str,
    ) -> (r: Vec<ChatMessage>)
        ensures
            chat_view(r@) == chat_messages(
                opt_view(self.system_prompt),
                self.thinking,
                qwen_instant,
                messages_view(history@),
                user_input@,
            ),
    {
        let mut messages: Vec<ChatMessage> = Vec::new();
        if let Some(sys) = &self.system_prompt {
            let sys_content = if !self.thinking && !qwen_instant {
                let mut sys_content = sys.clone();
                let sc = to_chars(sys.as_str());
                if !contains_exec(&sc, &to_chars("NO_THINK")) && !contains_exec(
                    &sc,
                    &to_chars("THINK"),
                ) {
                    if !sys_content.as_str().is_empty() {
                        sys_content.append(" ");
                    }
                    sys_content.append("NO_THINK");
                }
                sys_content
            } else {
                sys.clone()
            };
            messages.push(ChatMessage::new("system", sys_content.as_str()));
        } else if !self.thinking && !qwen_instant {
            messages.push(ChatMessage::new("system", "NO_THINK"));
        } else if self.thinking {
            messages.push(
                ChatMessage::new(
                    "system",
                    "You are a helpful assistant. Think through the problem step by step before answering. Use your reasoning abilities to analyze the question carefully.",
                ),
            );
        }
        let ghost sys_part = chat_view(messages@);
        assert(sys_part =~= system_messages(
            opt_view(self.system_prompt),
            self.thinking,
            qwen_instant,
        ));
        let mut i: usize = 0;
        while i < history.len()
            invariant
                i <= history@.len(),
                chat_view(messages@) == sys_part + messages_view(history@).take(i as int),
            decreases history@.len() - i,
        {
            let m = &history[i];
            let ghost prev = messages@;
            messages.push(ChatMessage::new(m.role.as_str(), m.content.as_str()));
            i = i + 1;
            assert(chat_view(messages@) =~= chat_view(prev).push(history@[i - 1]@));
            assert(messages_view(history@).take(i as int) =~= messages_view(history@).take(
                i - 1,
            ).push(history@[i - 1]@));
        }
        assert(messages_view(history@).take(history@.len() as int) =~= messages_view(history@));
        let user_content = if qwen_instant && !self.thinking {
            let mut c = owned(user_input);
            c.append("\n/no_think");
            c
        } else {
            owned(user_input)
        };
        let ghost prev = messages@;
        messages.push(ChatMessage::new("user", user_content.as_str()));
        assert(chat_view(messages@) =~= chat_view(prev).push(("user"@, user_content@)));
        messages
    }

    /// The conversation for an engine: system message, history, then the user's turn.
    pub fn build_chat_messages(&self, history: &[Message], user_input: &str) -> (r: Vec<
        ChatMessage,
    >)
        ensures
            chat_view(r@) == chat_messages(
                opt_view(self.system_prompt),
                self.thinking,
                qwen_directive(self.thinking, opt_view(self.model_path)),
                messages_view(history@),
                user_input@,
            ),
    {
        let qwen = self.should_use_qwen_instant_directive();
        self.assemble_chat_messages(qwen, history, user_input)
    }
}

/// Decides how a model is loaded: what its path tells of it, and the engine
/// chosen for it. The chosen engine always supports the model, so loading is
/// never refused here.
pub fn plan_model_load(
    path: &str,
    hw: &HardwareProfile,
    preference: &UserPreference,
) -> (r: Result<(EngineType, ModelMeta), NezumiError>)
    ensures
        r matches Ok((engine, meta)) && describes(meta, path@, spec_to_lowercase(path@))
            && engine == select_engine(meta.format) && engine_supports(engine, meta.format),
{
    let meta = ModelMeta::from_path(path);
    let engine = EngineSelector::select(&meta, hw, preference);
    if !engine.supports(&meta) {
        return Err(NezumiError::UnsupportedModel(owned(path)));
    }
    Ok((engine, meta))
}

/// Law: the conversation always ends with the user's new turn, and the
/// history appears in it unchanged and in order, right after the system
/// message (if there is one).
pub proof fn law_conversation_shape(
    system_prompt: Option<Seq<char>>,
    thinking: bool,
    qwen: bool,
    history: Seq<(Seq<char>, Seq<char>)>,
    input: Seq<char>,
)
    ensures
        ({
            let c = chat_messages(system_prompt, thinking, qwen, history, input);
            let k = system_messages(system_prompt, thinking, qwen).len();
            &&& k <= 1
            &&& c.len() == k + history.len() + 1
            &&& c.last() == ("user"@, user_turn(input, thinking, qwen))
            &&& c.subrange(k as int, (k + history.len()) as int) == history
        }),
{
    let c = chat_messages(system_prompt, thinking, qwen, history, input);
    let k = system_messages(system_prompt, thinking, qwen).len();
    assert(c.subrange(k as int, (k + history.len()) as int) =~= history);
}

/// `THINK` is part of `NO_THINK`, and of every text that ends with it.
proof fn lemma_no_think_has_think(t: Seq<char>)
    requires
        contains(t, "NO_THINK"@) || ends_with(t, "NO_THINK"@),
    ensures
        contains(t, "THINK"@),
{
    reveal_strlit("NO_THINK");
    reveal_strlit("THINK");
    let i = if contains(t, "NO_THINK"@) {
        lemma_find(t, "NO_THINK"@);
        find(t, "NO_THINK"@)->0
    } else {
        t.len() - 8
    };
    assert(t.subrange(i, i + 8) == "NO_THINK"@) by {
        if !contains(t, "NO_THINK"@) {
            assert(t.skip(t.len() - 8) =~= t.subrange(i, i + 8));
        }
    }
    assert(t.subrange(i + 3, i + 8) =~= "THINK"@) by {
        assert forall|j: int| 0 <= j < 5 implies t.subrange(i + 3, i + 8)[j] == "THINK"@[j] by {
            assert(t.subrange(i + 3, i + 8)[j] == t.subrange(i, i + 8)[j + 3]);
        }
    }
    lemma_occurs_contains(t, "THINK"@, i + 3);
}

/// Law: with thinking off and no Qwen directive, the conversation always
/// opens with a system message that mentions `THINK` (the model is told
/// `NO_THINK` unless the configured prompt already speaks of thinking).
pub proof fn law_no_think_requested(
    system_prompt: Option<Seq<char>>,
    history: Seq<(Seq<char>, Seq<char>)>,
    input: Seq<char>,
)
    ensures
        ({
            let c = chat_messages(system_prompt, false, false, history, input);
            &&& c[0].0 == "system"@
            &&& contains(c[0].1, "THINK"@)
        }),
{
    let c = chat_messages(system_prompt, false, false, history, input);
    match system_prompt {
        Some(sys) => {
            assert(c[0] == ("system"@, with_no_think(sys)));
            if !contains(sys, "NO_THINK"@) && !contains(sys, "THINK"@) {
                let pre = if sys.len() > 0 { sys + " "@ } else { sys };
                assert((pre + "NO_THINK"@).skip((pre + "NO_THINK"@).len() - "NO_THINK"@.len())
                    =~= "NO_THINK"@);
                lemma_no_think_has_think(pre + "NO_THINK"@);
            } else if contains(sys, "NO_THINK"@) {
                lemma_no_think_has_think(sys);
            }
        },
        None => {
            assert(c[0] == ("system"@, "NO_THINK"@));
            assert("NO_THINK"@.skip(0) =~= "NO_THINK"@);
            lemma_no_think_has_think("NO_THINK"@);
        },
    }
}

/// Law: in thinking mode the model is never told `NO_THINK`: the
/// conversation opens with the configured system prompt exactly as it is
/// (or the step-by-step prompt when none is configured), and the user's turn
/// is the input exactly as typed, whatever the model.
pub proof fn law_thinking_mode_keeps_prompts(
    system_prompt: Option<Seq<char>>,
    qwen: bool,
    history: Seq<(Seq<char>, Seq<char>)>,
    input: Seq<char>,
)
    ensures
        ({
            let c = chat_messages(system_prompt, true, qwen, history, input);
            &&& c.len() == history.len() + 2
            &&& c[0] == ("system"@, match system_prompt {
                Some(sys) => sys,
                None => thinking_prompt(),
            })
            &&& c.last() == ("user"@, input)
        }),
{
}

/// Law: with the Qwen directive, the model is asked not to think in the
/// user's turn instead: the configured system prompt is passed unchanged (and
/// none is added when none is configured), and the user's turn is the input
/// followed by a `/no_think` line.
pub proof fn law_qwen_directive_in_user_turn(
    system_prompt: Option<Seq<char>>,
    history: Seq<(Seq<char>, Seq<char>)>,
    input: Seq<char>,
)
    ensures
        ({
            let c = chat_messages(system_prompt, false, true, history, input);
            &&& c.last() == ("user"@, input + "\n/no_think"@)
            &&& match system_prompt {
                Some(sys) => c.len() == history.len() + 2 && c[0] == ("system"@, sys),
                None => c.len() == history.len() + 1,
            }
        }),
{
}

/// Law: `NO_THINK` is only ever added to a configured system prompt when
/// thinking is off and the Qwen directive does not apply; the prompt is
/// otherwise passed on unchanged, and when it is changed, it is only extended
/// at its end.
pub proof fn law_system_prompt_only_extended(
    sys: Seq<char>,
    thinking: bool,
    qwen: bool,
    history: Seq<(Seq<char>, Seq<char>)>,
    input: Seq<char>,
)
    ensures
        ({
            let first = chat_messages(Some(sys), thinking, qwen, history, input)[0];
            &&& first.0 == "system"@
            &&& (thinking || qwen) ==> first.1 == sys
            &&& first.1.len() >= sys.len() && first.1.take(sys.len() as int) == sys
        }),
{
    let first = chat_messages(Some(sys), thinking, qwen, history, input)[0];
    if !thinking && !qwen && !contains(sys, "NO_THINK"@) && !contains(sys, "THINK"@) {
        let pre = if sys.len() > 0 { sys + " "@ } else { sys };
        assert((pre + "NO_THINK"@).take(sys.len() as int) =~= sys);
    } else {
        assert(first.1.take(sys.len() as int) =~= sys);
    }
}

} // verus!
