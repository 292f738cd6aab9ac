//! Conversation history: messages and the in-memory store that keeps them.
use vstd::prelude::*;
use crate::cleanup::{clean_assistant_output, clean_output};
use crate::text::owned;

verus! {

/// One stored message: who spoke (`user`, `model`, ...) and what was said.
#[derive(Debug, Clone)]
pub struct Message {
    pub role: String,
    pub content: String,
}

impl View for Message {
    type V = (Seq<char>, Seq<char>);

    open spec fn view(&self) -> (Seq<char>, Seq<char>) {
        (self.role@, self.content@)
    }
}

impl Message {
    pub fn new(role: &str, content: &str) -> (m: Self)
        ensures
            m@ == (role@, content@),
    {
        Message { role: owned(role), content: owned(content) }
    }

    /// A copy of this message.
    pub fn duplicate(&self) -> (m: Self)
        ensures
            m@ == self@,
    {
        Message { role: self.role.clone(), content: self.content.clone() }
    }
}

/// The views of a list of messages, in order.
pub open spec fn messages_view(ms: Seq<Message>) -> Seq<(Seq<char>, Seq<char>)> {
    ms.map_values(|m: Message| m@)
}

/// Copies of `ms`, in order.
pub fn copy_messages(ms: &[Message]) -> (r: Vec<Message>)
    ensures
        messages_view(r@) == messages_view(ms@),
{
    let mut r: Vec<Message> = Vec::new();
    let mut i: usize = 0;
    while i < ms.len()
        invariant
            i <= ms@.len(),
            r@.len() == i,
            messages_view(r@) == messages_view(ms@.take(i as int)),
        decreases ms@.len() - i,
    {
        let ghost prev = r@;
        r.push(ms[i].duplicate());
        i = i + 1;
        assert forall|j: int| 0 <= j < i implies messages_view(r@)[j] == messages_view(
            ms@.take(i as int),
        )[j] by {
            if j < i - 1 {
                assert(r@[j] == prev[j]);
                assert(messages_view(prev)[j] == messages_view(ms@.take(i - 1))[j]);
            }
        }
        assert(messages_view(r@) =~= messages_view(ms@.take(i as int)));
    }
    assert(ms@.take(ms@.len() as int) == ms@);
    r
}

/// A conversation history kept in memory, oldest message first.
pub struct InMemoryStore {
    messages: Vec<Message>,
}

impl View for InMemoryStore {
    type V = Seq<(Seq<char>, Seq<char>)>;

    closed spec fn view(&self) -> Seq<(Seq<char>, Seq<char>)> {
        messages_view(self.messages@)
    }
}

impl InMemoryStore {
    /// An empty history.
    pub fn new() -> (s: Self)
        ensures
            s@ == Seq::<(Seq<char>, Seq<char>)>::empty(),
    {
        let s = InMemoryStore { messages: Vec::new() };
        assert(s@ =~= Seq::<(Seq<char>, Seq<char>)>::empty());
        s
    }

    /// Appends a message at the end of the history.
    pub fn add(&mut self, role: &str, content: &str)
        ensures
            final(self)@ == old(self)@.push((role@, content@)),
    {
        self.messages.push(Message::new(role, content));
        assert(self@ =~= old(self)@.push((role@, content@)));
    }

    /// The whole history, oldest message first.
    pub fn history(&self) -> (h: Vec<Message>)
        ensures
            messages_view(h@) == self@,
    {
        copy_messages(self.messages.as_slice())
    }

    /// Forgets every message.
    pub fn clear(&mut self)
        ensures
            final(self)@ == Seq::<(Seq<char>, Seq<char>)>::empty(),
    {
        self.messages.clear();
        assert(self@ =~= Seq::<(Seq<char>, Seq<char>)>::empty());
    }

    /// Saves a finished conversation turn (see `turn_records`).
    pub fn commit_chat_turn(&mut self, user_input: &str, assistant_output: &str)
        ensures
            final(self)@ == old(self)@ + turn_records(user_input@, assistant_output@),
    {
        let records = chat_turn_messages(user_input, assistant_output);
        let mut i: usize = 0;
        while i < records.len()
            invariant
                i <= records@.len(),
                self@ == old(self)@ + messages_view(records@).take(i as int),
                messages_view(records@) == turn_records(user_input@, assistant_output@),
            decreases records@.len() - i,
        {
            let m = &records[i];
            self.add(m.role.as_str(), m.content.as_str());
            i = i + 1;
            assert(messages_view(records@).take(i as int) =~= messages_view(records@).take(
                i - 1,
            ).push(records@[i - 1]@));
        }
        assert(messages_view(records@).take(records@.len() as int) =~= messages_view(records@));
    }
}

/// What a finished turn adds to the history: the user's input and the
/// model's cleaned answer, as a pair, or nothing at all when the cleaned
/// answer is empty.
pub open spec fn turn_records(user_input: Seq<char>, assistant_output: Seq<char>) -> Seq<
    (Seq<char>, Seq<char>),
> {
    let clean = clean_output(assistant_output);
    if clean.len() == 0 {
        Seq::empty()
    } else {
        seq![("user"@, user_input), ("model"@, clean)]
    }
}

/// The messages that a finished turn adds to the history (see `turn_records`).
pub fn chat_turn_messages(user_input: &str, assistant_output: &str) -> (r: Vec<Message>)
    ensures
        messages_view(r@) == turn_records(user_input@, assistant_output@),
{
    let clean = clean_assistant_output(assistant_output);
    let mut r: Vec<Message> = Vec::new();
    if clean.as_str().is_empty() {
        assert(messages_view(r@) =~= turn_records(user_input@, assistant_output@));
        return r;
    }
    r.push(Message::new("user", user_input));
    r.push(Message::new("model", clean.as_str()));
    assert(messages_view(r@) =~= turn_records(user_input@, assistant_output@));
    r
}

/// Law: a turn is saved whole or not at all: either nothing is added, or the
/// user's message followed by the model's.
pub proof fn law_turn_saved_as_pair(user_input: Seq<char>, assistant_output: Seq<char>)
    ensures
        turn_records(user_input, assistant_output).len() == 0 || (turn_records(
            user_input,
            assistant_output,
        ).len() == 2 && turn_records(user_input, assistant_output)[0] == ("user"@, user_input)
            && turn_records(user_input, assistant_output)[1].0 == "model"@),
        turn_records(user_input, assistant_output).len() == 0 <==> clean_output(
            assistant_output,
        ).len() == 0,
{
}

} // verus!
