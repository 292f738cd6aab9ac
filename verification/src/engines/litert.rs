//! LiteRT-LM runs as a separate program: the prompt is written for it, and
//! the reply is picked out of what it prints.
use vstd::prelude::*;
use vstd::string::StringExecFns;
use vstd::utf8::{decode_utf8, valid_utf8};
use crate::engines::{chat_view, ChatMessage};
use crate::engines::selector::{spec_to_lowercase, to_lowercase};
use crate::cleanup::{lemma_prefix_before_first, lemma_trim_keeps_absent};
use crate::error::NezumiError;
use crate::text::{
    contains, contains_exec, ends_with, ends_with_exec, find, find_exec, lemma_find, owned,
    push_all, rfind, rfind_exec, slice_chars, string_from_chars, text_eq, to_chars, trim,
    trim_exec, trim_start, leading_ws, char_len, char_utf8_len, utf8_len,
};

verus! {

broadcast use vstd::string::group_string_axioms;

// ---------------------------------------------------------------------------
// The prompt
// ---------------------------------------------------------------------------

/// The system messages' contents, each followed by a blank line.
pub open spec fn system_block(ms: Seq<(Seq<char>, Seq<char>)>) -> Seq<char>
    decreases ms.len(),
{
    if ms.len() == 0 {
        Seq::empty()
    } else {
        system_block(ms.drop_last()) + if ms.last().0 == "system"@ {
            ms.last().1 + "\n\n"@
        } else {
            Seq::empty()
        }
    }
}

/// One line of the dialogue: `User: ..` for the user, `Assistant: ..` for the
/// model, nothing for any other role.
pub open spec fn turn_line(m: (Seq<char>, Seq<char>)) -> Seq<char> {
    if m.0 == "user"@ {
        "User: "@ + m.1 + "\n"@
    } else if m.0 == "assistant"@ || m.0 == "model"@ {
        "Assistant: "@ + m.1 + "\n"@
    } else {
        Seq::empty()
    }
}

/// The dialogue lines, in order.
pub open spec fn turn_lines(ms: Seq<(Seq<char>, Seq<char>)>) -> Seq<char>
    decreases ms.len(),
{
    if ms.len() == 0 {
        Seq::empty()
    } else {
        turn_lines(ms.drop_last()) + turn_line(ms.last())
    }
}

/// The plain-text prompt for a conversation: system texts, then the
/// dialogue, then `Assistant:` for the model to continue.
pub open spec fn litert_prompt(ms: Seq<(Seq<char>, Seq<char>)>) -> Seq<char> {
    system_block(ms) + turn_lines(ms) + "Assistant:"@
}

/// The prompt handed to LiteRT-LM: as it is when it already holds a
/// `<start_of_turn>` marker, else wrapped as a Gemma user turn followed by
/// the opening of the model's turn.
pub open spec fn input_prompt(prompt: Seq<char>) -> Seq<char> {
    if contains(prompt, "<start_of_turn>"@) {
        prompt
    } else {
        "<start_of_turn>user\n"@ + prompt + "<end_of_turn>\n<start_of_turn>model\n"@
    }
}

/// Writes a conversation as one plain-text prompt (see `litert_prompt`).
pub fn build_chat_prompt(messages: &[ChatMessage]) -> (r: String)
    ensures
        r@ == litert_prompt(chat_view(messages@)),
{
    let ghost ms = chat_view(messages@);
    let mut out: Vec<char> = Vec::new();
    let mut i: usize = 0;
    while i < messages.len()
        invariant
            i <= messages@.len(),
            ms == chat_view(messages@),
            out@ == system_block(ms.take(i as int)),
        decreases messages@.len() - i,
    {
        let m = &messages[i];
        assert(ms.take(i + 1).drop_last() =~= ms.take(i as int));
        if text_eq(m.role.as_str(), "system") {
            push_all(&mut out, &to_chars(m.content.as_str()));
            push_all(&mut out, &to_chars("\n\n"));
        }
        i = i + 1;
    }
    assert(ms.take(messages@.len() as int) =~= ms);
    let ghost sys = out@;
    let mut j: usize = 0;
    while j < messages.len()
        invariant
            j <= messages@.len(),
            ms == chat_view(messages@),
            out@ == sys + turn_lines(ms.take(j as int)),
        decreases messages@.len() - j,
    {
        let m = &messages[j];
        assert(ms.take(j + 1).drop_last() =~= ms.take(j as int));
        let ghost before = out@;
        if text_eq(m.role.as_str(), "user") {
            push_all(&mut out, &to_chars("User: "));
            push_all(&mut out, &to_chars(m.content.as_str()));
            push_all(&mut out, &to_chars("\n"));
        } else if text_eq(m.role.as_str(), "assistant") || text_eq(m.role.as_str(), "model") {
            push_all(&mut out, &to_chars("Assistant: "));
            push_all(&mut out, &to_chars(m.content.as_str()));
            push_all(&mut out, &to_chars("\n"));
        }
        assert(out@ =~= before + turn_line(ms[j as int]));
        j = j + 1;
    }
    push_all(&mut out, &to_chars("Assistant:"));
    string_from_chars(&out)
}

/// The prompt handed to LiteRT-LM for a request (see `input_prompt`).
pub fn wrap_input_prompt(prompt: &str) -> (r: String)
    ensures
        r@ == input_prompt(prompt@),
{
    if contains_exec(&to_chars(prompt), &to_chars("<start_of_turn>")) {
        owned(prompt)
    } else {
        let mut r = owned("<start_of_turn>user\n");
        r.append(prompt);
        r.append("<end_of_turn>\n<start_of_turn>model\n");
        r
    }
}

// ---------------------------------------------------------------------------
// The model file
// ---------------------------------------------------------------------------

/// Whether a lower-cased path names a model that LiteRT-LM can load.
pub open spec fn litert_path_ok(lower: Seq<char>) -> bool {
    ends_with(lower, ".litertlm"@) || ends_with(lower, ".tflite"@)
}

/// What a refused model path is answered.
pub open spec fn wrong_model_message(path: Seq<char>) -> Seq<char> {
    "LiteRT-LM expects a .litertlm model file, got: "@ + path
}

/// Refuses a model whose lower-cased path `lower` does not end in
/// `.litertlm` or `.tflite`.
pub fn check_model_path_lower(path: &str, lower: &str) -> (r: Result<(), NezumiError>)
    ensures
        r is Ok <==> litert_path_ok(lower@),
        r matches Err(e) ==> e matches NezumiError::UnsupportedModel(m) && m@
            == wrong_model_message(path@),
{
    let l = to_chars(lower);
    if !ends_with_exec(&l, &to_chars(".litertlm")) && !ends_with_exec(&l, &to_chars(".tflite")) {
        let mut m = owned("LiteRT-LM expects a .litertlm model file, got: ");
        m.append(path);
        return Err(NezumiError::UnsupportedModel(m));
    }
    Ok(())
}

/// Refuses a model path that LiteRT-LM cannot load (the extension decides,
/// in any case).
pub fn check_model_path(path: &str) -> (r: Result<(), NezumiError>)
    ensures
        r is Ok <==> litert_path_ok(spec_to_lowercase(path@)),
        r matches Err(e) ==> e matches NezumiError::UnsupportedModel(m) && m@
            == wrong_model_message(path@),
{
    let lower = to_lowercase(path);
    check_model_path_lower(path, lower.as_str())
}

// ---------------------------------------------------------------------------
// Decoding what the program prints
// ---------------------------------------------------------------------------

/// The error of `std::str::from_utf8`.
#[verifier::external_type_specification]
#[verifier::external_body]
pub struct ExUtf8Error(std::str::Utf8Error);

/// `std::str::from_utf8` succeeds exactly on valid UTF-8, and then decodes it.
pub assume_specification[ std::str::from_utf8 ](v: &[u8]) -> (r: Result<&str, std::str::Utf8Error>)
    ensures
        r is Ok <==> valid_utf8(v@),
        r matches Ok(s) ==> s@ == decode_utf8(v@),
;

/// `n` is how far `bytes` is valid UTF-8: the longest prefix that is.
pub open spec fn valid_up_to(bytes: Seq<u8>, n: int) -> bool {
    &&& 0 <= n <= bytes.len()
    &&& valid_utf8(bytes.take(n))
    &&& forall|m: int| n < m <= bytes.len() ==> !valid_utf8(#[trigger] bytes.take(m))
}

/// `std::str::from_utf8` followed, on failure, by `Utf8Error::valid_up_to`:
/// the largest index up to which `bytes` is valid UTF-8 (all of it when it is).
#[verifier::external_body]
fn utf8_valid_len(bytes: &[u8]) -> (n: usize)
    ensures
        valid_up_to(bytes@, n as int),
{
    match std::str::from_utf8(bytes) {
        Ok(_) => bytes.len(),
        Err(e) => e.valid_up_to(),
    }
}

/// Decodes the longest valid UTF-8 prefix of `pending` and leaves the rest
/// (an incomplete character) pending for the next read.
pub fn decode_available(pending: &mut Vec<u8>) -> (s: String)
    ensures
        valid_up_to(old(pending)@, old(pending)@.len() - final(pending)@.len()),
        final(pending)@ == old(pending)@.skip(old(pending)@.len() - final(pending)@.len()),
        s@ == decode_utf8(old(pending)@.take(old(pending)@.len() - final(pending)@.len())),
{
    let n = utf8_valid_len(pending.as_slice());
    let mut head: Vec<u8> = Vec::new();
    let mut rest: Vec<u8> = Vec::new();
    let mut i: usize = 0;
    while i < pending.len()
        invariant
            n <= pending@.len(),
            i <= pending@.len(),
            head@ == pending@.take(if i < n { i as int } else { n as int }),
            rest@ == (if i < n { Seq::<u8>::empty() } else { pending@.subrange(n as int, i as int) }),
        decreases pending@.len() - i,
    {
        if i < n {
            head.push(pending[i]);
            assert(head@ =~= pending@.take(i + 1));
        } else {
            rest.push(pending[i]);
            assert(rest@ =~= pending@.subrange(n as int, i + 1));
        }
        i = i + 1;
    }
    assert(head@ =~= pending@.take(n as int));
    assert(rest@ =~= pending@.skip(n as int));
    let s = match std::str::from_utf8(head.as_slice()) {
        Ok(t) => owned(t),
        Err(_) => String::new(),
    };
    *pending = rest;
    s
}

// ---------------------------------------------------------------------------
// Picking the reply out of what the program prints
// ---------------------------------------------------------------------------

/// The longest suffix of `s` that takes at most `n` bytes in UTF-8.
pub open spec fn suffix_fit(s: Seq<char>, n: int) -> Seq<char>
    decreases s.len(),
{
    if s.len() == 0 {
        s
    } else if char_utf8_len(s.last()) <= n {
        suffix_fit(s.drop_last(), n - char_utf8_len(s.last())).push(s.last())
    } else {
        Seq::empty()
    }
}

/// Most of the text that is kept while the reply has not begun, in bytes.
pub open spec fn max_pending() -> int {
    4096
}

/// Where the reply begins: after the first `<start_of_turn>model`, or else
/// after `Assistant:` at the start of the last line that begins with it.
pub open spec fn reply_start(b: Seq<char>) -> Option<int> {
    if let Some(i) = find(b, "<start_of_turn>model"@) {
        Some(i + 20)
    } else if let Some(i) = rfind(b, "\nAssistant:"@) {
        Some(i + 11)
    } else {
        None
    }
}

/// Where the reply ends within `c`: at a `\nUser:` line, or else at the
/// first `BenchmarkInfo`, or else at the first `benchmark_info`.
pub open spec fn reply_stop(c: Seq<char>) -> Option<int> {
    if let Some(p) = find(c, "\nUser:"@) {
        Some(p)
    } else if let Some(p) = find(c, "BenchmarkInfo"@) {
        Some(p)
    } else {
        find(c, "benchmark_info"@)
    }
}

/// What is passed on of reply text `c`, and whether the reply is over:
/// up to where it stops, trimmed, or else all of it.
pub open spec fn emit(c: Seq<char>) -> (Option<Seq<char>>, bool) {
    if let Some(p) = reply_stop(c) {
        (if trim(c.take(p)).len() > 0 { Some(trim(c.take(p))) } else { None }, true)
    } else {
        (if c.len() > 0 { Some(c) } else { None }, false)
    }
}

/// The parser's state: text held back, and whether the reply has begun.
pub struct ParserState {
    pub held: Seq<char>,
    pub started: bool,
}

/// What reading `decoded` does: the new state, what is passed on, and
/// whether the reply is over. Before the reply begins nothing is passed on
/// and at most the last `max_pending()` bytes are held.
pub open spec fn feed_step(st: ParserState, decoded: Seq<char>) -> (ParserState, Option<Seq<char>>, bool) {
    let b = st.held + decoded;
    if st.started {
        let (o, stop) = emit(b);
        (ParserState { held: Seq::empty(), started: true }, o, stop)
    } else if let Some(k) = reply_start(b) {
        let (o, stop) = emit(trim_start(b.skip(k)));
        (ParserState { held: Seq::empty(), started: true }, o, stop)
    } else {
        (ParserState { held: suffix_fit(b, max_pending()), started: false }, None, false)
    }
}

/// What is passed on at the end of the output: the held text, trimmed,
/// once the reply has begun and if anything is left.
pub open spec fn finish_step(st: ParserState) -> Option<Seq<char>> {
    if st.started && trim(st.held).len() > 0 {
        Some(trim(st.held))
    } else {
        None
    }
}

/// One read's worth of what the parser passes on.
pub struct ParseStep {
    /// Text of the reply, if any came with this read.
    pub output: Option<String>,
    /// Whether the reply is over; nothing more is to be read.
    pub stop: bool,
}

/// Picks the model's reply out of LiteRT-LM's output, read piece by piece.
pub struct LiteRtOutputParser {
    held: Vec<char>,
    started: bool,
}

impl View for LiteRtOutputParser {
    type V = ParserState;

    closed spec fn view(&self) -> ParserState {
        ParserState { held: self.held@, started: self.started }
    }
}

/// The view of an optional string.
pub open spec fn opt_chars(s: Option<String>) -> Option<Seq<char>> {
    match s {
        Some(t) => Some(t@),
        None => None,
    }
}

/// The longest suffix of `s` that takes at most `n` bytes.
fn keep_tail(s: &[char], n: usize) -> (r: Vec<char>)
    ensures
        r@ == suffix_fit(s@, n as int),
{
    let mut i = s.len();
    let mut acc: usize = 0;
    assert(s@.take(i as int) =~= s@);
    assert(s@ + s@.skip(i as int) =~= s@);
    while i > 0 && char_len(s[i - 1]) <= n - acc
        invariant
            i <= s@.len(),
            acc <= n,
            suffix_fit(s@, n as int) == suffix_fit(s@.take(i as int), n - acc) + s@.skip(i as int),
        decreases i,
    {
        let cl = char_len(s[i - 1]);
        proof {
            let t = s@.take(i as int);
            assert(t.drop_last() =~= s@.take(i - 1));
            assert(t.last() == s@[i - 1]);
            assert(s@.skip(i - 1) =~= seq![s@[i - 1]] + s@.skip(i as int));
            assert(suffix_fit(t, n - acc) == suffix_fit(s@.take(i - 1), n - acc - cl).push(
                s@[i - 1],
            ));
            assert(suffix_fit(s@.take(i - 1), n - acc - cl).push(s@[i - 1]) + s@.skip(i as int)
                =~= suffix_fit(s@.take(i - 1), n - acc - cl) + s@.skip(i - 1));
        }
        acc = acc + cl;
        i = i - 1;
    }
    proof {
        if i == 0 {
            assert(s@.take(0) =~= Seq::<char>::empty());
            assert(s@.skip(0) =~= s@);
            assert(suffix_fit(s@.take(0), n - acc) =~= Seq::<char>::empty());
        } else {
            let t = s@.take(i as int);
            assert(t.last() == s@[i - 1]);
            assert(suffix_fit(t, n - acc) =~= Seq::<char>::empty());
        }
        assert(suffix_fit(s@, n as int) =~= s@.skip(i as int));
    }
    slice_chars(s, i, s.len())
}

/// What is passed on of reply text `c` (see `emit`).
fn emit_exec(c: &[char]) -> (r: (Option<Vec<char>>, bool))
    ensures
        (match r.0 {
            Some(v) => Some(v@),
            None => None,
        }, r.1) == emit(c@),
{
    let stop = match find_exec(c, &to_chars("\nUser:")) {
        Some(p) => Some(p),
        None => match find_exec(c, &to_chars("BenchmarkInfo")) {
            Some(p) => Some(p),
            None => find_exec(c, &to_chars("benchmark_info")),
        },
    };
    match stop {
        Some(p) => {
            proof {
                if find(c@, "\nUser:"@) is Some {
                    lemma_find(c@, "\nUser:"@);
                } else if find(c@, "BenchmarkInfo"@) is Some {
                    lemma_find(c@, "BenchmarkInfo"@);
                } else {
                    lemma_find(c@, "benchmark_info"@);
                }
            }
            let head = slice_chars(c, 0, p);
            assert(head@ == c@.take(p as int));
            let out = trim_exec(&head);
            if out.len() > 0 {
                (Some(out), true)
            } else {
                (None, true)
            }
        },
        None => {
            if c.len() > 0 {
                (Some(slice_chars(c, 0, c.len())), false)
            } else {
                (None, false)
            }
        },
    }
}

impl LiteRtOutputParser {
    /// Nothing read yet; the reply has not begun.
    pub fn new() -> (p: Self)
        ensures
            p@ == (ParserState { held: Seq::empty(), started: false }),
    {
        LiteRtOutputParser { held: Vec::new(), started: false }
    }

    /// Whether the reply has begun.
    pub fn is_started(&self) -> (r: bool)
        ensures
            r == self@.started,
    {
        self.started
    }

    /// Takes the next piece of decoded output (see `feed_step`).
    pub fn feed(&mut self, decoded: &str) -> (r: ParseStep)
        ensures
            ({
                let (st, out, stop) = feed_step(old(self)@, decoded@);
                &&& final(self)@ == st
                &&& opt_chars(r.output) == out
                &&& r.stop == stop
            }),
    {
        let mut b = self.held.clone();
        push_all(&mut b, &to_chars(decoded));
        assert(b@ == old(self)@.held + decoded@);
        if !self.started {
            let marker = match find_exec(&b, &to_chars("<start_of_turn>model")) {
                Some(i) => {
                    proof {
                        lemma_find(b@, "<start_of_turn>model"@);
                        reveal_strlit("<start_of_turn>model");
                    }
                    Some(i + 20)
                },
                None => match rfind_exec(&b, &to_chars("\nAssistant:")) {
                    Some(i) => {
                        proof {
                            crate::text::lemma_rfind_down(
                                b@,
                                "\nAssistant:"@,
                                b@.len() - "\nAssistant:"@.len(),
                            );
                            reveal_strlit("\nAssistant:");
                        }
                        Some(i + 11)
                    },
                    None => None,
                },
            };
            match marker {
                Some(k) => {
                    let after = slice_chars(&b, k, b.len());
                    let skip = leading_ws(&after);
                    let body = slice_chars(&after, skip, after.len());
                    assert(body@ == trim_start(b@.skip(k as int)));
                    let (o, stop) = emit_exec(&body);
                    self.held = Vec::new();
                    self.started = true;
                    let output = match o {
                        Some(v) => Some(string_from_chars(&v)),
                        None => None,
                    };
                    return ParseStep { output, stop };
                },
                None => {
                    self.held = keep_tail(&b, 4096);
                    return ParseStep { output: None, stop: false };
                },
            }
        }
        let (o, stop) = emit_exec(&b);
        self.held = Vec::new();
        let output = match o {
            Some(v) => Some(string_from_chars(&v)),
            None => None,
        };
        ParseStep { output, stop }
    }

    /// What is passed on when the output has ended (see `finish_step`).
    pub fn finish(&self) -> (r: Option<String>)
        ensures
            opt_chars(r) == finish_step(self@),
    {
        if self.started {
            let t = trim_exec(&self.held);
            if t.len() > 0 {
                return Some(string_from_chars(&t));
            }
        }
        None
    }
}

// ---------------------------------------------------------------------------
// Laws
// ---------------------------------------------------------------------------

/// A suffix that fits is at most `n` bytes long.
proof fn lemma_suffix_fit_bound(s: Seq<char>, n: int)
    requires
        0 <= n,
    ensures
        utf8_len(suffix_fit(s, n)) <= n,
    decreases s.len(),
{
    if s.len() > 0 && char_utf8_len(s.last()) <= n {
        let t = suffix_fit(s.drop_last(), n - char_utf8_len(s.last()));
        lemma_suffix_fit_bound(s.drop_last(), n - char_utf8_len(s.last()));
        assert(t.push(s.last()).drop_last() =~= t);
    } else if s.len() > 0 {
        assert(utf8_len(Seq::<char>::empty()) == 0);
    }
}

/// Law: text that fits is kept whole.
pub proof fn law_short_text_kept_whole(s: Seq<char>, n: int)
    requires
        utf8_len(s) <= n,
    ensures
        suffix_fit(s, n) == s,
    decreases s.len(),
{
    if s.len() > 0 {
        law_short_text_kept_whole(s.drop_last(), n - char_utf8_len(s.last()));
        assert(s.drop_last().push(s.last()) =~= s);
    }
}

/// Law: nothing is passed on before the reply has begun, and while waiting
/// at most `max_pending()` bytes of output are held.
pub proof fn law_nothing_before_reply(st: ParserState, decoded: Seq<char>)
    ensures
        ({
            let (next, out, stop) = feed_step(st, decoded);
            &&& !next.started ==> out is None && !stop
            &&& !next.started ==> utf8_len(next.held) <= max_pending()
        }),
{
    let b = st.held + decoded;
    lemma_suffix_fit_bound(b, max_pending());
}

/// Law: once the reply has begun, every piece is passed on in the read that
/// brought it; nothing stays held.
pub proof fn law_reply_not_held(st: ParserState, decoded: Seq<char>)
    ensures
        feed_step(st, decoded).0.started ==> feed_step(st, decoded).0.held.len() == 0,
        st.started ==> feed_step(st, decoded).0.started,
{
}

/// A prefix of `c` that ends at or before the first `\nUser:` holds none,
/// and neither does that prefix trimmed.
proof fn lemma_trimmed_head_has_no_user_line(c: Seq<char>, p: int)
    requires
        0 <= p <= c.len(),
        forall|j: int| 0 <= j < p ==> !crate::text::occurs_at(c, "\nUser:"@, j),
    ensures
        !contains(trim(c.take(p)), "\nUser:"@),
{
    reveal_strlit("\nUser:");
    lemma_prefix_before_first(c, "\nUser:"@, p);
    lemma_find(c.take(p), "\nUser:"@);
    lemma_trim_keeps_absent(c.take(p), "\nUser:"@);
    lemma_find(trim(c.take(p)), "\nUser:"@);
}

/// Law: the reply stops at the first `\nUser:` line: what is passed on of
/// reply text `c` never holds a `\nUser:` line (a turn the model made up is
/// not shown), and when `c` has one, what is passed on is exactly the
/// trimmed text before the first, and the reply is over. The reply is over
/// just when `c` holds a `\nUser:` line or benchmark information; until then
/// all of `c` is passed on.
pub proof fn law_reply_stops_at_user_line(c: Seq<char>)
    ensures
        emit(c).0 matches Some(o) ==> !contains(o, "\nUser:"@),
        find(c, "\nUser:"@) matches Some(p) ==> emit(c) == (
            if trim(c.take(p)).len() > 0 {
                Some(trim(c.take(p)))
            } else {
                None
            },
            true,
        ),
        emit(c).1 == (contains(c, "\nUser:"@) || contains(c, "BenchmarkInfo"@) || contains(
            c,
            "benchmark_info"@,
        )),
        !emit(c).1 ==> emit(c).0 == (if c.len() > 0 {
            Some(c)
        } else {
            None::<Seq<char>>
        }),
{
    lemma_find(c, "\nUser:"@);
    lemma_find(c, "BenchmarkInfo"@);
    lemma_find(c, "benchmark_info"@);
    if let Some(p) = reply_stop(c) {
        lemma_trimmed_head_has_no_user_line(c, p);
    }
}

/// Law: nothing the parser passes on holds a `\nUser:` line, whatever it
/// has read before and whatever it reads now.
pub proof fn law_fed_reply_has_no_user_line(st: ParserState, decoded: Seq<char>)
    ensures
        feed_step(st, decoded).1 matches Some(o) ==> !contains(o, "\nUser:"@),
{
    let b = st.held + decoded;
    if st.started {
        law_reply_stops_at_user_line(b);
    } else if let Some(k) = reply_start(b) {
        law_reply_stops_at_user_line(trim_start(b.skip(k)));
    }
}

} // verus!
