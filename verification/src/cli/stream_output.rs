//! Turning streamed tokens into text for the terminal: complete tags are
//! handled, an incomplete tag stays in the buffer until more text arrives.
use vstd::prelude::*;
use crate::text::{
    find, find_exec, lemma_find, occurs_at, push_all, slice_chars, starts_with,
    starts_with_exec, string_from_chars, to_chars, trim, trim_exec,
};

verus! {

broadcast use vstd::string::group_string_axioms;

/// How many characters a turn header at the start of `b` takes, its line
/// break included: one of the known headers for user, model and system, or
/// else any `<start_of_turn>` up to the first line break.
pub open spec fn turn_header_len(b: Seq<char>) -> Option<int> {
    if starts_with(b, "<start_of_turn>user\n"@) {
        Some("<start_of_turn>user\n"@.len() as int)
    } else if starts_with(b, "<start_of_turn>model\n"@) {
        Some("<start_of_turn>model\n"@.len() as int)
    } else if starts_with(b, "<start_of_turn>system\n"@) {
        Some("<start_of_turn>system\n"@.len() as int)
    } else if starts_with(b, "<start_of_turn>"@) {
        if let Some(nl) = find(b, "\n"@) {
            Some(nl + 1)
        } else {
            None
        }
    } else {
        None
    }
}

/// How the content of a complete thinking block is shown (dimmed and
/// labelled), or nothing when it is not to be shown or is blank.
pub open spec fn shown_thought(content: Seq<char>, show_thinking: bool) -> Seq<char> {
    if show_thinking && trim(content).len() > 0 {
        "\x1b[2m[思考] "@ + trim(content) + "\x1b[0m\n"@
    } else {
        Seq::empty()
    }
}

/// What `drain_displayable` makes of the buffer `b`: the text to show, and
/// what stays in the buffer. Text before a `<` is shown; a tag at the front
/// is handled once it is complete, and waits in the buffer until then (a turn
/// header is complete at its line break, a thinking block at `</think>`,
/// any other tag at `>`).
pub open spec fn drain(b: Seq<char>, show_thinking: bool) -> (Seq<char>, Seq<char>)
    decreases b.len(),
{
    if let Some(n) = turn_header_len(b) {
        if 0 < n <= b.len() {
            drain(b.skip(n), show_thinking)
        } else {
            (Seq::empty(), b)
        }
    } else if starts_with(b, "<start_of_turn>"@) {
        (Seq::empty(), b)
    } else if starts_with(b, "<think>"@) {
        if let Some(end) = find(b, "</think>"@) {
            if 7 <= end && end + 8 <= b.len() {
                let rest = drain(b.skip(end + 8), show_thinking);
                (shown_thought(b.subrange(7, end), show_thinking) + rest.0, rest.1)
            } else {
                (Seq::empty(), b)
            }
        } else {
            (Seq::empty(), b)
        }
    } else if let Some(pos) = find(b, "<"@) {
        if 0 < pos < b.len() {
            let rest = drain(b.skip(pos), show_thinking);
            (b.take(pos) + rest.0, rest.1)
        } else if pos == 0 {
            if let Some(end) = find(b, ">"@) {
                if 0 <= end < b.len() {
                    drain(b.skip(end + 1), show_thinking)
                } else {
                    (Seq::empty(), b)
                }
            } else {
                (Seq::empty(), b)
            }
        } else {
            (b, Seq::empty())
        }
    } else {
        (b, Seq::empty())
    }
}

proof fn lemma_literal_facts()
    ensures
        "<start_of_turn>user\n"@.len() == 20,
        "<start_of_turn>model\n"@.len() == 21,
        "<start_of_turn>system\n"@.len() == 22,
        "<think>"@.len() == 7,
        "</think>"@.len() == 8,
        "<"@.len() == 1,
        ">"@.len() == 1,
        "\n"@.len() == 1,
        "<think>"@[1] == 't',
        "</think>"@[1] == '/',
        "<"@[0] == '<',
        "</think>"@[0] == '<',
        forall|j: int| 1 <= j < 7 ==> "<think>"@[j] != '<',
{
    reveal_strlit("<start_of_turn>user\n");
    reveal_strlit("<start_of_turn>model\n");
    reveal_strlit("<start_of_turn>system\n");
    reveal_strlit("<think>");
    reveal_strlit("</think>");
    reveal_strlit("<");
    reveal_strlit(">");
    reveal_strlit("\n");
}

/// Drains a leading turn header from `buf`, if there is one; answers its length.
fn consume_start_of_turn_tag(buf: &[char]) -> (r: Option<usize>)
    ensures
        r matches Some(n) ==> turn_header_len(buf@) == Some(n as int) && 0 < n <= buf@.len(),
        r is None ==> turn_header_len(buf@) is None,
{
    proof {
        lemma_literal_facts();
    }
    if starts_with_exec(buf, &to_chars("<start_of_turn>user\n")) {
        return Some(20);
    }
    if starts_with_exec(buf, &to_chars("<start_of_turn>model\n")) {
        return Some(21);
    }
    if starts_with_exec(buf, &to_chars("<start_of_turn>system\n")) {
        return Some(22);
    }
    if starts_with_exec(buf, &to_chars("<start_of_turn>")) {
        if let Some(nl) = find_exec(buf, &to_chars("\n")) {
            proof {
                lemma_find(buf@, "\n"@);
                assert(buf@.len() == buf.len());
            }
            return Some(nl + 1);
        }
    }
    None
}

/// The position of the first `>` in `buf`, if there is one.
fn consume_unknown_tag(buf: &[char]) -> (r: Option<usize>)
    ensures
        r matches Some(end) ==> find(buf@, ">"@) == Some(end as int) && end < buf@.len(),
        r is None ==> find(buf@, ">"@) is None,
{
    proof {
        lemma_literal_facts();
    }
    let r = find_exec(buf, &to_chars(">"));
    proof {
        lemma_find(buf@, ">"@);
    }
    r
}

/// Formats streamed tokens for display. Complete tags are processed: turn
/// headers and unknown tags are dropped, thinking blocks are shown dimmed when
/// `show_thinking` holds and dropped otherwise. An incomplete tag is left in
/// `buffer` to wait for more tokens; everything else is drained and returned.
pub fn drain_displayable(buffer: &mut String, show_thinking: bool) -> (out: String)
    ensures
        out@ == drain(old(buffer)@, show_thinking).0,
        final(buffer)@ == drain(old(buffer)@, show_thinking).1,
{
    proof {
        lemma_literal_facts();
    }
    let header = to_chars("<start_of_turn>");
    let open = to_chars("<think>");
    let close = to_chars("</think>");
    let lt = to_chars("<");
    let mut out: Vec<char> = Vec::new();
    let mut cur = to_chars(buffer.as_str());
    let ghost total = drain(old(buffer)@, show_thinking);
    loop
        invariant_except_break
            out@ + drain(cur@, show_thinking).0 == total.0,
            drain(cur@, show_thinking).1 == total.1,
        invariant
            header@ == "<start_of_turn>"@,
            open@ == "<think>"@,
            close@ == "</think>"@,
            lt@ == "<"@,
            "<think>"@.len() == 7,
            "</think>"@.len() == 8,
            total == drain(old(buffer)@, show_thinking),
        ensures
            out@ == total.0,
            cur@ == total.1,
        decreases cur@.len(),
    {
        proof {
            lemma_literal_facts();
        }
        if let Some(n) = consume_start_of_turn_tag(&cur) {
            cur = slice_chars(&cur, n, cur.len());
            continue ;
        }
        if starts_with_exec(&cur, &header) {
            break ;
        }
        if starts_with_exec(&cur, &open) {
            if let Some(end) = find_exec(&cur, &close) {
                proof {
                    lemma_find(cur@, "</think>"@);
                    if end < 7 {
                        assert(cur@.take(7) == "<think>"@);
                        assert(cur@.subrange(end as int, end + 8) == "</think>"@);
                        if end == 0 {
                            assert(cur@[1] == cur@.take(7)[1]);
                            assert(cur@[1] == cur@.subrange(end as int, end + 8)[1]);
                            assert(false);
                        } else {
                            assert(cur@[end as int] == cur@.take(7)[end as int]);
                            assert("<think>"@[end as int] != '<');
                            assert(cur@[end as int] == cur@.subrange(end as int, end + 8)[0]);
                            assert(false);
                        }
                    }
                    assert(cur@.len() == cur.len());
                }
                assert(7 <= end && end + 8 <= cur.len());
                let ghost old_out = out@;
                let ghost old_cur = cur@;
                if show_thinking {
                    let inner = slice_chars(&cur, 7, end);
                    let content = trim_exec(&inner);
                    if content.len() > 0 {
                        push_all(&mut out, &to_chars("\x1b[2m[思考] "));
                        push_all(&mut out, &content);
                        push_all(&mut out, &to_chars("\x1b[0m\n"));
                    }
                }
                assert(out@ == old_out + shown_thought(old_cur.subrange(7, end as int), show_thinking));
                cur = slice_chars(&cur, end + 8, cur.len());
                continue ;
            }
            break ;
        }
        if let Some(pos) = find_exec(&cur, &lt) {
            proof {
                lemma_find(cur@, "<"@);
            }
            if pos > 0 {
                let text = slice_chars(&cur, 0, pos);
                push_all(&mut out, &text);
                cur = slice_chars(&cur, pos, cur.len());
                continue ;
            }
            if let Some(end) = consume_unknown_tag(&cur) {
                assert(cur@.len() == cur.len());
                cur = slice_chars(&cur, end + 1, cur.len());
                continue ;
            }
            break ;
        }
        push_all(&mut out, &cur);
        cur = Vec::new();
        break ;
    }
    *buffer = string_from_chars(&cur);
    string_from_chars(&out)
}

/// Every tag that `drain` handles at the front of the buffer begins with `<`.
proof fn lemma_header_starts_with_lt(b: Seq<char>)
    requires
        turn_header_len(b) is Some || starts_with(b, "<start_of_turn>"@) || starts_with(
            b,
            "<think>"@,
        ),
    ensures
        b.len() > 0 && b[0] == '<',
{
    reveal_strlit("<start_of_turn>user\n");
    reveal_strlit("<start_of_turn>model\n");
    reveal_strlit("<start_of_turn>system\n");
    reveal_strlit("<start_of_turn>");
    reveal_strlit("<think>");
    if starts_with(b, "<start_of_turn>user\n"@) {
        assert(b[0] == b.take(20)[0]);
    } else if starts_with(b, "<start_of_turn>model\n"@) {
        assert(b[0] == b.take(21)[0]);
    } else if starts_with(b, "<start_of_turn>system\n"@) {
        assert(b[0] == b.take(22)[0]);
    } else if starts_with(b, "<start_of_turn>"@) {
        assert(b[0] == b.take(15)[0]);
    } else {
        assert(b[0] == b.take(7)[0]);
    }
}

/// The first `<` of `b` stands at `pos`: nothing before it is a `<`.
proof fn lemma_no_lt_before(b: Seq<char>, pos: int)
    requires
        find(b, "<"@) == Some(pos),
    ensures
        0 <= pos < b.len(),
        b[pos] == '<',
        forall|i: int| 0 <= i < pos ==> b[i] != '<',
{
    lemma_literal_facts();
    lemma_find(b, "<"@);
    assert(b[pos] == b.subrange(pos, pos + 1)[0]);
    assert forall|i: int| 0 <= i < pos implies b[i] != '<' by {
        if b[i] == '<' {
            assert(b.subrange(i, i + 1) =~= "<"@);
            assert(occurs_at(b, "<"@, i));
        }
    }
}

/// Law: after draining, the buffer is either empty or holds an incomplete
/// tag, which begins with `<`.
pub proof fn law_drain_leaves_only_incomplete_tag(b: Seq<char>, show_thinking: bool)
    ensures
        drain(b, show_thinking).1.len() == 0 || drain(b, show_thinking).1[0] == '<',
    decreases b.len(),
{
    lemma_literal_facts();
    if let Some(n) = turn_header_len(b) {
        lemma_header_starts_with_lt(b);
        if 0 < n <= b.len() {
            law_drain_leaves_only_incomplete_tag(b.skip(n), show_thinking);
        }
    } else if starts_with(b, "<start_of_turn>"@) {
        lemma_header_starts_with_lt(b);
    } else if starts_with(b, "<think>"@) {
        lemma_header_starts_with_lt(b);
        if let Some(end) = find(b, "</think>"@) {
            if 7 <= end && end + 8 <= b.len() {
                law_drain_leaves_only_incomplete_tag(b.skip(end + 8), show_thinking);
            }
        }
    } else if let Some(pos) = find(b, "<"@) {
        lemma_no_lt_before(b, pos);
        if 0 < pos {
            law_drain_leaves_only_incomplete_tag(b.skip(pos), show_thinking);
        } else if let Some(end) = find(b, ">"@) {
            if 0 <= end < b.len() {
                law_drain_leaves_only_incomplete_tag(b.skip(end + 1), show_thinking);
            }
        }
    }
}

/// Law: draining what a drain left behind shows nothing and keeps the
/// buffer as it is; a second call with no new tokens changes nothing.
pub proof fn law_drain_idempotent(b: Seq<char>, show_thinking: bool)
    ensures
        drain(drain(b, show_thinking).1, show_thinking) == (
            Seq::<char>::empty(),
            drain(b, show_thinking).1,
        ),
    decreases b.len(),
{
    lemma_literal_facts();
    let e = Seq::<char>::empty();
    if let Some(n) = turn_header_len(b) {
        if 0 < n <= b.len() {
            law_drain_idempotent(b.skip(n), show_thinking);
        }
    } else if starts_with(b, "<start_of_turn>"@) {
    } else if starts_with(b, "<think>"@) {
        if let Some(end) = find(b, "</think>"@) {
            if 7 <= end && end + 8 <= b.len() {
                law_drain_idempotent(b.skip(end + 8), show_thinking);
            }
        }
    } else if let Some(pos) = find(b, "<"@) {
        if 0 < pos < b.len() {
            law_drain_idempotent(b.skip(pos), show_thinking);
        } else if pos == 0 {
            if let Some(end) = find(b, ">"@) {
                if 0 <= end < b.len() {
                    law_drain_idempotent(b.skip(end + 1), show_thinking);
                }
            }
        } else {
            lemma_drain_empty(show_thinking);
        }
    } else {
        lemma_drain_empty(show_thinking);
    }
}

/// An empty buffer drains to nothing.
proof fn lemma_drain_empty(show_thinking: bool)
    ensures
        drain(Seq::<char>::empty(), show_thinking) == (Seq::<char>::empty(), Seq::<char>::empty()),
{
    let e = Seq::<char>::empty();
    lemma_literal_facts();
    reveal_strlit("<start_of_turn>");
    lemma_find(e, "<"@);
    lemma_find(e, "\n"@);
    assert(!starts_with(e, "<start_of_turn>"@));
    assert(!starts_with(e, "<think>"@));
    assert(turn_header_len(e) is None);
}

/// Law: with thinking hidden, what is shown never holds a `<`: every tag,
/// complete or not, is kept off the screen.
pub proof fn law_hidden_output_has_no_tags(b: Seq<char>)
    ensures
        forall|i: int| 0 <= i < drain(b, false).0.len() ==> drain(b, false).0[i] != '<',
    decreases b.len(),
{
    lemma_literal_facts();
    if let Some(n) = turn_header_len(b) {
        if 0 < n <= b.len() {
            law_hidden_output_has_no_tags(b.skip(n));
            assert(drain(b, false) == drain(b.skip(n), false));
        }
    } else if starts_with(b, "<start_of_turn>"@) {
        assert(drain(b, false).0 =~= Seq::<char>::empty());
    } else if starts_with(b, "<think>"@) {
        if let Some(end) = find(b, "</think>"@) {
            if 7 <= end && end + 8 <= b.len() {
                law_hidden_output_has_no_tags(b.skip(end + 8));
                assert(shown_thought(b.subrange(7, end), false) =~= Seq::<char>::empty());
                assert(drain(b, false).0 =~= drain(b.skip(end + 8), false).0);
            }
        }
    } else if let Some(pos) = find(b, "<"@) {
        lemma_no_lt_before(b, pos);
        if 0 < pos {
            law_hidden_output_has_no_tags(b.skip(pos));
            let rest = drain(b.skip(pos), false);
            assert(drain(b, false).0 == b.take(pos) + rest.0);
            assert forall|i: int| 0 <= i < drain(b, false).0.len() implies drain(
                b,
                false,
            ).0[i] != '<' by {
                if i >= pos {
                    assert(drain(b, false).0[i] == rest.0[i - pos]);
                } else {
                    assert(drain(b, false).0[i] == b.take(pos)[i]);
                }
            }
        } else if let Some(end) = find(b, ">"@) {
            if 0 <= end < b.len() {
                law_hidden_output_has_no_tags(b.skip(end + 1));
                assert(drain(b, false) == drain(b.skip(end + 1), false));
            } else {
                assert(drain(b, false).0 =~= Seq::<char>::empty());
            }
        } else {
            assert(drain(b, false).0 =~= Seq::<char>::empty());
        }
    } else {
        lemma_find(b, "<"@);
        assert(drain(b, false).0 == b);
        assert forall|i: int| 0 <= i < b.len() implies b[i] != '<' by {
            if b[i] == '<' {
                assert(b.subrange(i, i + 1) =~= "<"@);
                assert(occurs_at(b, "<"@, i));
            }
        }
    }
}

/// Law: text that holds no `<` is shown as it is, and nothing stays behind.
pub proof fn law_plain_text_passes_through(b: Seq<char>, show_thinking: bool)
    requires
        forall|i: int| 0 <= i < b.len() ==> b[i] != '<',
    ensures
        drain(b, show_thinking) == (b, Seq::<char>::empty()),
{
    lemma_literal_facts();
    if turn_header_len(b) is Some || starts_with(b, "<start_of_turn>"@) || starts_with(
        b,
        "<think>"@,
    ) {
        lemma_header_starts_with_lt(b);
    }
    lemma_find(b, "<"@);
    if let Some(pos) = find(b, "<"@) {
        assert(b[pos] == b.subrange(pos, pos + 1)[0]);
    }
}

} // verus!
