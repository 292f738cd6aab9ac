//! Cleaning up what a model produced before it is shown or saved:
//! chat-template markers and `<think>` blocks are removed.
use vstd::prelude::*;
use crate::text::{
    contains, lemma_trim_edges, lemma_trim_end_shape, lemma_trim_start_shape, trim_end, trim_start,
    find, is_ws, lemma_find, occurs_at, push_all, slice_chars, string_from_chars, to_chars, trim,
    find_exec, trim_exec,
};

verus! {

// ---------------------------------------------------------------------------
// Markers
// ---------------------------------------------------------------------------

/// `<think>`
pub open spec fn think_open() -> Seq<char> {
    seq!['<', 't', 'h', 'i', 'n', 'k', '>']
}

/// `</think>`
pub open spec fn think_close() -> Seq<char> {
    seq!['<', '/', 't', 'h', 'i', 'n', 'k', '>']
}

/// `<end_of_turn>`
pub open spec fn end_of_turn() -> Seq<char> {
    seq!['<', 'e', 'n', 'd', '_', 'o', 'f', '_', 't', 'u', 'r', 'n', '>']
}

/// `<|im_end|>`
pub open spec fn im_end() -> Seq<char> {
    seq!['<', '|', 'i', 'm', '_', 'e', 'n', 'd', '|', '>']
}

/// `<start_of_turn>`
pub open spec fn start_of_turn() -> Seq<char> {
    seq!['<', 's', 't', 'a', 'r', 't', '_', 'o', 'f', '_', 't', 'u', 'r', 'n', '>']
}

/// `<|im_start|>`
pub open spec fn im_start() -> Seq<char> {
    seq!['<', '|', 'i', 'm', '_', 's', 't', 'a', 'r', 't', '|', '>']
}

/// A line break.
pub open spec fn newline() -> Seq<char> {
    seq!['\n']
}

pub fn think_open_exec() -> (v: Vec<char>)
    ensures
        v@ == think_open(),
{
    let v = vec!['<', 't', 'h', 'i', 'n', 'k', '>'];
    assert(v@ =~= think_open());
    v
}

pub fn think_close_exec() -> (v: Vec<char>)
    ensures
        v@ == think_close(),
{
    let v = vec!['<', '/', 't', 'h', 'i', 'n', 'k', '>'];
    assert(v@ =~= think_close());
    v
}

fn end_of_turn_exec() -> (v: Vec<char>)
    ensures
        v@ == end_of_turn(),
{
    let v = vec!['<', 'e', 'n', 'd', '_', 'o', 'f', '_', 't', 'u', 'r', 'n', '>'];
    assert(v@ =~= end_of_turn());
    v
}

fn im_end_exec() -> (v: Vec<char>)
    ensures
        v@ == im_end(),
{
    let v = vec!['<', '|', 'i', 'm', '_', 'e', 'n', 'd', '|', '>'];
    assert(v@ =~= im_end());
    v
}

pub fn start_of_turn_exec() -> (v: Vec<char>)
    ensures
        v@ == start_of_turn(),
{
    let v = vec!['<', 's', 't', 'a', 'r', 't', '_', 'o', 'f', '_', 't', 'u', 'r', 'n', '>'];
    assert(v@ =~= start_of_turn());
    v
}

fn im_start_exec() -> (v: Vec<char>)
    ensures
        v@ == im_start(),
{
    let v = vec!['<', '|', 'i', 'm', '_', 's', 't', 'a', 'r', 't', '|', '>'];
    assert(v@ =~= im_start());
    v
}

pub fn newline_exec() -> (v: Vec<char>)
    ensures
        v@ == newline(),
{
    let v = vec!['\n'];
    assert(v@ =~= newline());
    v
}

// ---------------------------------------------------------------------------
// Specification
// ---------------------------------------------------------------------------

/// Removes, again and again, the leftmost `<think>` block up to and including
/// the `</think>` that follows it; an unclosed `<think>` cuts off the rest.
pub open spec fn strip_thinking(s: Seq<char>) -> Seq<char>
    decreases s.len(),
{
    if let Some(start) = find(s, think_open()) {
        if let Some(end) = find(s.skip(start), think_close()) {
            proof {
                lemma_find(s, think_open());
                lemma_find(s.skip(start), think_close());
            }
            strip_thinking(s.take(start) + s.skip(start + end + 8))
        } else {
            s.take(start)
        }
    } else {
        s
    }
}

/// Everything before the first `<end_of_turn>`, or else before the first
/// `<|im_end|>`; the whole text when neither occurs.
pub open spec fn cut_at_end_marker(s: Seq<char>) -> Seq<char> {
    if let Some(i) = find(s, end_of_turn()) {
        s.take(i)
    } else if let Some(i) = find(s, im_end()) {
        s.take(i)
    } else {
        s
    }
}

/// The first position where a turn header (`<start_of_turn>` or `<|im_start|>`) begins.
pub open spec fn first_turn_header(s: Seq<char>) -> Option<int> {
    match (find(s, start_of_turn()), find(s, im_start())) {
        (Some(a), Some(b)) => Some(if a <= b { a } else { b }),
        (Some(a), None) => Some(a),
        (None, Some(b)) => Some(b),
        (None, None) => None,
    }
}

/// Removes every turn header together with the rest of its line (up to and
/// including the line break); a header without a line break cuts off the rest.
pub open spec fn drop_turn_headers(s: Seq<char>) -> Seq<char>
    decreases s.len(),
{
    if let Some(idx) = first_turn_header(s) {
        if let Some(nl) = find(s.skip(idx), newline()) {
            proof {
                lemma_find(s, start_of_turn());
                lemma_find(s, im_start());
                lemma_find(s.skip(idx), newline());
            }
            s.take(idx) + drop_turn_headers(s.skip(idx + nl + 1))
        } else {
            s.take(idx)
        }
    } else {
        s
    }
}

/// What `strip_template_tags` returns.
pub open spec fn strip_template(s: Seq<char>) -> Seq<char> {
    trim(drop_turn_headers(cut_at_end_marker(s)))
}

/// What `clean_assistant_output` returns.
pub open spec fn clean_output(s: Seq<char>) -> Seq<char> {
    trim(strip_thinking(strip_template(s)))
}

// ---------------------------------------------------------------------------
// Implementation
// ---------------------------------------------------------------------------

/// Removes `<think>` blocks (see `strip_thinking`).
pub fn strip_thinking_tags(s: &str) -> (r: String)
    ensures
        r@ == strip_thinking(s@),
{
    let open = think_open_exec();
    let close = think_close_exec();
    let mut cur = to_chars(s);
    loop
        invariant
            open@ == think_open(),
            close@ == think_close(),
            strip_thinking(cur@) == strip_thinking(s@),
        decreases cur@.len(),
    {
        match find_exec(&cur, &open) {
            None => {
                return string_from_chars(&cur);
            },
            Some(start) => {
                proof {
                    lemma_find(cur@, think_open());
                }
                let tail = slice_chars(&cur, start, cur.len());
                assert(tail@ == cur@.skip(start as int));
                match find_exec(&tail, &close) {
                    Some(end) => {
                        proof {
                            lemma_find(tail@, think_close());
                        }
                        let mut next = slice_chars(&cur, 0, start);
                        let after = slice_chars(&cur, start + end + 8, cur.len());
                        push_all(&mut next, &after);
                        assert(next@ =~= cur@.take(start as int) + cur@.skip(start + end + 8));
                        cur = next;
                    },
                    None => {
                        let head = slice_chars(&cur, 0, start);
                        assert(head@ =~= cur@.take(start as int));
                        return string_from_chars(&head);
                    },
                }
            },
        }
    }
}

/// Everything before the first end marker (see `cut_at_end_marker`).
fn cut_at_end_marker_exec(s: &[char]) -> (r: Vec<char>)
    ensures
        r@ == cut_at_end_marker(s@),
{
    let eot = end_of_turn_exec();
    let ime = im_end_exec();
    if let Some(i) = find_exec(s, &eot) {
        proof {
            lemma_find(s@, end_of_turn());
        }
        let r = slice_chars(s, 0, i);
        assert(r@ =~= s@.take(i as int));
        r
    } else if let Some(i) = find_exec(s, &ime) {
        proof {
            lemma_find(s@, im_end());
        }
        let r = slice_chars(s, 0, i);
        assert(r@ =~= s@.take(i as int));
        r
    } else {
        slice_chars(s, 0, s.len())
    }
}

/// The first position of a turn header (see `first_turn_header`).
fn first_turn_header_exec(s: &[char], sot: &[char], ims: &[char]) -> (r: Option<usize>)
    requires
        sot@ == start_of_turn(),
        ims@ == im_start(),
    ensures
        r matches Some(k) ==> first_turn_header(s@) == Some(k as int),
        r is None ==> first_turn_header(s@) is None,
{
    let a = find_exec(s, sot);
    let b = find_exec(s, ims);
    match (a, b) {
        (Some(x), Some(y)) => Some(if x <= y { x } else { y }),
        (Some(x), None) => Some(x),
        (None, Some(y)) => Some(y),
        (None, None) => None,
    }
}

/// Removes chat-template markers and trims (see `strip_template`).
pub fn strip_template_tags(s: &str) -> (r: String)
    ensures
        r@ == strip_template(s@),
{
    let chars = to_chars(s);
    let cut = cut_at_end_marker_exec(&chars);
    let sot = start_of_turn_exec();
    let ims = im_start_exec();
    let nlp = newline_exec();
    let mut result: Vec<char> = Vec::new();
    let mut rest = cut;
    loop
        invariant
            sot@ == start_of_turn(),
            ims@ == im_start(),
            nlp@ == newline(),
            result@ + drop_turn_headers(rest@) == drop_turn_headers(cut_at_end_marker(s@)),
        ensures
            result@ + rest@ == drop_turn_headers(cut_at_end_marker(s@)),
        decreases rest@.len(),
    {
        match first_turn_header_exec(&rest, &sot, &ims) {
            None => {
                break ;
            },
            Some(idx) => {
                proof {
                    lemma_find(rest@, start_of_turn());
                    lemma_find(rest@, im_start());
                }
                let head = slice_chars(&rest, 0, idx);
                push_all(&mut result, &head);
                let from_header = slice_chars(&rest, idx, rest.len());
                assert(from_header@ == rest@.skip(idx as int));
                match find_exec(&from_header, &nlp) {
                    Some(nl) => {
                        proof {
                            lemma_find(from_header@, newline());
                        }
                        let next = slice_chars(&rest, idx + nl + 1, rest.len());
                        assert(head@ == rest@.take(idx as int));
                        assert(next@ == rest@.skip(idx + nl + 1));
                        assert(result@ + drop_turn_headers(next@) == drop_turn_headers(
                            cut_at_end_marker(s@),
                        ));
                        rest = next;
                    },
                    None => {
                        assert(head@ == rest@.take(idx as int));
                        rest = Vec::new();
                        assert(drop_turn_headers(rest@) =~= Seq::<char>::empty());
                        assert(result@ + drop_turn_headers(rest@) =~= result@);
                        break ;
                    },
                }
            },
        }
    }
    push_all(&mut result, &rest);
    let trimmed = trim_exec(&result);
    string_from_chars(&trimmed)
}

/// Removes chat-template markers and `<think>` blocks from a model's answer
/// and trims the result (see `clean_output`).
pub fn clean_assistant_output(s: &str) -> (r: String)
    ensures
        r@ == clean_output(s@),
{
    let without_template = strip_template_tags(s);
    let without_thinking = strip_thinking_tags(without_template.as_str());
    let chars = to_chars(without_thinking.as_str());
    let trimmed = trim_exec(&chars);
    string_from_chars(&trimmed)
}

// ---------------------------------------------------------------------------
// Laws
// ---------------------------------------------------------------------------

/// An occurrence inside a slice of `t` is an occurrence in `t`.
proof fn lemma_occurs_in_subrange(t: Seq<char>, pat: Seq<char>, a: int, b: int, j: int)
    requires
        0 <= a <= b <= t.len(),
        occurs_at(t.subrange(a, b), pat, j),
    ensures
        occurs_at(t, pat, a + j),
{
    assert(t.subrange(a, b).subrange(j, j + pat.len()) =~= t.subrange(a + j, a + j + pat.len()));
}

/// `strip_thinking` leaves no `<think>` behind.
proof fn lemma_strip_thinking_no_open(t: Seq<char>)
    ensures
        forall|j: int| !occurs_at(strip_thinking(t), think_open(), j),
    decreases t.len(),
{
    lemma_find(t, think_open());
    if let Some(start) = find(t, think_open()) {
        lemma_find(t.skip(start), think_close());
        if let Some(end) = find(t.skip(start), think_close()) {
            lemma_strip_thinking_no_open(t.take(start) + t.skip(start + end + 8));
            assert(strip_thinking(t) == strip_thinking(t.take(start) + t.skip(start + end + 8)));
        } else {
            assert(strip_thinking(t) == t.take(start));
            assert forall|j: int| !occurs_at(t.take(start), think_open(), j) by {
                if occurs_at(t.take(start), think_open(), j) {
                    assert(t.take(start) == t.subrange(0, start));
                    lemma_occurs_in_subrange(t, think_open(), 0, start, j);
                }
            }
        }
    } else {
        assert(strip_thinking(t) == t);
    }
}

/// Trimming keeps a pattern absent.
pub proof fn lemma_trim_keeps_absent(t: Seq<char>, pat: Seq<char>)
    requires
        forall|j: int| !occurs_at(t, pat, j),
    ensures
        forall|j: int| !occurs_at(trim(t), pat, j),
{
    lemma_trim_start_shape(t);
    let u = trim_start(t);
    lemma_trim_end_shape(u);
    let a = t.len() - u.len();
    let b = a + trim_end(u).len();
    assert(trim(t) =~= t.subrange(a, b));
    assert forall|j: int| !occurs_at(trim(t), pat, j) by {
        if occurs_at(trim(t), pat, j) {
            lemma_occurs_in_subrange(t, pat, a, b, j);
        }
    }
}

/// Law: an answer once cleaned neither begins nor ends with white space.
pub proof fn law_clean_output_is_trimmed(s: Seq<char>)
    ensures
        clean_output(s).len() > 0 ==> !is_ws(clean_output(s)[0]) && !is_ws(
            clean_output(s).last(),
        ),
{
    lemma_trim_edges(strip_thinking(strip_template(s)));
}

/// Law: no `<think>` tag is left in an answer once cleaned.
pub proof fn law_clean_output_has_no_think_tag(s: Seq<char>)
    ensures
        !contains(clean_output(s), think_open()),
{
    let t = strip_thinking(strip_template(s));
    lemma_strip_thinking_no_open(strip_template(s));
    lemma_trim_keeps_absent(t, think_open());
    lemma_find(clean_output(s), think_open());
}

/// Law: removing `<think>` blocks a second time changes nothing.
pub proof fn law_strip_thinking_idempotent(s: Seq<char>)
    ensures
        strip_thinking(strip_thinking(s)) == strip_thinking(s),
{
    let t = strip_thinking(s);
    lemma_strip_thinking_no_open(s);
    lemma_find(t, think_open());
}

/// An occurrence of a pattern in a prefix of `t` is an occurrence in `t`.
proof fn lemma_occurs_in_prefix(t: Seq<char>, pat: Seq<char>, i: int, j: int)
    requires
        0 <= i <= t.len(),
        occurs_at(t.take(i), pat, j),
    ensures
        occurs_at(t, pat, j),
        j + pat.len() <= i,
{
    assert(t.take(i) == t.subrange(0, i));
    lemma_occurs_in_subrange(t, pat, 0, i, j);
}

/// Nothing that occurs in `s` occurs in a prefix of `s` ending at or before
/// its first occurrence.
pub proof fn lemma_prefix_before_first(s: Seq<char>, pat: Seq<char>, i: int)
    requires
        0 <= i <= s.len(),
        pat.len() > 0,
        forall|j: int| 0 <= j < i ==> !occurs_at(s, pat, j),
    ensures
        !contains(s.take(i), pat),
{
    lemma_find(s.take(i), pat);
    if let Some(j) = find(s.take(i), pat) {
        lemma_occurs_in_prefix(s, pat, i, j);
    }
}

/// `<end_of_turn>` has thirteen characters and only its first is a `<`.
proof fn lemma_end_of_turn_shape()
    ensures
        end_of_turn().len() == 13,
        end_of_turn()[0] == '<',
        forall|k: int| 1 <= k < 13 ==> end_of_turn()[k] != '<',
        im_end().len() == 10,
{
}

/// In `t + <end_of_turn> + u`, where `t` holds no `<end_of_turn>`, the first
/// `<end_of_turn>` is the one right after `t`.
proof fn lemma_first_end_marker(t: Seq<char>, u: Seq<char>)
    requires
        !contains(t, end_of_turn()),
    ensures
        find(t + end_of_turn() + u, end_of_turn()) == Some(t.len() as int),
{
    let e = end_of_turn();
    let s = t + e + u;
    let n = t.len() as int;
    lemma_end_of_turn_shape();
    lemma_find(t, e);
    lemma_find(s, e);
    assert(s.subrange(n, n + 13) =~= e);
    assert(occurs_at(s, e, n));
    assert forall|j: int| 0 <= j < n implies !occurs_at(s, e, j) by {
        if occurs_at(s, e, j) {
            if j + 13 <= n {
                assert(t.subrange(j, j + 13) =~= s.subrange(j, j + 13));
                assert(occurs_at(t, e, j));
            } else {
                let k = n - j;
                assert(s[n] == e[0]);
                assert(s.subrange(j, j + 13)[k] == s[n]);
                assert(e[k] != '<');
            }
        }
    }
}

/// Law: an answer ends before the first `<end_of_turn>`: whatever follows
/// that marker (a next turn the model made up, more markers) is cut off, so
/// the answer is what the text before it gives.
pub proof fn law_answer_ends_at_first_end_marker(t: Seq<char>, u: Seq<char>)
    requires
        !contains(t, end_of_turn()),
    ensures
        cut_at_end_marker(t + end_of_turn() + u) == t,
        strip_template(t + end_of_turn() + u) == trim(drop_turn_headers(t)),
        !contains(t, im_end()) ==> strip_template(t + end_of_turn() + u) == strip_template(t),
{
    lemma_first_end_marker(t, u);
    assert((t + end_of_turn() + u).take(t.len() as int) =~= t);
    lemma_find(t, im_end());
}

/// Law: what is left after cutting at the end marker holds no
/// `<end_of_turn>`, and, when the text has no `<end_of_turn>`, no
/// `<|im_end|>` either.
pub proof fn law_cut_leaves_no_end_marker(s: Seq<char>)
    ensures
        !contains(cut_at_end_marker(s), end_of_turn()),
        !contains(s, end_of_turn()) ==> !contains(cut_at_end_marker(s), im_end()),
{
    lemma_end_of_turn_shape();
    lemma_find(s, end_of_turn());
    lemma_find(s, im_end());
    if let Some(i) = find(s, end_of_turn()) {
        lemma_prefix_before_first(s, end_of_turn(), i);
    } else if let Some(i) = find(s, im_end()) {
        lemma_prefix_before_first(s, end_of_turn(), i);
        lemma_prefix_before_first(s, im_end(), i);
    }
}

} // verus!
