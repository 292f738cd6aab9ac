//! Reading numbers given on the command line, choosing between what was
//! given, what is stored for a model and the defaults, and reading a chat line.
use vstd::prelude::*;
use crate::text::{string_from_chars, text_eq, to_chars, trim, trim_exec};

verus! {

broadcast use vstd::string::group_string_axioms;

/// Every character of `s` is a decimal digit.
pub open spec fn all_digits(s: Seq<char>) -> bool {
    forall|i: int| 0 <= i < s.len() ==> '0' <= #[trigger] s[i] && s[i] <= '9'
}

/// The number that the decimal digits `s` write.
pub open spec fn digits_value(s: Seq<char>) -> nat
    decreases s.len(),
{
    if s.len() == 0 {
        0
    } else {
        digits_value(s.drop_last()) * 10 + ((s.last() as int) - ('0' as int)) as nat
    }
}

/// What Rust's integer parsing (`str::parse`) reads in `s`: an optional
/// `+` (or, when `signed`, `-`) followed by one or more decimal digits and
/// nothing else; the range of the target type is checked separately.
pub open spec fn parsed_int(s: Seq<char>, signed: bool) -> Option<int> {
    if s.len() == 0 || (s.len() == 1 && (s[0] == '+' || s[0] == '-')) {
        None
    } else {
        let (neg, ds) = if s[0] == '+' {
            (false, s.drop_first())
        } else if signed && s[0] == '-' {
            (true, s.drop_first())
        } else {
            (false, s)
        };
        if all_digits(ds) {
            Some(
                if neg {
                    -(digits_value(ds) as int)
                } else {
                    digits_value(ds) as int
                },
            )
        } else {
            None
        }
    }
}

/// What `str::parse::<i32>` gives for `s`.
pub open spec fn parse_i32_spec(s: Seq<char>) -> Option<i32> {
    match parsed_int(s, true) {
        Some(v) => if i32::MIN <= v <= i32::MAX {
            Some(v as i32)
        } else {
            None
        },
        None => None,
    }
}

/// What `str::parse::<usize>` gives for `s`.
pub open spec fn parse_usize_spec(s: Seq<char>) -> Option<usize> {
    match parsed_int(s, false) {
        Some(v) => if 0 <= v <= usize::MAX {
            Some(v as usize)
        } else {
            None
        },
        None => None,
    }
}

proof fn lemma_digits_value_mono(s: Seq<char>, k: int)
    requires
        0 <= k <= s.len(),
        all_digits(s),
    ensures
        digits_value(s.take(k)) <= digits_value(s),
    decreases s.len() - k,
{
    if k < s.len() {
        assert(s.drop_last().take(k) =~= s.take(k));
        assert(all_digits(s.drop_last()));
        lemma_digits_value_mono(s.drop_last(), k);
    } else {
        assert(s.take(k) =~= s);
    }
}

/// The value of the digits `ds`, if it is at most `limit`.
fn digits_up_to(ds: &[char], limit: u64) -> (r: Option<u64>)
    requires
        limit >= 9,
    ensures
        r matches Some(v) ==> all_digits(ds@) && v == digits_value(ds@) && v <= limit,
        r is None ==> !all_digits(ds@) || digits_value(ds@) > limit,
{
    let mut acc: u64 = 0;
    let mut i: usize = 0;
    while i < ds.len()
        invariant
            i <= ds@.len(),
            all_digits(ds@.take(i as int)),
            acc == digits_value(ds@.take(i as int)),
            acc <= limit,
            limit >= 9,
        decreases ds@.len() - i,
    {
        let c = ds[i];
        assert(ds@.take(i + 1).drop_last() =~= ds@.take(i as int));
        if !('0' <= c && c <= '9') {
            assert(!all_digits(ds@)) by {
                assert(ds@[i as int] == c);
            }
            return None;
        }
        let d = (c as u32 - '0' as u32) as u64;
        if acc > (limit - d) / 10 {
            proof {
                assert(digits_value(ds@.take(i + 1)) == acc * 10 + d);
                assert(acc * 10 + d > limit) by (nonlinear_arith)
                    requires
                        acc > (limit - d) / 10,
                        d <= limit,
                        d <= 9,
                ;
                if all_digits(ds@) {
                    lemma_digits_value_mono(ds@, i + 1);
                }
            }
            return None;
        }
        assert(acc * 10 + d <= limit) by (nonlinear_arith)
            requires
                acc <= (limit - d) / 10,
                d <= limit,
        ;
        acc = acc * 10 + d;
        i = i + 1;
    }
    assert(ds@.take(ds@.len() as int) =~= ds@);
    Some(acc)
}

/// Parses a decimal `i32` as `str::parse::<i32>` does.
pub fn parse_i32(s: &str) -> (r: Option<i32>)
    ensures
        r == parse_i32_spec(s@),
{
    let v = to_chars(s);
    if v.len() == 0 || (v.len() == 1 && (v[0] == '+' || v[0] == '-')) {
        return None;
    }
    let neg = v[0] == '-';
    let start: usize = if v[0] == '+' || v[0] == '-' { 1 } else { 0 };
    let mut ds: Vec<char> = Vec::new();
    let mut i = start;
    while i < v.len()
        invariant
            start <= i <= v@.len(),
            ds@ == v@.subrange(start as int, i as int),
        decreases v@.len() - i,
    {
        ds.push(v[i]);
        i = i + 1;
        assert(ds@ =~= v@.subrange(start as int, i as int));
    }
    assert(start == 1 ==> ds@ =~= v@.drop_first());
    assert(start == 0 ==> ds@ =~= v@);
    let limit: u64 = if neg { 2147483648 } else { 2147483647 };
    match digits_up_to(&ds, limit) {
        Some(m) => {
            if neg {
                Some((0 - (m as i64)) as i32)
            } else {
                Some(m as i32)
            }
        },
        None => None,
    }
}

/// Parses a decimal `usize` as `str::parse::<usize>` does.
pub fn parse_usize(s: &str) -> (r: Option<usize>)
    ensures
        r == parse_usize_spec(s@),
{
    let v = to_chars(s);
    if v.len() == 0 || (v.len() == 1 && (v[0] == '+' || v[0] == '-')) {
        return None;
    }
    let start: usize = if v[0] == '+' { 1 } else { 0 };
    let mut ds: Vec<char> = Vec::new();
    let mut i = start;
    while i < v.len()
        invariant
            start <= i <= v@.len(),
            ds@ == v@.subrange(start as int, i as int),
        decreases v@.len() - i,
    {
        ds.push(v[i]);
        i = i + 1;
        assert(ds@ =~= v@.subrange(start as int, i as int));
    }
    assert(start == 1 ==> ds@ =~= v@.drop_first());
    assert(start == 0 ==> ds@ =~= v@);
    let limit: u64 = if usize::MAX as u64 == u64::MAX { u64::MAX } else { usize::MAX as u64 };
    match digits_up_to(&ds, limit) {
        Some(m) => Some(m as usize),
        None => None,
    }
}

/// What was given on the command line, read as an `i32`, else what is
/// stored, else the default.
pub open spec fn pick_i32_spec(given: Option<Seq<char>>, stored: Option<i32>, default: i32) -> i32 {
    match given {
        Some(g) if parse_i32_spec(g) is Some => parse_i32_spec(g)->0,
        _ => match stored {
            Some(v) => v,
            None => default,
        },
    }
}

/// What was given on the command line, read as a `usize`, else what is
/// stored, else the default.
pub open spec fn pick_usize_spec(given: Option<Seq<char>>, stored: Option<usize>, default: usize) -> usize {
    match given {
        Some(g) if parse_usize_spec(g) is Some => parse_usize_spec(g)->0,
        _ => match stored {
            Some(v) => v,
            None => default,
        },
    }
}

/// The view of an optional borrowed string.
pub open spec fn opt_ref_view(s: Option<&String>) -> Option<Seq<char>> {
    match s {
        Some(t) => Some(t@),
        None => None,
    }
}

/// Chooses an `i32` setting (see `pick_i32_spec`).
pub fn pick_i32(given: Option<&String>, stored: Option<i32>, default: i32) -> (r: i32)
    ensures
        r == pick_i32_spec(opt_ref_view(given), stored, default),
{
    if let Some(g) = given {
        if let Some(v) = parse_i32(g.as_str()) {
            return v;
        }
    }
    match stored {
        Some(v) => v,
        None => default,
    }
}

/// Chooses a `usize` setting (see `pick_usize_spec`).
pub fn pick_usize(given: Option<&String>, stored: Option<usize>, default: usize) -> (r: usize)
    ensures
        r == pick_usize_spec(opt_ref_view(given), stored, default),
{
    if let Some(g) = given {
        if let Some(v) = parse_usize(g.as_str()) {
            return v;
        }
    }
    match stored {
        Some(v) => v,
        None => default,
    }
}

/// A line typed at the chat prompt.
pub enum ChatLine {
    /// Nothing but white space: asked again.
    Empty,
    /// `exit`, `quit` or `:q`: the chat ends.
    Exit,
    /// A message for the model, trimmed.
    Say(String),
}

/// What a typed line means (see `ChatLine`); it is trimmed first.
pub open spec fn chat_line_kind(line: Seq<char>) -> int {
    let t = trim(line);
    if t.len() == 0 {
        0
    } else if t == "exit"@ || t == "quit"@ || t == ":q"@ {
        1
    } else {
        2
    }
}

/// Reads a line typed at the chat prompt.
pub fn classify_chat_line(line: &str) -> (r: ChatLine)
    ensures
        r is Empty <==> chat_line_kind(line@) == 0,
        r is Exit <==> chat_line_kind(line@) == 1,
        r matches ChatLine::Say(s) ==> chat_line_kind(line@) == 2 && s@ == trim(line@),
        chat_line_kind(line@) == 2 ==> r is Say,
{
    let t = trim_exec(&to_chars(line));
    if t.len() == 0 {
        return ChatLine::Empty;
    }
    let s = string_from_chars(&t);
    if text_eq(s.as_str(), "exit") || text_eq(s.as_str(), "quit") || text_eq(s.as_str(), ":q") {
        return ChatLine::Exit;
    }
    ChatLine::Say(s)
}

} // verus!
