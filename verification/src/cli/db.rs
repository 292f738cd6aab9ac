//! Keys under which models are registered in the model list.
use vstd::prelude::*;
use crate::text::{push_all, string_from_chars, to_chars};

verus! {

broadcast use vstd::string::group_string_axioms;

/// What the standard library's default hasher (`DefaultHasher::new()`, which
/// every call creates with the same fixed keys) gives for the string `s`.
pub uninterp spec fn spec_name_hash(s: Seq<char>) -> u64;

/// `BuildHasher::hash_one` with the default hasher: hashes `s` as `str::hash`
/// does (the bytes, then a terminator) and returns `Hasher::finish`. Its
/// result is named by `spec_name_hash`; the algorithm is not stated.
#[verifier::external_body]
fn name_hash(s: &str) -> (h: u64)
    ensures
        h == spec_name_hash(s@),
{
    std::hash::BuildHasher::hash_one(
        &std::hash::BuildHasherDefault::<std::collections::hash_map::DefaultHasher>::default(),
        s,
    )
}

/// A character that may stand in a key as it is.
pub open spec fn is_key_char(c: char) -> bool {
    ||| ('0' <= c && c <= '9')
    ||| ('a' <= c && c <= 'z')
    ||| ('A' <= c && c <= 'Z')
    ||| c == '_'
    ||| c == '-'
}

/// What a character of a model's name becomes in its key.
pub open spec fn key_piece(c: char) -> Seq<char> {
    if c == ' ' {
        "__sp__"@
    } else if c == ':' {
        "__co__"@
    } else if c == '/' {
        "__sl__"@
    } else if c == '\\' {
        "__bs__"@
    } else if is_key_char(c) {
        seq![c]
    } else {
        "__"@
    }
}

/// A model's name with every character replaced by its key piece.
pub open spec fn normalize_name(s: Seq<char>) -> Seq<char>
    decreases s.len(),
{
    if s.len() == 0 {
        Seq::empty()
    } else {
        normalize_name(s.drop_last()) + key_piece(s.last())
    }
}

/// The lower-case hexadecimal digit for `d` (0 to 15).
pub open spec fn hex_digit(d: int) -> char {
    "0123456789abcdef"@[d]
}

/// The last `n` hexadecimal digits of `v`, most significant first.
pub open spec fn hex_digits(v: nat, n: nat) -> Seq<char>
    decreases n,
{
    if n == 0 {
        Seq::empty()
    } else {
        hex_digits(v / 16, (n - 1) as nat).push(hex_digit((v % 16) as int))
    }
}

/// The key of a model's name: its normalized form, `_`, and the name's hash
/// as 16 lower-case hexadecimal digits.
pub open spec fn model_key(name: Seq<char>) -> Seq<char> {
    normalize_name(name) + "_"@ + hex_digits(spec_name_hash(name) as nat, 16)
}

proof fn lemma_literals()
    ensures
        "0123456789abcdef"@.len() == 16,
        forall|d: int| 0 <= d < 16 ==> is_key_char(#[trigger] "0123456789abcdef"@[d]),
        forall|j: int| 0 <= j < 6 ==> is_key_char(#[trigger] "__sp__"@[j]),
        forall|j: int| 0 <= j < 6 ==> is_key_char(#[trigger] "__co__"@[j]),
        forall|j: int| 0 <= j < 6 ==> is_key_char(#[trigger] "__sl__"@[j]),
        forall|j: int| 0 <= j < 6 ==> is_key_char(#[trigger] "__bs__"@[j]),
        forall|j: int| 0 <= j < 2 ==> is_key_char(#[trigger] "__"@[j]),
        "__sp__"@.len() == 6,
        "__co__"@.len() == 6,
        "__sl__"@.len() == 6,
        "__bs__"@.len() == 6,
        "__"@.len() == 2,
        "_"@ == seq!['_'],
{
    reveal_strlit("0123456789abcdef");
    reveal_strlit("__sp__");
    reveal_strlit("__co__");
    reveal_strlit("__sl__");
    reveal_strlit("__bs__");
    reveal_strlit("__");
    reveal_strlit("_");
}

/// The key piece of one character.
fn key_piece_exec(c: char) -> (r: Vec<char>)
    ensures
        r@ == key_piece(c),
{
    if c == ' ' {
        to_chars("__sp__")
    } else if c == ':' {
        to_chars("__co__")
    } else if c == '/' {
        to_chars("__sl__")
    } else if c == '\\' {
        to_chars("__bs__")
    } else if ('0' <= c && c <= '9') || ('a' <= c && c <= 'z') || ('A' <= c && c <= 'Z') || c
        == '_' || c == '-' {
        let mut v: Vec<char> = Vec::new();
        v.push(c);
        assert(v@ =~= seq![c]);
        v
    } else {
        to_chars("__")
    }
}

/// `v` as 16 lower-case hexadecimal digits.
fn hex16(v: u64) -> (r: Vec<char>)
    ensures
        r@ == hex_digits(v as nat, 16),
{
    proof {
        lemma_literals();
    }
    let digits = to_chars("0123456789abcdef");
    let mut out: Vec<char> = Vec::new();
    let mut rest = v;
    let mut k: usize = 0;
    while k < 16
        invariant
            k <= 16,
            digits@ == "0123456789abcdef"@,
            digits@.len() == 16,
            hex_digits(v as nat, 16) == hex_digits(rest as nat, (16 - k) as nat) + out@,
        decreases 16 - k,
    {
        let d = (rest % 16) as usize;
        let ghost old_out = out@;
        let ghost old_rest = rest;
        out.insert(0, digits[d]);
        rest = rest / 16;
        k = k + 1;
        assert(hex_digits(old_rest as nat, (16 - k + 1) as nat) == hex_digits(
            rest as nat,
            (16 - k) as nat,
        ).push(hex_digit(d as int)));
        assert(out@ =~= seq![hex_digit(d as int)] + old_out);
        assert(hex_digits(rest as nat, (16 - k) as nat).push(hex_digit(d as int)) + old_out
            =~= hex_digits(rest as nat, (16 - k) as nat) + out@);
    }
    assert(hex_digits(rest as nat, 0) =~= Seq::<char>::empty());
    assert(Seq::<char>::empty() + out@ =~= out@);
    out
}

/// The key of a model's name given the name's hash: the normalized name,
/// `_`, and the hash as 16 lower-case hexadecimal digits.
pub fn key_with_hash(name: &str, hash: u64) -> (key: String)
    ensures
        key@ == normalize_name(name@) + "_"@ + hex_digits(hash as nat, 16),
{
    let chars = to_chars(name);
    let mut out: Vec<char> = Vec::new();
    let mut i: usize = 0;
    while i < chars.len()
        invariant
            i <= chars@.len(),
            chars@ == name@,
            out@ == normalize_name(chars@.take(i as int)),
        decreases chars@.len() - i,
    {
        let piece = key_piece_exec(chars[i]);
        push_all(&mut out, &piece);
        assert(chars@.take(i + 1).drop_last() =~= chars@.take(i as int));
        i = i + 1;
    }
    assert(chars@.take(chars@.len() as int) =~= chars@);
    push_all(&mut out, &to_chars("_"));
    let hex = hex16(hash);
    push_all(&mut out, &hex);
    string_from_chars(&out)
}

/// The key under which a model of this name is registered (see `model_key`).
pub fn key_from_name(name: &str) -> (key: String)
    ensures
        key@ == model_key(name@),
{
    let h = name_hash(name);
    key_with_hash(name, h)
}

/// The last `n` hexadecimal digits are `n` key characters.
proof fn lemma_hex_digits_key_chars(v: nat, n: nat)
    ensures
        hex_digits(v, n).len() == n,
        forall|j: int| 0 <= j < n ==> is_key_char(#[trigger] hex_digits(v, n)[j]),
    decreases n,
{
    lemma_literals();
    if n > 0 {
        lemma_hex_digits_key_chars(v / 16, (n - 1) as nat);
        let d = (v % 16) as int;
        assert(is_key_char(hex_digit(d)));
    }
}

/// A normalized name is made of key characters only.
proof fn lemma_normalize_key_chars(s: Seq<char>)
    ensures
        forall|j: int| 0 <= j < normalize_name(s).len() ==> is_key_char(#[trigger] normalize_name(s)[j]),
    decreases s.len(),
{
    lemma_literals();
    if s.len() > 0 {
        lemma_normalize_key_chars(s.drop_last());
        let a = normalize_name(s.drop_last());
        let p = key_piece(s.last());
        assert forall|j: int| 0 <= j < p.len() implies is_key_char(#[trigger] p[j]) by {
        }
        assert forall|j: int| 0 <= j < normalize_name(s).len() implies is_key_char(
            #[trigger] normalize_name(s)[j],
        ) by {
            if j < a.len() {
                assert(normalize_name(s)[j] == a[j]);
            } else {
                assert(normalize_name(s)[j] == p[j - a.len()]);
            }
        }
    }
}

/// Law: a model's key is made of ASCII letters, digits, `_` and `-` only,
/// so it can stand unquoted as a key in the model list; it always ends with
/// `_` and 16 hexadecimal digits.
pub proof fn law_key_is_plain(name: Seq<char>)
    ensures
        forall|j: int| 0 <= j < model_key(name).len() ==> is_key_char(#[trigger] model_key(name)[j]),
        model_key(name).len() == normalize_name(name).len() + 17,
{
    lemma_literals();
    lemma_normalize_key_chars(name);
    let h = spec_name_hash(name) as nat;
    lemma_hex_digits_key_chars(h, 16);
    let a = normalize_name(name);
    let k = model_key(name);
    assert forall|j: int| 0 <= j < k.len() implies is_key_char(#[trigger] k[j]) by {
        if j < a.len() {
            assert(k[j] == a[j]);
        } else if j == a.len() {
            assert(k[j] == '_');
        } else {
            assert(k[j] == hex_digits(h, 16)[j - a.len() - 1]);
        }
    }
}

/// The decimal digits of `n`, most significant first.
pub open spec fn decimal(n: nat) -> Seq<char>
    decreases n,
{
    if n < 10 {
        seq!["0123456789"@[n as int]]
    } else {
        decimal(n / 10).push("0123456789"@[(n % 10) as int])
    }
}

/// `n` written in decimal.
fn decimal_exec(n: u32) -> (r: Vec<char>)
    ensures
        r@ == decimal(n as nat),
{
    proof {
        reveal_strlit("0123456789");
    }
    let digits = to_chars("0123456789");
    let mut out: Vec<char> = Vec::new();
    let mut rest = n;
    loop
        invariant
            digits@ == "0123456789"@,
            digits@.len() == 10,
            decimal(n as nat) == decimal(rest as nat) + out@,
        decreases rest,
    {
        let d = (rest % 10) as usize;
        if rest < 10 {
            out.insert(0, digits[d]);
            assert(decimal(rest as nat) == seq![digits@[d as int]]);
            return out;
        }
        let ghost old_out = out@;
        out.insert(0, digits[d]);
        let ghost old_rest = rest;
        rest = rest / 10;
        assert(decimal(old_rest as nat) == decimal(rest as nat).push(digits@[d as int]));
        assert(decimal(rest as nat).push(digits@[d as int]) + old_out =~= decimal(rest as nat)
            + out@);
    }
}

/// The name tried for an imported model whose file name is taken:
/// `stem-index.ext`, or `stem-index` when there is no extension.
pub open spec fn candidate_name(stem: Seq<char>, ext: Seq<char>, index: nat) -> Seq<char> {
    if ext.len() == 0 {
        stem + "-"@ + decimal(index)
    } else {
        stem + "-"@ + decimal(index) + "."@ + ext
    }
}

/// The file name tried, at attempt `index`, for a model whose name is taken.
pub fn candidate_file_name(stem: &str, ext: &str, index: u32) -> (r: String)
    ensures
        r@ == candidate_name(stem@, ext@, index as nat),
{
    let mut out = to_chars(stem);
    push_all(&mut out, &to_chars("-"));
    push_all(&mut out, &decimal_exec(index));
    if !ext.is_empty() {
        push_all(&mut out, &to_chars("."));
        push_all(&mut out, &to_chars(ext));
    }
    string_from_chars(&out)
}

} // verus!
