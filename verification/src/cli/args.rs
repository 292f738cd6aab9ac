//! Command-line options: `--name value` pairs and `--flag` switches.
use vstd::prelude::*;
use crate::text::{owned, slice_chars, starts_with, starts_with_exec, string_from_chars, text_eq, to_chars};

verus! {

broadcast use vstd::string::group_string_axioms;

/// `s` without its leading dashes (`trim_start_matches('-')`).
pub open spec fn dash_trimmed(s: Seq<char>) -> Seq<char>
    decreases s.len(),
{
    if s.len() > 0 && s[0] == '-' {
        dash_trimmed(s.drop_first())
    } else {
        s
    }
}

/// The options read from `args`, starting at position `i`, appended to
/// `acc` in the order they are met: `--name value` when the next argument
/// does not begin with `--`, else `--name` alone, which stands for `true`.
/// Other arguments are skipped.
pub open spec fn options_from(args: Seq<Seq<char>>, i: int, acc: Seq<(Seq<char>, Seq<char>)>) -> Seq<
    (Seq<char>, Seq<char>),
>
    decreases args.len() - i,
{
    if i < 0 || i >= args.len() {
        acc
    } else if starts_with(args[i], "--"@) {
        if i + 1 < args.len() && !starts_with(args[i + 1], "--"@) {
            options_from(args, i + 2, acc.push((dash_trimmed(args[i]), args[i + 1])))
        } else {
            options_from(args, i + 1, acc.push((dash_trimmed(args[i]), "true"@)))
        }
    } else {
        options_from(args, i + 1, acc)
    }
}

/// The options of a whole command line, in order.
pub open spec fn options(args: Seq<Seq<char>>) -> Seq<(Seq<char>, Seq<char>)> {
    options_from(args, 0, Seq::empty())
}

/// The map that inserting `entries` one after another gives: a later value
/// for a name replaces an earlier one.
pub open spec fn entries_map(entries: Seq<(Seq<char>, Seq<char>)>) -> Map<Seq<char>, Seq<char>>
    decreases entries.len(),
{
    if entries.len() == 0 {
        Map::empty()
    } else {
        entries_map(entries.drop_last()).insert(entries.last().0, entries.last().1)
    }
}

/// The views of a list of strings.
pub open spec fn strings_view(v: Seq<String>) -> Seq<Seq<char>> {
    v.map_values(|s: String| s@)
}

/// The views of a list of name/value pairs.
pub open spec fn pairs_view(v: Seq<(String, String)>) -> Seq<(Seq<char>, Seq<char>)> {
    v.map_values(|p: (String, String)| (p.0@, p.1@))
}

/// Options by name.
pub struct ArgMap {
    entries: Vec<(String, String)>,
}

impl View for ArgMap {
    type V = Map<Seq<char>, Seq<char>>;

    closed spec fn view(&self) -> Map<Seq<char>, Seq<char>> {
        entries_map(pairs_view(self.entries@))
    }
}

/// The value of the last entry named `k` is what the map holds for `k`.
proof fn lemma_entries_map_last(es: Seq<(Seq<char>, Seq<char>)>, k: Seq<char>, i: int)
    requires
        0 <= i < es.len(),
        es[i].0 == k,
        forall|j: int| i < j < es.len() ==> es[j].0 != k,
    ensures
        entries_map(es).contains_key(k),
        entries_map(es)[k] == es[i].1,
    decreases es.len(),
{
    if i < es.len() - 1 {
        lemma_entries_map_last(es.drop_last(), k, i);
    }
}

/// A name that no entry has is not in the map.
proof fn lemma_entries_map_absent(es: Seq<(Seq<char>, Seq<char>)>, k: Seq<char>)
    requires
        forall|j: int| 0 <= j < es.len() ==> es[j].0 != k,
    ensures
        !entries_map(es).contains_key(k),
    decreases es.len(),
{
    if es.len() > 0 {
        lemma_entries_map_absent(es.drop_last(), k);
    }
}

impl ArgMap {
    /// No options.
    pub fn new() -> (m: Self)
        ensures
            m@ == Map::<Seq<char>, Seq<char>>::empty(),
    {
        let m = ArgMap { entries: Vec::new() };
        assert(pairs_view(m.entries@) =~= Seq::<(Seq<char>, Seq<char>)>::empty());
        m
    }

    /// Sets option `name` to `value`, replacing any earlier value.
    pub fn insert(&mut self, name: String, value: String)
        ensures
            final(self)@ == old(self)@.insert(name@, value@),
    {
        let ghost n = name@;
        let ghost v = value@;
        self.entries.push((name, value));
        assert(pairs_view(self.entries@).drop_last() =~= pairs_view(old(self).entries@));
    }

    /// The value of option `name`, if it was given.
    pub fn get(&self, name: &str) -> (r: Option<&String>)
        ensures
            r matches Some(v) ==> self@.contains_key(name@) && v@ == self@[name@],
            r is None ==> !self@.contains_key(name@),
    {
        let ghost es = pairs_view(self.entries@);
        let mut i = self.entries.len();
        while i > 0
            invariant
                i <= self.entries@.len(),
                es == pairs_view(self.entries@),
                forall|j: int| i <= j < es.len() ==> es[j].0 != name@,
            decreases i,
        {
            if text_eq(self.entries[i - 1].0.as_str(), name) {
                proof {
                    lemma_entries_map_last(es, name@, i - 1);
                }
                return Some(&self.entries[i - 1].1);
            }
            i = i - 1;
        }
        proof {
            lemma_entries_map_absent(es, name@);
        }
        None
    }

    /// Whether option `name` was given.
    pub fn contains_key(&self, name: &str) -> (r: bool)
        ensures
            r == self@.contains_key(name@),
    {
        self.get(name).is_some()
    }
}

/// `s` without its leading dashes.
fn trim_dashes(s: &str) -> (r: String)
    ensures
        r@ == dash_trimmed(s@),
{
    let v = to_chars(s);
    let mut k: usize = 0;
    assert(v@.skip(0) =~= v@);
    while k < v.len() && v[k] == '-'
        invariant
            k <= v@.len(),
            dash_trimmed(s@) == dash_trimmed(v@.skip(k as int)),
            v@ == s@,
        decreases v@.len() - k,
    {
        assert(v@.skip(k as int).drop_first() =~= v@.skip(k + 1));
        k = k + 1;
    }
    let r = slice_chars(&v, k, v.len());
    assert(r@ =~= v@.skip(k as int));
    string_from_chars(&r)
}

/// Reads the options of a command line (see `options`); a later value for
/// the same name replaces an earlier one.
pub fn parse_args(args: &[String]) -> (m: ArgMap)
    ensures
        m@ == entries_map(options(strings_view(args@))),
{
    let ghost av = strings_view(args@);
    let ghost mut acc: Seq<(Seq<char>, Seq<char>)> = Seq::empty();
    let mut map = ArgMap { entries: Vec::new() };
    assert(pairs_view(map.entries@) =~= acc);
    let dd = to_chars("--");
    let mut i: usize = 0;
    while i < args.len()
        invariant
            i <= args@.len(),
            av == strings_view(args@),
            dd@ == "--"@,
            pairs_view(map.entries@) == acc,
            options(av) == options_from(av, i as int, acc),
        decreases args@.len() - i,
    {
        if starts_with_exec(&to_chars(args[i].as_str()), &dd) {
            if i + 1 < args.len() && !starts_with_exec(&to_chars(args[i + 1].as_str()), &dd) {
                let name = trim_dashes(args[i].as_str());
                let ghost entry = (name@, args@[i + 1]@);
                map.entries.push((name, args[i + 1].clone()));
                proof {
                    acc = acc.push(entry);
                }
                assert(pairs_view(map.entries@) =~= acc);
                i = i + 2;
                continue ;
            }
            let name = trim_dashes(args[i].as_str());
            let value = owned("true");
            let ghost entry = (name@, value@);
            map.entries.push((name, value));
            proof {
                acc = acc.push(entry);
            }
            assert(pairs_view(map.entries@) =~= acc);
        }
        i = i + 1;
    }
    map
}

/// Law: trimming the leading dashes removes exactly the dashes that open
/// `s` and keeps everything after them: the result is what follows some
/// run of dashes at the start of `s`, and it does not begin with a dash.
pub proof fn law_dash_trimmed_drops_only_leading_dashes(s: Seq<char>)
    ensures
        ({
            let r = dash_trimmed(s);
            let k = s.len() - r.len();
            &&& 0 <= k <= s.len()
            &&& r == s.skip(k)
            &&& forall|j: int| 0 <= j < k ==> s[j] == '-'
            &&& r.len() == 0 || r[0] != '-'
        }),
    decreases s.len(),
{
    if s.len() > 0 && s[0] == '-' {
        let t = s.drop_first();
        law_dash_trimmed_drops_only_leading_dashes(t);
        let k = t.len() - dash_trimmed(t).len();
        assert(s.skip(k + 1) =~= t.skip(k));
        assert forall|j: int| 0 <= j < k + 1 implies s[j] == '-' by {
            if j > 0 {
                assert(s[j] == t[j - 1]);
            }
        }
    } else {
        assert(s.skip(0) =~= s);
    }
}

/// Law: an option is stored under its name, the argument with only its
/// leading dashes taken off: `--name value` gives `name` the value, and
/// `--name` alone gives it `true`.
pub proof fn law_option_stored_under_its_name(n: Seq<char>, v: Seq<char>)
    requires
        n.len() == 0 || n[0] != '-',
    ensures
        dash_trimmed("--"@ + n) == n,
        !starts_with(v, "--"@) ==> entries_map(options(seq!["--"@ + n, v])) == map![n => v],
        entries_map(options(seq!["--"@ + n])) == map![n => "true"@],
{
    reveal_strlit("--");
    let a = "--"@ + n;
    assert(a.drop_first().drop_first() =~= n);
    assert(a[0] == '-');
    assert(a.drop_first()[0] == '-');
    assert(dash_trimmed(a) == dash_trimmed(a.drop_first()));
    assert(dash_trimmed(a.drop_first()) == dash_trimmed(n));
    assert(a.take(2) =~= "--"@);
    assert(starts_with(a, "--"@));
    let e = Seq::<(Seq<char>, Seq<char>)>::empty();
    if !starts_with(v, "--"@) {
        let args = seq![a, v];
        assert(args[0] == a);
        assert(options_from(args, 0, e) == options_from(args, 2, e.push((n, v))));
        assert(entries_map(e.push((n, v))) =~= map![n => v]) by {
            let l = e.push((n, v));
        assert(l.drop_last() =~= e);
        assert(l.last() == (n, v));
        assert(entries_map(e) == Map::<Seq<char>, Seq<char>>::empty());
        assert(entries_map(l) == Map::<Seq<char>, Seq<char>>::empty().insert(n, v));
        }
    }
    let one = seq![a];
    assert(one[0] == a);
    assert(options_from(one, 0, e) == options_from(one, 1, e.push((n, "true"@))));
    assert(entries_map(e.push((n, "true"@))) =~= map![n => "true"@]) by {
        let l = e.push((n, "true"@));
        assert(l.drop_last() =~= e);
        assert(l.last() == (n, "true"@));
        assert(entries_map(e) == Map::<Seq<char>, Seq<char>>::empty());
        assert(entries_map(l) == Map::<Seq<char>, Seq<char>>::empty().insert(n, "true"@));
    }
}

} // verus!
