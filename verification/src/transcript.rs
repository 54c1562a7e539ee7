//! Transcript clean-up: the custom dictionary (rules such as `"lang chain=>LangChain"`
//! that are applied case-insensitively), the clipboard update rule, and the parsing of
//! the active-application metadata.
use vstd::prelude::*;

use crate::text::{
    chars_of, copy_range, find, find_chars, find_from, lower, lower_chars, push_chars, split,
    to_string, trim, trim_chars, matches_at,
};

verus! {

/// `input` with every occurrence of `from` replaced by `to`, where occurrences are
/// searched in the ASCII-lower-cased input, left to right and without overlap. An empty
/// `from` leaves the input unchanged.
pub open spec fn replace_ci(input: Seq<char>, from: Seq<char>, to: Seq<char>) -> Seq<char>
    decreases input.len(),
{
    if from.len() == 0 {
        input
    } else {
        match find(lower(input), from) {
            None => input,
            Some(k) => if 0 <= k && k + from.len() <= input.len() {
                input.take(k) + to + replace_ci(input.skip(k + from.len()), from, to)
            } else {
                input
            },
        }
    }
}

proof fn lemma_lower_skip(s: Seq<char>, j: int)
    requires
        0 <= j <= s.len(),
    ensures
        lower(s.skip(j)) =~= lower(s).skip(j),
{
}

proof fn lemma_find_from_shift(s: Seq<char>, p: Seq<char>, j: int, k: int)
    requires
        0 <= j <= k,
        j <= s.len(),
    ensures
        match find_from(s, p, k) {
            Some(x) => find_from(s.skip(j), p, k - j) == Some(x - j),
            None => find_from(s.skip(j), p, k - j) is None,
        },
    decreases s.len() + 1 - k,
{
    if k + p.len() > s.len() {
    } else {
        assert(s.subrange(k, k + p.len()) =~= s.skip(j).subrange(k - j, k - j + p.len()));
        if !matches_at(s, p, k) {
            lemma_find_from_shift(s, p, j, k + 1);
        }
    }
}

/// Replaces every case-insensitive occurrence of `from` in `input` by `to`. `from` is
/// compared with the ASCII-lower-cased input, so it only matches when it is itself
/// lower case; the text around the matches is kept as it was.
pub fn replace_case_insensitive(input: &str, from: &str, to: &str) -> (r: String)
    ensures
        r@ == replace_ci(input@, from@, to@),
{
    let inp = chars_of(input);
    let f = chars_of(from);
    let t = chars_of(to);
    if f.len() == 0 {
        return to_string(&inp);
    }
    let low = lower_chars(&inp);
    let n = inp.len();
    let mut out: Vec<char> = Vec::new();
    let mut cursor: usize = 0;
    assert(inp@.skip(0) =~= inp@);
    assert(out@ + replace_ci(inp@, f@, t@) =~= replace_ci(inp@, f@, t@));
    loop
        invariant
            inp@ == input@,
            f@ == from@,
            t@ == to@,
            n == inp.len() == low.len(),
            low@ == lower(inp@),
            f@.len() > 0,
            cursor <= n,
            replace_ci(inp@, f@, t@) == out@ + replace_ci(inp@.skip(cursor as int), f@, t@),
        decreases n - cursor,
    {
        let ghost rest = inp@.skip(cursor as int);
        proof {
            lemma_lower_skip(inp@, cursor as int);
            lemma_find_from_shift(low@, f@, cursor as int, cursor as int);
            crate::text::lemma_find_from_bounds_text(low@, f@, cursor as int);
            assert(low@.skip(cursor as int).len() == rest.len());
        }
        match find_chars(&low, &f, cursor) {
            None => {
                assert(replace_ci(rest, f@, t@) == rest);
                let tail = copy_range(&inp, cursor, n);
                assert(tail@ =~= rest);
                push_chars(&mut out, &tail);
                return to_string(&out);
            },
            Some(start) => {
                let end = start + f.len();
                let piece = copy_range(&inp, cursor, start);
                push_chars(&mut out, &piece);
                push_chars(&mut out, &t);
                proof {
                    let k = start - cursor;
                    assert(find(lower(rest), f@) == Some(k as int));
                    assert(piece@ =~= rest.take(k as int));
                    assert(rest.skip(k + f@.len()) =~= inp@.skip(end as int));
                }
                cursor = end;
            },
        }
    }
}

/// The old text when there is one and it equals the new text: the clipboard needs no
/// update.
pub fn should_update_clipboard(current: Option<&str>, next: &str) -> (r: bool)
    ensures
        r == match current {
            Some(c) => c@ != next@,
            None => true,
        },
{
    match current {
        Some(c) => !crate::text::str_eq(c, next),
        None => true,
    }
}

} // verus!

verus! {

// ---------------------------------------------------------------------------
// Custom dictionary
// ---------------------------------------------------------------------------

/// The text before the first occurrence of `sep`, and the text after it if there is
/// one (`str::splitn(2, sep)`).
pub open spec fn split_once(s: Seq<char>, sep: Seq<char>) -> (Seq<char>, Option<Seq<char>>) {
    match find(s, sep) {
        Some(k) => (s.take(k), Some(s.skip(k + sep.len()))),
        None => (s, None),
    }
}

/// An entry read with one separator: both sides trimmed and non-empty; the left side,
/// lower-cased, is the text to look for, the right side the replacement.
pub open spec fn entry_with(entry: Seq<char>, sep: Seq<char>) -> Option<(Seq<char>, Seq<char>)> {
    let (l, r) = split_once(entry, sep);
    let left = trim(l);
    let right = match r {
        Some(x) => trim(x),
        None => Seq::empty(),
    };
    if left.len() > 0 && right.len() > 0 {
        Some((lower(left), right))
    } else {
        None
    }
}

/// A dictionary entry `from => to`, `from -> to` or `from = to`; the separators are tried
/// in that order and the first that yields two non-empty sides wins.
pub open spec fn spec_dictionary_entry(entry: Seq<char>) -> Option<(Seq<char>, Seq<char>)> {
    match entry_with(entry, "=>"@) {
        Some(x) => Some(x),
        None => match entry_with(entry, "->"@) {
            Some(x) => Some(x),
            None => entry_with(entry, "="@),
        },
    }
}

/// The characters of each string.
pub open spec fn strings_view(v: Seq<String>) -> Seq<Seq<char>> {
    v.map_values(|s: String| s@)
}

/// The characters of each pair of strings.
pub open spec fn pairs_view(v: Seq<(String, String)>) -> Seq<(Seq<char>, Seq<char>)> {
    v.map_values(|p: (String, String)| (p.0@, p.1@))
}

fn split_once_exec(s: &Vec<char>, sep: &Vec<char>) -> (r: (Vec<char>, Option<Vec<char>>))
    ensures
        r.0@ == split_once(s@, sep@).0,
        match r.1 {
            Some(x) => split_once(s@, sep@).1 == Some(x@),
            None => split_once(s@, sep@).1 is None,
        },
{
    proof {
        crate::text::lemma_find_from_bounds_text(s@, sep@, 0);
    }
    match find_chars(s, sep, 0) {
        Some(k) => {
            let left = copy_range(s, 0, k);
            let right = copy_range(s, k + sep.len(), s.len());
            assert(left@ =~= s@.take(k as int));
            assert(right@ =~= s@.skip(k + sep@.len()));
            (left, Some(right))
        },
        None => {
            let all = copy_range(s, 0, s.len());
            assert(all@ =~= s@);
            (all, None)
        },
    }
}

fn entry_with_exec(entry: &Vec<char>, sep: &str) -> (r: Option<(String, String)>)
    ensures
        match r {
            Some(p) => entry_with(entry@, sep@) == Some((p.0@, p.1@)),
            None => entry_with(entry@, sep@) is None,
        },
{
    let sepv = chars_of(sep);
    let (l, r) = split_once_exec(entry, &sepv);
    let left = trim_chars(&l);
    let right = match r {
        Some(x) => trim_chars(&x),
        None => Vec::new(),
    };
    assert(right@ == match split_once(entry@, sep@).1 {
        Some(x) => trim(x),
        None => Seq::<char>::empty(),
    });
    if left.len() > 0 && right.len() > 0 {
        let key = lower_chars(&left);
        Some((to_string(&key), to_string(&right)))
    } else {
        None
    }
}

/// Reads one dictionary entry: `"lang chain=>LangChain"` gives `("lang chain",
/// "LangChain")`; the text to look for is lower-cased.
pub fn parse_dictionary_entry(entry: &str) -> (r: Option<(String, String)>)
    ensures
        match r {
            Some(p) => spec_dictionary_entry(entry@) == Some((p.0@, p.1@)),
            None => spec_dictionary_entry(entry@) is None,
        },
{
    let e = chars_of(entry);
    match entry_with_exec(&e, "=>") {
        Some(p) => Some(p),
        None => match entry_with_exec(&e, "->") {
            Some(p) => Some(p),
            None => entry_with_exec(&e, "="),
        },
    }
}

/// The rules that `entries[i..]` add to `m`, later entries replacing earlier ones with
/// the same text to look for; entries that do not parse are skipped.
pub open spec fn rules_from(entries: Seq<Seq<char>>, i: int, m: Map<Seq<char>, Seq<char>>) -> Map<
    Seq<char>,
    Seq<char>,
>
    decreases entries.len() - i,
{
    if i < 0 || i >= entries.len() {
        m
    } else {
        match spec_dictionary_entry(entries[i]) {
            Some((k, v)) => rules_from(entries, i + 1, m.insert(k, v)),
            None => rules_from(entries, i + 1, m),
        }
    }
}

/// The dictionary: built-in entries, then user entries, which override built-ins.
pub open spec fn dictionary(built_in: Seq<Seq<char>>, user: Seq<Seq<char>>) -> Map<Seq<char>, Seq<char>> {
    rules_from(user, 0, rules_from(built_in, 0, Map::empty()))
}

/// No two rules look for the same text.
pub open spec fn keys_distinct(r: Seq<(Seq<char>, Seq<char>)>) -> bool {
    forall|i: int, j: int| 0 <= i < j < r.len() ==> #[trigger] r[i].0 != #[trigger] r[j].0
}

/// The rules hold exactly the entries of the map, one rule per entry.
pub open spec fn rules_are(r: Seq<(Seq<char>, Seq<char>)>, m: Map<Seq<char>, Seq<char>>) -> bool {
    &&& keys_distinct(r)
    &&& forall|i: int| 0 <= i < r.len() ==> m.contains_key(#[trigger] r[i].0) && m[r[i].0] == r[i].1
    &&& forall|k: Seq<char>| #[trigger] m.contains_key(k) ==> exists|i: int| 0 <= i < r.len() && r[i].0 == k
}

/// Sets the rule for `key`, replacing the rule that looks for the same text.
fn upsert_rule(rules: &mut Vec<(String, String)>, key: String, value: String, Ghost(m): Ghost<
    Map<Seq<char>, Seq<char>>,
>)
    requires
        rules_are(pairs_view(old(rules)@), m),
    ensures
        rules_are(pairs_view(final(rules)@), m.insert(key@, value@)),
{
    let n = rules.len();
    let mut i: usize = 0;
    while i < n
        invariant
            n == rules.len(),
            i <= n,
            rules@ == old(rules)@,
            rules_are(pairs_view(rules@), m),
            forall|j: int| 0 <= j < i ==> (#[trigger] pairs_view(rules@)[j]).0 != key@,
        decreases n - i,
    {
        if rules[i].0 == key {
            let ghost before = pairs_view(rules@);
            rules.set(i, (key, value));
            let ghost after = pairs_view(rules@);
            assert(after =~= before.update(i as int, (key@, value@)));
            let ghost m2 = m.insert(key@, value@);
            assert forall|a: int, b: int| 0 <= a < b < after.len() implies #[trigger] after[a].0
                != #[trigger] after[b].0 by {
                assert(before[a].0 != before[b].0);
            }
            assert forall|k: Seq<char>| #[trigger] m2.contains_key(k) implies exists|j: int|
                0 <= j < after.len() && after[j].0 == k by {
                if k != key@ {
                    let j = choose|j: int| 0 <= j < before.len() && before[j].0 == k;
                    assert(after[j].0 == k);
                } else {
                    assert(after[i as int].0 == k);
                }
            }
            assert forall|j: int| 0 <= j < after.len() implies m2.contains_key(#[trigger] after[j].0)
                && m2[after[j].0] == after[j].1 by {
                if j != i {
                    assert(before[j].0 != before[i as int].0);
                }
            }
            return;
        }
        i += 1;
    }
    let ghost before = pairs_view(rules@);
    let ghost kv = key@;
    let ghost vv = value@;
    rules.push((key, value));
    let ghost after = pairs_view(rules@);
    assert(after =~= before.push((kv, vv)));
    let ghost m2 = m.insert(kv, vv);
    assert forall|a: int, b: int| 0 <= a < b < after.len() implies #[trigger] after[a].0
        != #[trigger] after[b].0 by {
        if b < before.len() {
            assert(before[a].0 != before[b].0);
        } else {
            assert(before[a].0 != kv);
        }
    }
    assert forall|k: Seq<char>| #[trigger] m2.contains_key(k) implies exists|j: int|
        0 <= j < after.len() && after[j].0 == k by {
        if k != kv {
            let j = choose|j: int| 0 <= j < before.len() && before[j].0 == k;
            assert(after[j].0 == k);
        } else {
            assert(after[before.len() as int].0 == k);
        }
    }
    assert forall|j: int| 0 <= j < after.len() implies m2.contains_key(#[trigger] after[j].0)
        && m2[after[j].0] == after[j].1 by {
        if j < before.len() {
            assert(before[j].0 != kv);
        }
    }
}

fn add_entries(rules: &mut Vec<(String, String)>, entries: &[String], Ghost(m): Ghost<
    Map<Seq<char>, Seq<char>>,
>)
    requires
        rules_are(pairs_view(old(rules)@), m),
    ensures
        rules_are(pairs_view(final(rules)@), rules_from(strings_view(entries@), 0, m)),
{
    let ghost ev = strings_view(entries@);
    let ghost mut cur = m;
    let n = entries.len();
    let mut i: usize = 0;
    while i < n
        invariant
            n == entries.len(),
            ev == strings_view(entries@),
            i <= n,
            rules_are(pairs_view(rules@), cur),
            rules_from(ev, 0, m) == rules_from(ev, i as int, cur),
        decreases n - i,
    {
        assert(ev[i as int] == entries@[i as int]@);
        match parse_dictionary_entry(entries[i].as_str()) {
            Some((k, v)) => {
                let ghost kv = k@;
                let ghost vv = v@;
                upsert_rule(rules, k, v, Ghost(cur));
                proof {
                    cur = cur.insert(kv, vv);
                }
            },
            None => {},
        }
        i += 1;
    }
}

/// The dictionary rules: built-in entries, then user-defined entries that override
/// built-ins with the same text to look for. One rule per text; entries that do not
/// parse are skipped.
///
/// The rules are kept in a `Vec` whose texts to look for are distinct, which is what a
/// map keyed by that text guarantees: vstd gives a `String`-keyed `HashMap` no
/// specification of its contents, so nothing about the rules could be proved through it.
/// A map is walked in no fixed order, so the order of the rules is left open here too
/// (`rules_are` relates them to a map, in any order).
pub fn build_dictionary_rules(built_in: &[String], user_defined: &[String]) -> (r: Vec<
    (String, String),
>)
    ensures
        rules_are(pairs_view(r@), dictionary(strings_view(built_in@), strings_view(user_defined@))),
{
    let mut rules: Vec<(String, String)> = Vec::new();
    assert(pairs_view(rules@) =~= Seq::empty());
    add_entries(&mut rules, built_in, Ghost(Map::empty()));
    add_entries(
        &mut rules,
        user_defined,
        Ghost(rules_from(strings_view(built_in@), 0, Map::empty())),
    );
    rules
}

} // verus!

verus! {

/// The number of bytes that UTF-8 takes for a character.
pub open spec fn utf8_width(c: char) -> nat {
    if (c as u32) < 0x80 {
        1
    } else if (c as u32) < 0x800 {
        2
    } else if (c as u32) < 0x10000 {
        3
    } else {
        4
    }
}

/// The length in bytes of the UTF-8 encoding of a text (`str::len`).
pub open spec fn utf8_len(s: Seq<char>) -> nat
    decreases s.len(),
{
    if s.len() == 0 {
        0
    } else {
        utf8_len(s.drop_last()) + utf8_width(s.last())
    }
}

fn utf8_len_exec(s: &String) -> (n: u128)
    ensures
        n == utf8_len(s@),
{
    let v = chars_of(s.as_str());
    let mut n: u128 = 0;
    let mut i: usize = 0;
    while i < v.len()
        invariant
            v@ == s@,
            i <= v.len(),
            n == utf8_len(v@.take(i as int)),
            n <= 4 * i,
        decreases v.len() - i,
    {
        assert(v@.take(i + 1).drop_last() =~= v@.take(i as int));
        let c = v[i];
        let w: u128 = if (c as u32) < 0x80 {
            1
        } else if (c as u32) < 0x800 {
            2
        } else if (c as u32) < 0x10000 {
            3
        } else {
            4
        };
        n = n + w;
        i += 1;
    }
    assert(v@.take(v.len() as int) =~= v@);
    n
}

/// Longer texts to look for (in UTF-8 bytes) come first.
pub open spec fn longest_first(r: Seq<(Seq<char>, Seq<char>)>) -> bool {
    forall|i: int, j: int|
        0 <= i < j < r.len() ==> utf8_len(#[trigger] r[i].0) >= utf8_len(#[trigger] r[j].0)
}

/// The rules applied one after the other to the text.
pub open spec fn apply_rules(text: Seq<char>, rules: Seq<(Seq<char>, Seq<char>)>) -> Seq<char>
    decreases rules.len(),
{
    if rules.len() == 0 {
        text
    } else {
        apply_rules(replace_ci(text, rules[0].0, rules[0].1), rules.drop_first())
    }
}

/// Every rule of `out` is one of `src[lo..]` and every rule of `src[lo..]` is in `out`.
spec fn holds_exactly(out: Seq<(Seq<char>, Seq<char>)>, src: Seq<(Seq<char>, Seq<char>)>, lo: int) -> bool {
    &&& forall|j: int|
        0 <= j < out.len() ==> exists|t: int| lo <= t < src.len() && #[trigger] out[j] == src[t]
    &&& forall|t: int|
        lo <= t < src.len() ==> exists|j: int| 0 <= j < out.len() && out[j] == #[trigger] src[t]
}

proof fn lemma_insert_keeps_order(
    before: Seq<(Seq<char>, Seq<char>)>,
    p: int,
    xv: (Seq<char>, Seq<char>),
)
    requires
        0 <= p <= before.len(),
        longest_first(before),
        forall|j: int| 0 <= j < p ==> utf8_len(#[trigger] before[j].0) > utf8_len(xv.0),
        p < before.len() ==> utf8_len(before[p].0) <= utf8_len(xv.0),
    ensures
        longest_first(before.insert(p, xv)),
{
    let after = before.insert(p, xv);
    assert forall|a: int, b: int| 0 <= a < b < after.len() implies utf8_len(#[trigger] after[a].0)
        >= utf8_len(#[trigger] after[b].0) by {
        if b < p {
            assert(after[a] == before[a] && after[b] == before[b]);
        } else if a < p && b == p {
            assert(after[a] == before[a]);
        } else if a < p {
            assert(after[a] == before[a] && after[b] == before[b - 1]);
        } else if a == p {
            assert(after[b] == before[b - 1]);
            if b - 1 > p {
                assert(utf8_len(before[p].0) >= utf8_len(before[b - 1].0));
            }
        } else {
            assert(after[a] == before[a - 1]);
            assert(after[b] == before[b - 1]);
        }
    }
}

proof fn lemma_new_key_is_fresh(
    before: Seq<(Seq<char>, Seq<char>)>,
    src: Seq<(Seq<char>, Seq<char>)>,
    lo: int,
)
    requires
        0 < lo <= src.len(),
        keys_distinct(src),
        holds_exactly(before, src, lo),
    ensures
        forall|j: int| 0 <= j < before.len() ==> (#[trigger] before[j]).0 != src[lo - 1].0,
{
    assert forall|j: int| 0 <= j < before.len() implies (#[trigger] before[j]).0 != src[lo - 1].0 by {
        let t = choose|t: int| lo <= t < src.len() && before[j] == src[t];
        assert(src[lo - 1].0 != src[t].0);
    }
}

proof fn lemma_insert_keeps_distinct(
    before: Seq<(Seq<char>, Seq<char>)>,
    p: int,
    xv: (Seq<char>, Seq<char>),
)
    requires
        0 <= p <= before.len(),
        keys_distinct(before),
        forall|j: int| 0 <= j < before.len() ==> (#[trigger] before[j]).0 != xv.0,
    ensures
        keys_distinct(before.insert(p, xv)),
{
    let after = before.insert(p, xv);
    assert forall|a: int, b: int| 0 <= a < b < after.len() implies #[trigger] after[a].0
        != #[trigger] after[b].0 by {
        if a != p && b != p {
            let a1 = if a < p {
                a
            } else {
                a - 1
            };
            let b1 = if b < p {
                b
            } else {
                b - 1
            };
            assert(after[a] == before[a1] && after[b] == before[b1]);
            assert(before[a1].0 != before[b1].0);
        } else if a == p {
            assert(after[b] == before[b - 1]);
        } else {
            assert(after[a] == before[a]);
        }
    }
}

proof fn lemma_insert_keeps_cover(
    before: Seq<(Seq<char>, Seq<char>)>,
    p: int,
    src: Seq<(Seq<char>, Seq<char>)>,
    lo: int,
)
    requires
        0 <= p <= before.len(),
        0 < lo <= src.len(),
        holds_exactly(before, src, lo),
    ensures
        holds_exactly(before.insert(p, src[lo - 1]), src, lo - 1),
{
    let xv = src[lo - 1];
    let after = before.insert(p, xv);
    assert forall|j: int| 0 <= j < after.len() implies exists|t: int|
        lo - 1 <= t < src.len() && #[trigger] after[j] == src[t] by {
        if j == p {
            assert(after[j] == src[lo - 1]);
        } else {
            let j1 = if j < p {
                j
            } else {
                j - 1
            };
            assert(after[j] == before[j1]);
            let t = choose|t: int| lo <= t < src.len() && before[j1] == src[t];
            assert(after[j] == src[t]);
        }
    }
    assert forall|t: int| lo - 1 <= t < src.len() implies exists|j: int|
        0 <= j < after.len() && after[j] == #[trigger] src[t] by {
        if t == lo - 1 {
            assert(after[p] == src[t]);
        } else {
            let j = choose|j: int| 0 <= j < before.len() && before[j] == src[t];
            let j2 = if j < p {
                j
            } else {
                j + 1
            };
            assert(after[j2] == src[t]);
        }
    }
}

proof fn lemma_reordered_rules_are(
    r: Seq<(Seq<char>, Seq<char>)>,
    src: Seq<(Seq<char>, Seq<char>)>,
    m: Map<Seq<char>, Seq<char>>,
)
    requires
        rules_are(src, m),
        keys_distinct(r),
        holds_exactly(r, src, 0),
    ensures
        rules_are(r, m),
{
    assert forall|j: int| 0 <= j < r.len() implies m.contains_key(#[trigger] r[j].0) && m[r[j].0]
        == r[j].1 by {
        let t = choose|t: int| 0 <= t < src.len() && r[j] == src[t];
    }
    assert forall|k: Seq<char>| #[trigger] m.contains_key(k) implies exists|j: int|
        0 <= j < r.len() && r[j].0 == k by {
        let t = choose|t: int| 0 <= t < src.len() && src[t].0 == k;
        let j = choose|j: int| 0 <= j < r.len() && r[j] == src[t];
    }
}

/// `lens` holds the lengths of the texts to look for in `out`.
spec fn lengths_of(lens: Seq<u128>, out: Seq<(String, String)>) -> bool {
    &&& lens.len() == out.len()
    &&& forall|j: int| 0 <= j < out.len() ==> lens[j] == utf8_len(#[trigger] out[j].0@)
}

/// Inserts a rule after the rules whose texts are longer.
fn insert_by_length(out: &mut Vec<(String, String)>, lens: &mut Vec<u128>, x: (String, String)) -> (p:
    usize)
    requires
        lengths_of(old(lens)@, old(out)@),
        longest_first(pairs_view(old(out)@)),
    ensures
        p <= old(out)@.len(),
        final(out)@ == old(out)@.insert(p as int, x),
        pairs_view(final(out)@) == pairs_view(old(out)@).insert(p as int, (x.0@, x.1@)),
        lengths_of(final(lens)@, final(out)@),
        longest_first(pairs_view(final(out)@)),
{
    let xl = utf8_len_exec(&x.0);
    let mut p: usize = 0;
    while p < out.len() && lens[p] > xl
        invariant
            p <= out.len(),
            lengths_of(lens@, out@),
            forall|j: int| 0 <= j < p ==> lens@[j] > xl,
        decreases out.len() - p,
    {
        p += 1;
    }
    let ghost before = pairs_view(out@);
    let ghost xv = (x.0@, x.1@);
    proof {
        assert forall|j: int| 0 <= j < p implies utf8_len(#[trigger] before[j].0) > utf8_len(xv.0) by {
            assert(lens@[j] > xl);
        }
        lemma_insert_keeps_order(before, p as int, xv);
    }
    out.insert(p, x);
    lens.insert(p, xl);
    assert(pairs_view(out@) =~= before.insert(p as int, xv));
    assert forall|j: int| 0 <= j < out@.len() implies lens@[j] == utf8_len(#[trigger] out@[j].0@) by {
        if j < p {
        } else if j == p {
        } else {
            assert(out@[j] == old(out)@[j - 1]);
        }
    }
    p
}

/// The rules reordered so that longer texts come first, keeping the order of rules of
/// equal length.
fn order_longest_first(rules: Vec<(String, String)>, Ghost(m): Ghost<Map<Seq<char>, Seq<char>>>) -> (r:
    Vec<(String, String)>)
    requires
        rules_are(pairs_view(rules@), m),
    ensures
        rules_are(pairs_view(r@), m),
        longest_first(pairs_view(r@)),
{
    let ghost src = pairs_view(rules@);
    let mut out: Vec<(String, String)> = Vec::new();
    let mut lens: Vec<u128> = Vec::new();
    let n = rules.len();
    let mut rest = rules;
    let mut i: usize = 0;
    assert(pairs_view(rest@).take(n as int) =~= pairs_view(rest@));
    // Rules are taken from the back of the source; each goes in front of the rules of
    // the same length that followed it in the source.
    while i < n
        invariant
            n == src.len(),
            i <= n,
            rest.len() == n - i,
            pairs_view(rest@) == src.take(n - i),
            lengths_of(lens@, out@),
            keys_distinct(src),
            keys_distinct(pairs_view(out@)),
            longest_first(pairs_view(out@)),
            holds_exactly(pairs_view(out@), src, n - i),
        decreases n - i,
    {
        let ghost old_rest = pairs_view(rest@);
        let x = rest.pop().unwrap();
        assert(pairs_view(rest@) =~= src.take(n - i - 1));
        assert(old_rest[n - i - 1] == (x.0@, x.1@));
        let ghost before = pairs_view(out@);
        let ghost xv = (x.0@, x.1@);
        assert(xv == src[n - i - 1]);
        proof {
            lemma_new_key_is_fresh(before, src, n - i);
        }
        let p = insert_by_length(&mut out, &mut lens, x);
        proof {
            lemma_insert_keeps_distinct(before, p as int, xv);
            lemma_insert_keeps_cover(before, p as int, src, n - i);
        }
        i += 1;
    }
    proof {
        lemma_reordered_rules_are(pairs_view(out@), src, m);
    }
    out
}

} // verus!

verus! {

/// Applies the rules one after the other.
pub fn apply_dictionary_rules(text: &str, rules: &Vec<(String, String)>) -> (r: String)
    ensures
        r@ == apply_rules(text@, pairs_view(rules@)),
{
    let ghost rv = pairs_view(rules@);
    let mut out = crate::text::string_from(text);
    let n = rules.len();
    let mut i: usize = 0;
    assert(rv.skip(0) =~= rv);
    while i < n
        invariant
            n == rules.len(),
            rv == pairs_view(rules@),
            i <= n,
            apply_rules(text@, rv) == apply_rules(out@, rv.skip(i as int)),
        decreases n - i,
    {
        assert(rv.skip(i as int).drop_first() =~= rv.skip(i + 1));
        assert(rv.skip(i as int)[0] == (rules@[i as int].0@, rules@[i as int].1@));
        out = replace_case_insensitive(out.as_str(), rules[i].0.as_str(), rules[i].1.as_str());
        i += 1;
    }
    out
}

/// Applies the custom dictionary to a transcript: every rule, longest text to look for
/// first (in UTF-8 bytes), replaces its text case-insensitively. The order of rules of
/// equal length is not specified.
pub fn process_transcript_with_custom_dictionary(
    transcript_text: &str,
    built_in: &[String],
    user_defined: &[String],
) -> (r: String)
    ensures
        exists|order: Seq<(Seq<char>, Seq<char>)>|
            {
                &&& rules_are(
                    order,
                    dictionary(strings_view(built_in@), strings_view(user_defined@)),
                )
                &&& longest_first(order)
                &&& r@ == apply_rules(transcript_text@, order)
            },
        dictionary(strings_view(built_in@), strings_view(user_defined@)) == Map::<
            Seq<char>,
            Seq<char>,
        >::empty() ==> r@ == transcript_text@,
{
    let ghost m = dictionary(strings_view(built_in@), strings_view(user_defined@));
    let rules = build_dictionary_rules(built_in, user_defined);
    if rules.len() == 0 {
        proof {
            assert(longest_first(pairs_view(rules@)));
            assert(apply_rules(transcript_text@, pairs_view(rules@)) == transcript_text@);
        }
        return crate::text::string_from(transcript_text);
    }
    let ghost k = pairs_view(rules@)[0].0;
    assert(m.contains_key(k));
    let ordered = order_longest_first(rules, Ghost(m));
    let r = apply_dictionary_rules(transcript_text, &ordered);
    proof {
        if m == Map::<Seq<char>, Seq<char>>::empty() {
            assert(!Map::<Seq<char>, Seq<char>>::empty().contains_key(k));
        }
    }
    r
}

} // verus!

verus! {

proof fn lemma_rules_from_union(e: Seq<Seq<char>>, i: int, m: Map<Seq<char>, Seq<char>>)
    requires
        0 <= i <= e.len(),
    ensures
        rules_from(e, i, m) =~= m.union_prefer_right(rules_from(e, i, Map::empty())),
    decreases e.len() - i,
{
    if i < e.len() {
        match spec_dictionary_entry(e[i]) {
            Some((k, v)) => {
                lemma_rules_from_union(e, i + 1, m.insert(k, v));
                lemma_rules_from_union(e, i + 1, Map::<Seq<char>, Seq<char>>::empty().insert(k, v));
                assert(m.insert(k, v).union_prefer_right(rules_from(e, i + 1, Map::empty()))
                    =~= m.union_prefer_right(
                    Map::<Seq<char>, Seq<char>>::empty().insert(k, v).union_prefer_right(
                        rules_from(e, i + 1, Map::empty()),
                    ),
                ));
            },
            None => {
                lemma_rules_from_union(e, i + 1, m);
            },
        }
    } else {
        assert(m.union_prefer_right(Map::<Seq<char>, Seq<char>>::empty()) =~= m);
    }
}

/// Law: user-defined entries override built-in ones. The dictionary holds every rule of
/// the user entries as the user wrote it, and the built-in rules only for texts that no
/// user entry sets.
pub proof fn law_user_entries_override_built_in(built_in: Seq<Seq<char>>, user: Seq<Seq<char>>)
    ensures
        dictionary(built_in, user) == rules_from(built_in, 0, Map::empty()).union_prefer_right(
            rules_from(user, 0, Map::empty()),
        ),
{
    lemma_rules_from_union(user, 0, rules_from(built_in, 0, Map::empty()));
}

} // verus!
