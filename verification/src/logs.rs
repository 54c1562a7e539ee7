//! Log retention: the switch for debug logs, the last lines that the application log
//! keeps, and the trace files that are removed so that only the newest remain.
use vstd::prelude::*;

use crate::text::{chars_of, eq_str, lower, lower_chars, push_chars, to_string, trim, trim_chars};
use crate::transcript::strings_view;

pub use crate::paths::{app_log_path, logs_dir, traces_dir};

verus! {

/// Lines kept in the application log.
pub const APP_LOG_MAX_LINES: usize = 1000;

/// Trace files kept.
pub const TRACE_FILE_LIMIT: usize = 100;

/// Debug logs are on when the switch, trimmed and lower-cased, is `1`, `true`, `yes` or
/// `on`; they are off when it is anything else or unset.
pub open spec fn spec_debug_enabled(value: Option<Seq<char>>) -> bool {
    match value {
        None => false,
        Some(v) => {
            let l = lower(trim(v));
            l == "1"@ || l == "true"@ || l == "yes"@ || l == "on"@
        },
    }
}

/// Whether the value of the debug switch turns debug logs on.
pub fn debug_enabled(value: Option<&str>) -> (r: bool)
    ensures
        r == spec_debug_enabled(crate::bridge::opt_str_chars(value)),
{
    match value {
        None => false,
        Some(v) => {
            let c = chars_of(v);
            let t = trim_chars(&c);
            let l = lower_chars(&t);
            eq_str(&l, "1") || eq_str(&l, "true") || eq_str(&l, "yes") || eq_str(&l, "on")
        },
    }
}

/// Each line followed by a line feed.
pub open spec fn lines_text(lines: Seq<Seq<char>>) -> Seq<char>
    decreases lines.len(),
{
    if lines.len() == 0 {
        Seq::empty()
    } else {
        lines_text(lines.drop_last()) + lines.last() + "\n"@
    }
}

/// The new contents of a log that holds more than `max_lines` lines: its last
/// `max_lines` lines, each ended by a line feed. `None` when the log is short enough to be
/// left alone.
pub fn trimmed_log(lines: &Vec<String>, max_lines: usize) -> (r: Option<String>)
    ensures
        match r {
            None => lines@.len() <= max_lines,
            Some(t) => lines@.len() > max_lines && t@ == lines_text(
                strings_view(lines@).skip(lines@.len() - max_lines),
            ),
        },
{
    let n = lines.len();
    if n <= max_lines {
        return None;
    }
    let start = n - max_lines;
    let ghost kept = strings_view(lines@).skip(start as int);
    let mut v: Vec<char> = Vec::new();
    let mut i: usize = start;
    assert(kept.take(0) =~= Seq::<Seq<char>>::empty());
    while i < n
        invariant
            n == lines.len(),
            start <= i <= n,
            kept == strings_view(lines@).skip(start as int),
            v@ == lines_text(kept.take(i - start)),
        decreases n - i,
    {
        let line = chars_of(lines[i].as_str());
        push_chars(&mut v, &line);
        crate::text::push_str(&mut v, "\n");
        assert(kept.take(i - start + 1).drop_last() =~= kept.take(i - start));
        assert(kept.take(i - start + 1).last() == lines@[i as int]@);
        assert(v@ =~= lines_text(kept.take(i - start)) + lines@[i as int]@ + "\n"@);
        i += 1;
    }
    assert(kept.take(n - start) =~= kept);
    Some(to_string(&v))
}

/// File `j` comes before file `i` when it is older, or as old and listed earlier.
pub open spec fn listed_earlier(t: Seq<u128>, j: int, i: int) -> bool {
    t[j] < t[i] || (t[j] == t[i] && j < i)
}

/// How many of the first `upto` files come before file `i`.
pub open spec fn earlier_count(t: Seq<u128>, i: int, upto: int) -> nat
    decreases upto,
{
    if upto <= 0 {
        0
    } else {
        earlier_count(t, i, upto - 1) + if listed_earlier(t, upto - 1, i) {
            1nat
        } else {
            0nat
        }
    }
}

/// The position of file `i` when the files are ordered oldest first, ties kept in the
/// order listed.
pub open spec fn age_rank(t: Seq<u128>, i: int) -> nat {
    earlier_count(t, i, t.len() as int)
}

/// File `i` is removed: there are more than `keep` files and it is among the
/// `len - keep` oldest.
pub open spec fn spec_removed(t: Seq<u128>, keep: nat, i: int) -> bool {
    t.len() > keep && age_rank(t, i) < t.len() - keep
}

/// Which trace files to remove so that the `keep` newest remain, given the times at which
/// they were last modified, in the order the directory listed them.
pub fn trace_files_to_remove(modified: &[u128], keep: usize) -> (r: Vec<bool>)
    ensures
        r@.len() == modified@.len(),
        forall|i: int| 0 <= i < r@.len() ==> #[trigger] r@[i] == spec_removed(modified@, keep as nat, i),
{
    let n = modified.len();
    let mut r: Vec<bool> = Vec::new();
    let mut i: usize = 0;
    while i < n
        invariant
            n == modified@.len(),
            i <= n,
            r@.len() == i,
            forall|k: int| 0 <= k < i ==> #[trigger] r@[k] == spec_removed(modified@, keep as nat, k),
        decreases n - i,
    {
        let mut count: usize = 0;
        let mut j: usize = 0;
        while j < n
            invariant
                n == modified@.len(),
                i < n,
                j <= n,
                count == earlier_count(modified@, i as int, j as int),
                count <= j,
            decreases n - j,
        {
            if modified[j] < modified[i] || (modified[j] == modified[i] && j < i) {
                count += 1;
            }
            j += 1;
        }
        let removed = n > keep && count < n - keep;
        r.push(removed);
        i += 1;
    }
    r
}

proof fn lemma_earlier_count_monotone(t: Seq<u128>, a: int, b: int, upto: int)
    requires
        0 <= a < t.len(),
        0 <= b < t.len(),
        listed_earlier(t, a, b),
        0 <= upto <= t.len(),
    ensures
        earlier_count(t, a, upto) + (if a < upto { 1nat } else { 0nat }) <= earlier_count(t, b, upto),
    decreases upto,
{
    if upto > 0 {
        lemma_earlier_count_monotone(t, a, b, upto - 1);
        let k = upto - 1;
        if listed_earlier(t, k, a) {
            assert(listed_earlier(t, k, b));
        }
    }
}

/// Law: every trace file that is removed is older than every file that is kept, or as
/// old and listed earlier.
pub proof fn law_removed_files_are_oldest(t: Seq<u128>, keep: nat, removed: int, kept: int)
    requires
        0 <= removed < t.len(),
        0 <= kept < t.len(),
        spec_removed(t, keep, removed),
        !spec_removed(t, keep, kept),
    ensures
        listed_earlier(t, removed, kept),
{
    if !listed_earlier(t, removed, kept) {
        if removed != kept {
            assert(listed_earlier(t, kept, removed));
            lemma_earlier_count_monotone(t, kept, removed, t.len() as int);
        }
    }
}

proof fn lemma_earlier_count_bound(t: Seq<u128>, i: int, upto: int)
    requires
        0 <= i < t.len(),
        0 <= upto <= t.len(),
    ensures
        earlier_count(t, i, upto) + (if i < upto { 1int } else { 0int }) <= upto,
    decreases upto,
{
    if upto > 0 {
        lemma_earlier_count_bound(t, i, upto - 1);
    }
}

proof fn lemma_ranks_distinct(t: Seq<u128>, i: int, j: int)
    requires
        0 <= i < t.len(),
        0 <= j < t.len(),
        i != j,
    ensures
        age_rank(t, i) != age_rank(t, j),
{
    if listed_earlier(t, i, j) {
        lemma_earlier_count_monotone(t, i, j, t.len() as int);
    } else {
        assert(listed_earlier(t, j, i));
        lemma_earlier_count_monotone(t, j, i, t.len() as int);
    }
}

/// The files that are removed, by their position in the listing.
pub open spec fn removed_set(t: Seq<u128>, keep: nat) -> Set<int> {
    Set::new(|i: int| 0 <= i < t.len() && spec_removed(t, keep, i))
}

/// Law: exactly the files beyond the newest `keep` are removed: none when there are at
/// most `keep` files, and all but `keep` of them otherwise.
pub proof fn law_removed_count(t: Seq<u128>, keep: nat)
    ensures
        removed_set(t, keep).finite(),
        removed_set(t, keep).len() == if t.len() > keep {
            t.len() - keep
        } else {
            0
        },
{
    let n = t.len() as int;
    if n <= keep {
        assert(removed_set(t, keep) =~= Set::<int>::empty());
    } else {
        let k = n - keep;
        let f = |i: int| age_rank(t, i) as int;
        let all = vstd::set_lib::set_int_range(0, n);
        vstd::set_lib::lemma_int_range(0, n);
        vstd::set_lib::lemma_int_range(0, k);
        assert(vstd::relations::injective_on(f, all)) by {
            assert forall|a: int, b: int|
                all.contains(a) && all.contains(b) && #[trigger] f(a) == #[trigger] f(b) implies a == b by {
                if a != b {
                    lemma_ranks_distinct(t, a, b);
                }
            }
        }
        let ranks = all.map(f);
        vstd::set_lib::lemma_map_size(all, ranks, f);
        assert(ranks.subset_of(all)) by {
            assert forall|r: int| ranks.contains(r) implies all.contains(r) by {
                let i = choose|i: int| all.contains(i) && r == f(i);
                lemma_earlier_count_bound(t, i, n);
            }
        }
        vstd::set_lib::lemma_subset_equality(ranks, all);
        let removed = removed_set(t, keep);
        assert(removed.subset_of(all));
        vstd::set_lib::lemma_len_subset(removed, all);
        let low = vstd::set_lib::set_int_range(0, k);
        assert(removed.map(f) =~= low) by {
            assert forall|r: int| low.contains(r) implies removed.map(f).contains(r) by {
                assert(ranks.contains(r));
                let i = choose|i: int| all.contains(i) && r == f(i);
                assert(removed.contains(i));
            }
        }
        vstd::set_lib::lemma_map_size(removed, low, f);
    }
}

/// The name of this run's trace file: `trace-`, the start time in milliseconds since the
/// Unix epoch, and `.json`.
pub fn trace_file_name(now_ms: u128) -> (r: String)
    ensures
        r@ == "trace-"@ + crate::hotkey::decimal(now_ms as nat) + ".json"@,
{
    let mut v: Vec<char> = Vec::new();
    crate::text::push_str(&mut v, "trace-");
    crate::bridge::push_decimal(&mut v, now_ms);
    crate::text::push_str(&mut v, ".json");
    to_string(&v)
}

/// Debug logs are on when the settings ask for them or the debug switch turns them on.
pub fn debug_logging_on(enable_debug_logs: bool, switch_value: Option<&str>) -> (r: bool)
    ensures
        r == (enable_debug_logs || spec_debug_enabled(crate::bridge::opt_str_chars(switch_value))),
{
    enable_debug_logs || debug_enabled(switch_value)
}

} // verus!
