//! Character-level string helpers shared by the parsers of this crate.
use vstd::prelude::*;

verus! {

/// ASCII upper-case letters.
pub open spec fn is_ascii_upper(c: char) -> bool {
    'A' <= c && c <= 'Z'
}

/// ASCII lower-case letters.
pub open spec fn is_ascii_lower(c: char) -> bool {
    'a' <= c && c <= 'z'
}

/// `char::to_ascii_lowercase`.
pub open spec fn lower_char(c: char) -> char {
    if is_ascii_upper(c) {
        ((c as u32) + 32) as char
    } else {
        c
    }
}

/// `char::to_ascii_uppercase`.
pub open spec fn upper_char(c: char) -> char {
    if is_ascii_lower(c) {
        ((c as u32) - 32) as char
    } else {
        c
    }
}

/// `str::to_ascii_lowercase`, character by character.
pub open spec fn lower(s: Seq<char>) -> Seq<char> {
    s.map_values(|c: char| lower_char(c))
}

/// Unicode `White_Space`, the set that `char::is_whitespace` and `str::trim` use.
pub open spec fn is_white(c: char) -> bool {
    ||| ('\u{9}' <= c && c <= '\u{d}')
    ||| c == ' '
    ||| c == '\u{85}'
    ||| c == '\u{a0}'
    ||| c == '\u{1680}'
    ||| ('\u{2000}' <= c && c <= '\u{200a}')
    ||| c == '\u{2028}'
    ||| c == '\u{2029}'
    ||| c == '\u{202f}'
    ||| c == '\u{205f}'
    ||| c == '\u{3000}'
}

/// Leading white space removed.
pub open spec fn trim_start(s: Seq<char>) -> Seq<char>
    decreases s.len(),
{
    if s.len() > 0 && is_white(s[0]) {
        trim_start(s.drop_first())
    } else {
        s
    }
}

/// Trailing white space removed.
pub open spec fn trim_end(s: Seq<char>) -> Seq<char>
    decreases s.len(),
{
    if s.len() > 0 && is_white(s.last()) {
        trim_end(s.drop_last())
    } else {
        s
    }
}

/// `str::trim`.
pub open spec fn trim(s: Seq<char>) -> Seq<char> {
    trim_end(trim_start(s))
}

pub fn is_white_char(c: char) -> (r: bool)
    ensures
        r == is_white(c),
{
    ('\u{9}' <= c && c <= '\u{d}') || c == ' ' || c == '\u{85}' || c == '\u{a0}' || c == '\u{1680}'
        || ('\u{2000}' <= c && c <= '\u{200a}') || c == '\u{2028}' || c == '\u{2029}' || c
        == '\u{202f}' || c == '\u{205f}' || c == '\u{3000}'
}

pub fn lower_char_exec(c: char) -> (r: char)
    ensures
        r == lower_char(c),
{
    if 'A' <= c && c <= 'Z' {
        let u: u8 = (c as u8) + 32;
        u as char
    } else {
        c
    }
}

/// The characters of `s`.
pub fn chars_of(s: &str) -> (v: Vec<char>)
    ensures
        v@ == s@,
{
    let n = s.unicode_len();
    let mut v: Vec<char> = Vec::new();
    let mut i: usize = 0;
    while i < n
        invariant
            n == s@.len(),
            i <= n,
            v@ == s@.take(i as int),
        decreases n - i,
    {
        let c = s.get_char(i);
        v.push(c);
        assert(s@.take(i as int + 1) =~= s@.take(i as int).push(c));
        i += 1;
    }
    assert(s@.take(n as int) =~= s@);
    v
}


/// `v[lo..hi]` as a new vector.
pub fn copy_range(v: &Vec<char>, lo: usize, hi: usize) -> (r: Vec<char>)
    requires
        lo <= hi <= v.len(),
    ensures
        r@ == v@.subrange(lo as int, hi as int),
{
    let mut r: Vec<char> = Vec::new();
    let mut i = lo;
    while i < hi
        invariant
            lo <= i <= hi <= v.len(),
            r@ == v@.subrange(lo as int, i as int),
        decreases hi - i,
    {
        r.push(v[i]);
        assert(v@.subrange(lo as int, i + 1) =~= v@.subrange(lo as int, i as int).push(v@[i as int]));
        i += 1;
    }
    r
}

proof fn lemma_trim_start_step(s: Seq<char>, i: int)
    requires
        0 <= i < s.len(),
        is_white(s[i]),
    ensures
        trim_start(s.subrange(i, s.len() as int)) == trim_start(s.subrange(i + 1, s.len() as int)),
{
    assert(s.subrange(i, s.len() as int).drop_first() =~= s.subrange(i + 1, s.len() as int));
}

proof fn lemma_trim_end_step(s: Seq<char>, j: int)
    requires
        0 < j <= s.len(),
        is_white(s[j - 1]),
    ensures
        trim_end(s.subrange(0, j)) == trim_end(s.subrange(0, j - 1)),
{
    assert(s.subrange(0, j).drop_last() =~= s.subrange(0, j - 1));
}

/// `str::trim` on a character vector.
pub fn trim_chars(v: &Vec<char>) -> (r: Vec<char>)
    ensures
        r@ == trim(v@),
{
    let n = v.len();
    let mut i: usize = 0;
    assert(v@.subrange(0, n as int) =~= v@);
    while i < n && is_white_char(v[i])
        invariant
            n == v.len(),
            i <= n,
            trim_start(v@) == trim_start(v@.subrange(i as int, n as int)),
        decreases n - i,
    {
        proof {
            lemma_trim_start_step(v@, i as int);
        }
        i += 1;
    }
    let ghost t = v@.subrange(i as int, n as int);
    assert(trim_start(v@) == t);
    let mut j: usize = n;
    assert(t.subrange(0, (n - i) as int) =~= t);
    while j > i && is_white_char(v[j - 1])
        invariant
            i <= j <= n == v.len(),
            t == v@.subrange(i as int, n as int),
            trim_end(t) == trim_end(t.subrange(0, (j - i) as int)),
        decreases j,
    {
        proof {
            lemma_trim_end_step(t, (j - i) as int);
        }
        j -= 1;
    }
    assert(trim_end(t.subrange(0, (j - i) as int)) == t.subrange(0, (j - i) as int));
    assert(t.subrange(0, (j - i) as int) =~= v@.subrange(i as int, j as int));
    copy_range(v, i, j)
}

/// `str::to_ascii_lowercase` on a character vector.
pub fn lower_chars(v: &Vec<char>) -> (r: Vec<char>)
    ensures
        r@ == lower(v@),
{
    let mut r: Vec<char> = Vec::new();
    let n = v.len();
    let mut i: usize = 0;
    while i < n
        invariant
            n == v.len(),
            i <= n,
            r@ =~= lower(v@.take(i as int)),
        decreases n - i,
    {
        let c = lower_char_exec(v[i]);
        r.push(c);
        assert(v@.take(i + 1) =~= v@.take(i as int).push(v@[i as int]));
        i += 1;
    }
    assert(v@.take(n as int) =~= v@);
    r
}

/// Whether the characters equal those of a string.
pub fn eq_str(v: &Vec<char>, s: &str) -> (r: bool)
    ensures
        r == (v@ == s@),
{
    let n = s.unicode_len();
    if n != v.len() {
        return false;
    }
    let mut i: usize = 0;
    while i < n
        invariant
            n == v.len() == s@.len(),
            i <= n,
            forall|k: int| 0 <= k < i ==> v@[k] == s@[k],
        decreases n - i,
    {
        if v[i] != s.get_char(i) {
            return false;
        }
        i += 1;
    }
    assert(v@ =~= s@);
    true
}

/// Appends the characters of a string.
pub fn push_str(v: &mut Vec<char>, s: &str)
    ensures
        final(v)@ == old(v)@ + s@,
{
    let n = s.unicode_len();
    let mut i: usize = 0;
    while i < n
        invariant
            n == s@.len(),
            i <= n,
            v@ == old(v)@ + s@.take(i as int),
        decreases n - i,
    {
        let c = s.get_char(i);
        v.push(c);
        assert(s@.take(i + 1) =~= s@.take(i as int).push(c));
        assert(old(v)@ + s@.take(i + 1) =~= (old(v)@ + s@.take(i as int)).push(c));
        i += 1;
    }
    assert(s@.take(n as int) =~= s@);
}

/// Appends the characters of another vector.
pub fn push_chars(v: &mut Vec<char>, w: &Vec<char>)
    ensures
        final(v)@ == old(v)@ + w@,
{
    let n = w.len();
    let mut i: usize = 0;
    while i < n
        invariant
            n == w.len(),
            i <= n,
            v@ == old(v)@ + w@.take(i as int),
        decreases n - i,
    {
        v.push(w[i]);
        assert(w@.take(i + 1) =~= w@.take(i as int).push(w@[i as int]));
        assert(old(v)@ + w@.take(i + 1) =~= (old(v)@ + w@.take(i as int)).push(w@[i as int]));
        i += 1;
    }
    assert(w@.take(n as int) =~= w@);
}

/// The string made of the characters of a string literal.
pub fn string_from(s: &str) -> (r: String)
    ensures
        r@ == s@,
{
    let v = chars_of(s);
    to_string(&v)
}

/// Calls std's `String::push`, which is not proved here: the contract claims, as std
/// documents, that the string afterwards holds its old characters followed by `c`.
#[verifier::external_body]
fn string_push(s: &mut String, c: char)
    ensures
        final(s)@ == old(s)@.push(c),
{
    s.push(c);
}

/// The string made of the given characters.
pub fn to_string(v: &Vec<char>) -> (s: String)
    ensures
        s@ == v@,
{
    let mut s = String::new();
    let n = v.len();
    let mut i: usize = 0;
    while i < n
        invariant
            n == v.len(),
            i <= n,
            s@ == v@.take(i as int),
        decreases n - i,
    {
        string_push(&mut s, v[i]);
        assert(v@.take(i + 1) =~= v@.take(i as int).push(v@[i as int]));
        i += 1;
    }
    assert(v@.take(n as int) =~= v@);
    s
}

/// `str::split` on one character: every separator ends a piece, so there is always one
/// piece more than there are separators.
pub open spec fn split(s: Seq<char>, sep: char) -> Seq<Seq<char>>
    decreases s.len(),
{
    if s.len() == 0 {
        seq![Seq::<char>::empty()]
    } else {
        let init = split(s.drop_last(), sep);
        if s.last() == sep {
            init.push(Seq::<char>::empty())
        } else {
            init.update(init.len() - 1, init.last().push(s.last()))
        }
    }
}

pub proof fn lemma_split_nonempty(s: Seq<char>, sep: char)
    ensures
        split(s, sep).len() >= 1,
    decreases s.len(),
{
    if s.len() > 0 {
        lemma_split_nonempty(s.drop_last(), sep);
    }
}

/// The characters of each piece.
pub open spec fn pieces_view(v: Seq<Vec<char>>) -> Seq<Seq<char>> {
    v.map_values(|x: Vec<char>| x@)
}

/// `str::split` on one character, on a character vector.
pub fn split_chars(s: &Vec<char>, sep: char) -> (r: Vec<Vec<char>>)
    ensures
        pieces_view(r@) == split(s@, sep),
{
    let mut pieces: Vec<Vec<char>> = Vec::new();
    let mut cur: Vec<char> = Vec::new();
    let n = s.len();
    let mut i: usize = 0;
    assert(s@.take(0) =~= Seq::<char>::empty());
    assert(pieces_view(pieces@).push(cur@) =~= split(s@.take(0), sep));
    while i < n
        invariant
            n == s.len(),
            i <= n,
            pieces_view(pieces@).push(cur@) =~= split(s@.take(i as int), sep),
        decreases n - i,
    {
        let c = s[i];
        proof {
            assert(s@.take(i + 1).drop_last() =~= s@.take(i as int));
            lemma_split_nonempty(s@.take(i as int), sep);
        }
        if c == sep {
            let done = cur;
            cur = Vec::new();
            let ghost old_pv = pieces_view(pieces@);
            pieces.push(done);
            assert(pieces_view(pieces@) =~= old_pv.push(done@));
        } else {
            cur.push(c);
        }
        i += 1;
    }
    assert(s@.take(n as int) =~= s@);
    let ghost pv = pieces_view(pieces@);
    pieces.push(cur);
    assert(pieces_view(pieces@) =~= pv.push(cur@));
    pieces
}

/// Whether two strings hold the same characters.
pub fn str_eq(a: &str, b: &str) -> (r: bool)
    ensures
        r == (a@ == b@),
{
    let v = chars_of(a);
    eq_str(&v, b)
}

/// `p` occurs in `s` at position `k`.
pub open spec fn matches_at(s: Seq<char>, p: Seq<char>, k: int) -> bool {
    0 <= k && k + p.len() <= s.len() && s.subrange(k, k + p.len()) == p
}

/// The first position at or after `k` where `p` occurs in `s` (`str::find` on the
/// suffix that starts at `k`).
pub open spec fn find_from(s: Seq<char>, p: Seq<char>, k: int) -> Option<int>
    decreases s.len() + 1 - k,
{
    if k < 0 || k + p.len() > s.len() {
        None
    } else if matches_at(s, p, k) {
        Some(k)
    } else {
        find_from(s, p, k + 1)
    }
}

/// `str::find`.
pub open spec fn find(s: Seq<char>, p: Seq<char>) -> Option<int> {
    find_from(s, p, 0)
}

fn matches_at_exec(s: &Vec<char>, p: &Vec<char>, k: usize) -> (r: bool)
    requires
        k + p.len() <= s.len(),
    ensures
        r == matches_at(s@, p@, k as int),
{
    let m = p.len();
    let mut j: usize = 0;
    while j < m
        invariant
            m == p.len(),
            k + m <= s.len(),
            j <= m,
            forall|t: int| 0 <= t < j ==> s@[k + t] == p@[t],
        decreases m - j,
    {
        if s[k + j] != p[j] {
            assert(s@.subrange(k as int, k + m)[j as int] != p@[j as int]);
            return false;
        }
        j += 1;
    }
    assert(s@.subrange(k as int, k + m) =~= p@);
    true
}

/// `str::find` on the suffix of `s` that starts at `from`.
pub fn find_chars(s: &Vec<char>, p: &Vec<char>, from: usize) -> (r: Option<usize>)
    requires
        from <= s.len(),
    ensures
        match r {
            Some(k) => find_from(s@, p@, from as int) == Some(k as int),
            None => find_from(s@, p@, from as int) is None,
        },
{
    let n = s.len();
    let m = p.len();
    if m > n || from > n - m {
        return None;
    }
    let mut k = from;
    loop
        invariant
            n == s.len(),
            m == p.len(),
            m <= n,
            from <= k,
            k <= n - m,
            find_from(s@, p@, from as int) == find_from(s@, p@, k as int),
        decreases n - m - k,
    {
        if matches_at_exec(s, p, k) {
            return Some(k);
        }
        if k == n - m {
            assert(find_from(s@, p@, k + 1) is None);
            return None;
        }
        k += 1;
    }
}

/// A position that `find_from` reports is at or after the start and holds the pattern.
pub proof fn lemma_find_from_bounds_text(s: Seq<char>, p: Seq<char>, k: int)
    ensures
        find_from(s, p, k) matches Some(x) ==> k <= x && matches_at(s, p, x),
    decreases s.len() + 1 - k,
{
    if k < 0 || k + p.len() > s.len() {
    } else if !matches_at(s, p, k) {
        lemma_find_from_bounds_text(s, p, k + 1);
    }
}

/// The text holds no `c`.
pub open spec fn free_of(s: Seq<char>, c: char) -> bool {
    forall|i: int| 0 <= i < s.len() ==> #[trigger] s[i] != c
}

/// Splitting text that is two texts around a separator splits each of them.
pub proof fn lemma_split_around(a: Seq<char>, b: Seq<char>, sep: char)
    ensures
        split(a + seq![sep] + b, sep) =~= split(a, sep) + split(b, sep),
    decreases b.len(),
{
    let x = a + seq![sep] + b;
    if b.len() == 0 {
        assert(x.drop_last() =~= a);
    } else {
        assert(x.drop_last() =~= a + seq![sep] + b.drop_last());
        lemma_split_around(a, b.drop_last(), sep);
        lemma_split_nonempty(b.drop_last(), sep);
        lemma_split_nonempty(a, sep);
    }
}

/// Text without the separator is a single piece.
pub proof fn lemma_split_whole(s: Seq<char>, sep: char)
    requires
        free_of(s, sep),
    ensures
        split(s, sep) =~= seq![s],
    decreases s.len(),
{
    if s.len() > 0 {
        assert(free_of(s.drop_last(), sep)) by {
            assert forall|i: int| 0 <= i < s.drop_last().len() implies #[trigger] s.drop_last()[i]
                != sep by {
                assert(s.drop_last()[i] == s[i]);
            }
        }
        lemma_split_whole(s.drop_last(), sep);
        assert(s[s.len() - 1] != sep);
        assert(s.drop_last().push(s.last()) =~= s);
        let init = split(s.drop_last(), sep);
        assert(init.update(init.len() - 1, init.last().push(s.last())) =~= seq![s]);
    } else {
        assert(s =~= Seq::<char>::empty());
    }
}

/// No piece of a split holds the separator.
pub proof fn lemma_split_pieces_free(s: Seq<char>, sep: char)
    ensures
        forall|i: int| 0 <= i < split(s, sep).len() ==> free_of(#[trigger] split(s, sep)[i], sep),
    decreases s.len(),
{
    if s.len() > 0 {
        lemma_split_pieces_free(s.drop_last(), sep);
        lemma_split_nonempty(s.drop_last(), sep);
        let init = split(s.drop_last(), sep);
        assert forall|i: int| 0 <= i < split(s, sep).len() implies free_of(
            #[trigger] split(s, sep)[i],
            sep,
        ) by {
            if i < init.len() - 1 {
                assert(split(s, sep)[i] == init[i]);
            } else if s.last() == sep {
                if i < init.len() {
                    assert(split(s, sep)[i] == init[i]);
                }
            } else {
                let p = init.last().push(s.last());
                assert(split(s, sep)[i] == p);
                assert(free_of(init[init.len() - 1], sep));
                assert forall|j: int| 0 <= j < p.len() implies #[trigger] p[j] != sep by {
                    if j < p.len() - 1 {
                        assert(p[j] == init.last()[j]);
                    }
                }
            }
        }
    }
}

proof fn lemma_trim_start_skip(s: Seq<char>)
    ensures
        exists|k: int| 0 <= k <= s.len() && #[trigger] trim_start(s) == s.skip(k),
    decreases s.len(),
{
    if s.len() > 0 && is_white(s[0]) {
        lemma_trim_start_skip(s.drop_first());
        let k = choose|k: int| 0 <= k <= s.drop_first().len() && #[trigger] trim_start(s.drop_first()) == s.drop_first().skip(k);
        assert(s.drop_first().skip(k) =~= s.skip(k + 1));
    } else {
        assert(s.skip(0) =~= s);
    }
}

proof fn lemma_trim_end_take(s: Seq<char>)
    ensures
        exists|k: int| 0 <= k <= s.len() && #[trigger] trim_end(s) == s.take(k),
    decreases s.len(),
{
    if s.len() > 0 && is_white(s.last()) {
        lemma_trim_end_take(s.drop_last());
        let k = choose|k: int| 0 <= k <= s.drop_last().len() && #[trigger] trim_end(s.drop_last()) == s.drop_last().take(k);
        assert(s.drop_last().take(k) =~= s.take(k));
    } else {
        assert(s.take(s.len() as int) =~= s);
    }
}

/// Trimming keeps a text free of a character.
pub proof fn lemma_trim_free(s: Seq<char>, c: char)
    requires
        free_of(s, c),
    ensures
        free_of(trim(s), c),
{
    lemma_trim_start_skip(s);
    let a = choose|k: int| 0 <= k <= s.len() && #[trigger] trim_start(s) == s.skip(k);
    let t = trim_start(s);
    lemma_trim_end_take(t);
    let b = choose|k: int| 0 <= k <= t.len() && #[trigger] trim_end(t) == t.take(k);
    assert forall|i: int| 0 <= i < trim(s).len() implies #[trigger] trim(s)[i] != c by {
        assert(trim(s)[i] == t[i]);
        assert(t[i] == s[i + a]);
    }
}

proof fn lemma_trim_start_first(s: Seq<char>)
    ensures
        trim_start(s).len() > 0 ==> !is_white(trim_start(s)[0]),
    decreases s.len(),
{
    if s.len() > 0 && is_white(s[0]) {
        lemma_trim_start_first(s.drop_first());
    }
}

proof fn lemma_trim_end_keeps_first(s: Seq<char>)
    ensures
        trim_end(s).len() > 0 ==> trim_end(s)[0] == s[0],
        trim_end(s).len() > 0 ==> !is_white(trim_end(s).last()),
    decreases s.len(),
{
    if s.len() > 0 && is_white(s.last()) {
        lemma_trim_end_keeps_first(s.drop_last());
    }
}

/// A trimmed text neither starts nor ends with white space.
pub proof fn lemma_trim_ends(s: Seq<char>)
    ensures
        trim(s).len() > 0 ==> !is_white(trim(s)[0]) && !is_white(trim(s).last()),
{
    lemma_trim_start_first(s);
    lemma_trim_end_keeps_first(trim_start(s));
}

/// Text that neither starts nor ends with white space is its own trim, also after a
/// leading space.
pub proof fn lemma_trim_keeps(s: Seq<char>)
    requires
        s.len() > 0,
        !is_white(s[0]),
        !is_white(s.last()),
    ensures
        trim(s) == s,
        trim(" "@ + s) == s,
{
    reveal_strlit(" ");
    assert(trim_start(s) == s);
    assert((" "@ + s).drop_first() =~= s);
    assert(trim_start(" "@ + s) == trim_start(s));
}

/// The pieces of a split hold no character that the whole text does not hold.
pub proof fn lemma_split_pieces_keep_free(s: Seq<char>, sep: char, c: char)
    requires
        free_of(s, c),
    ensures
        forall|i: int| 0 <= i < split(s, sep).len() ==> free_of(#[trigger] split(s, sep)[i], c),
    decreases s.len(),
{
    if s.len() > 0 {
        assert(free_of(s.drop_last(), c)) by {
            assert forall|i: int| 0 <= i < s.drop_last().len() implies #[trigger] s.drop_last()[i]
                != c by {
                assert(s.drop_last()[i] == s[i]);
            }
        }
        assert(s[s.len() - 1] != c);
        lemma_split_pieces_keep_free(s.drop_last(), sep, c);
        lemma_split_nonempty(s.drop_last(), sep);
        let init = split(s.drop_last(), sep);
        assert forall|i: int| 0 <= i < split(s, sep).len() implies free_of(
            #[trigger] split(s, sep)[i],
            c,
        ) by {
            if i < init.len() - 1 {
                assert(split(s, sep)[i] == init[i]);
            } else if s.last() == sep {
                if i < init.len() {
                    assert(split(s, sep)[i] == init[i]);
                }
            } else {
                let p = init.last().push(s.last());
                assert(split(s, sep)[i] == p);
                assert(free_of(init[init.len() - 1], c));
                assert forall|j: int| 0 <= j < p.len() implies #[trigger] p[j] != c by {
                    if j < p.len() - 1 {
                        assert(p[j] == init.last()[j]);
                    }
                }
            }
        }
    }
}

/// Every character of the text is white space.
pub open spec fn all_white(w: Seq<char>) -> bool {
    forall|i: int| 0 <= i < w.len() ==> is_white(#[trigger] w[i])
}

/// Splitting two texts written one after the other: the last piece of the first and the
/// first piece of the second run together.
pub proof fn lemma_split_concat(u: Seq<char>, v: Seq<char>, sep: char)
    ensures
        split(u, sep).len() >= 1,
        split(v, sep).len() >= 1,
        split(u + v, sep) =~= split(u, sep).drop_last() + seq![split(u, sep).last() + split(v, sep)[0]]
            + split(v, sep).drop_first(),
    decreases v.len(),
{
    lemma_split_nonempty(u, sep);
    lemma_split_nonempty(v, sep);
    if v.len() == 0 {
        assert(u + v =~= u);
        assert(split(v, sep) =~= seq![Seq::<char>::empty()]);
        assert(split(u, sep).last() + Seq::<char>::empty() =~= split(u, sep).last());
        assert(split(u, sep).drop_last().push(split(u, sep).last()) =~= split(u, sep));
    } else {
        let vd = v.drop_last();
        lemma_split_concat(u, vd, sep);
        lemma_split_nonempty(vd, sep);
        assert((u + v).drop_last() =~= u + vd);
        assert((u + v).last() == v.last());
        let su = split(u, sep);
        let sd = split(vd, sep);
        if v.last() == sep {
            assert(split(v, sep) == sd.push(Seq::<char>::empty()));
            assert(split(v, sep)[0] == sd[0]);
            assert(split(v, sep).drop_first() =~= sd.drop_first().push(Seq::<char>::empty()));
        } else {
            let c = v.last();
            assert(split(v, sep) == sd.update(sd.len() - 1, sd.last().push(c)));
            if sd.len() == 1 {
                assert(split(v, sep)[0] == sd[0].push(c));
                assert(su.last() + sd[0].push(c) =~= (su.last() + sd[0]).push(c));
            } else {
                assert(split(v, sep)[0] == sd[0]);
                assert(split(v, sep).drop_first() =~= sd.drop_first().update(
                    sd.len() - 2,
                    sd.last().push(c),
                ));
            }
        }
    }
}

/// Splitting on a character other than a letter commutes with lower-casing.
pub proof fn lemma_split_lower(s: Seq<char>, sep: char)
    requires
        !is_ascii_upper(sep),
        !is_ascii_lower(sep),
    ensures
        split(lower(s), sep) =~= split(s, sep).map_values(|p: Seq<char>| lower(p)),
    decreases s.len(),
{
    if s.len() > 0 {
        lemma_split_lower(s.drop_last(), sep);
        lemma_split_nonempty(s.drop_last(), sep);
        assert(lower(s).drop_last() =~= lower(s.drop_last()));
        assert(lower(s).last() == lower_char(s.last()));
        assert((lower_char(s.last()) == sep) == (s.last() == sep));
        let init = split(s.drop_last(), sep);
        let m = init.map_values(|p: Seq<char>| lower(p));
        assert(split(lower(s.drop_last()), sep) == m);
        if s.last() != sep {
            let c = s.last();
            assert(lower(init.last().push(c)) =~= lower(init.last()).push(lower_char(c)));
            assert(m.last() == lower(init.last()));
            assert(split(s, sep) == init.update(init.len() - 1, init.last().push(c)));
            assert(split(lower(s), sep) == m.update(m.len() - 1, m.last().push(lower_char(c))));
            assert(split(s, sep).map_values(|p: Seq<char>| lower(p)) =~= m.update(
                m.len() - 1,
                lower(init.last().push(c)),
            ));
        } else {
            assert(lower(Seq::<char>::empty()) =~= Seq::<char>::empty());
            assert(split(s, sep) == init.push(Seq::<char>::empty()));
            assert(split(lower(s), sep) == m.push(Seq::<char>::empty()));
            assert(split(s, sep).map_values(|p: Seq<char>| lower(p)) =~= m.push(Seq::<char>::empty()));
        }
    } else {
        assert(lower(s) =~= Seq::<char>::empty());
        assert(lower(Seq::<char>::empty()) =~= Seq::<char>::empty());
        assert(split(s, sep) =~= seq![Seq::<char>::empty()]);
        assert(split(lower(s), sep) =~= seq![Seq::<char>::empty()]);
        assert(split(s, sep).map_values(|p: Seq<char>| lower(p)) =~= seq![lower(Seq::<char>::empty())]);
    }
}

proof fn lemma_lower_trim_start(s: Seq<char>)
    ensures
        lower(trim_start(s)) == trim_start(lower(s)),
    decreases s.len(),
{
    if s.len() > 0 {
        assert(lower(s)[0] == lower_char(s[0]));
        assert(is_white(lower_char(s[0])) == is_white(s[0]));
        assert(lower(s).drop_first() =~= lower(s.drop_first()));
        lemma_lower_trim_start(s.drop_first());
    } else {
        assert(lower(s) =~= s);
    }
}

proof fn lemma_lower_trim_end(s: Seq<char>)
    ensures
        lower(trim_end(s)) == trim_end(lower(s)),
    decreases s.len(),
{
    if s.len() > 0 {
        assert(lower(s).last() == lower_char(s.last()));
        assert(is_white(lower_char(s.last())) == is_white(s.last()));
        assert(lower(s).drop_last() =~= lower(s.drop_last()));
        lemma_lower_trim_end(s.drop_last());
    } else {
        assert(lower(s) =~= s);
    }
}

/// Trimming commutes with lower-casing.
pub proof fn lemma_lower_trim(s: Seq<char>)
    ensures
        lower(trim(s)) == trim(lower(s)),
{
    lemma_lower_trim_end(trim_start(s));
    lemma_lower_trim_start(s);
}

proof fn lemma_trim_start_white_prefix(w: Seq<char>, s: Seq<char>)
    requires
        all_white(w),
    ensures
        trim_start(w + s) == trim_start(s),
    decreases w.len(),
{
    if w.len() > 0 {
        assert((w + s)[0] == w[0]);
        assert((w + s).drop_first() =~= w.drop_first() + s);
        assert(all_white(w.drop_first())) by {
            assert forall|i: int| 0 <= i < w.drop_first().len() implies is_white(#[trigger] w.drop_first()[i]) by {
                assert(w.drop_first()[i] == w[i + 1]);
            }
        }
        lemma_trim_start_white_prefix(w.drop_first(), s);
    } else {
        assert(w + s =~= s);
    }
}

proof fn lemma_trim_end_white_suffix(s: Seq<char>, w: Seq<char>)
    requires
        all_white(w),
    ensures
        trim_end(s + w) == trim_end(s),
    decreases w.len(),
{
    if w.len() > 0 {
        assert((s + w).last() == w.last());
        assert(is_white(w[w.len() - 1]));
        assert((s + w).drop_last() =~= s + w.drop_last());
        assert(all_white(w.drop_last())) by {
            assert forall|i: int| 0 <= i < w.drop_last().len() implies is_white(#[trigger] w.drop_last()[i]) by {
                assert(w.drop_last()[i] == w[i]);
            }
        }
        lemma_trim_end_white_suffix(s, w.drop_last());
    } else {
        assert(s + w =~= s);
    }
}

proof fn lemma_trim_start_append(s: Seq<char>, w: Seq<char>)
    ensures
        trim_start(s).len() > 0 ==> trim_start(s + w) == trim_start(s) + w,
        trim_start(s).len() == 0 ==> trim_start(s + w) == trim_start(w),
    decreases s.len(),
{
    if s.len() > 0 {
        assert((s + w)[0] == s[0]);
        if is_white(s[0]) {
            assert((s + w).drop_first() =~= s.drop_first() + w);
            lemma_trim_start_append(s.drop_first(), w);
        }
    } else {
        assert(s + w =~= w);
        assert(Seq::<char>::empty() + w =~= w);
    }
}

/// White space around a text does not change its trim.
pub proof fn lemma_trim_white_around(w1: Seq<char>, s: Seq<char>, w2: Seq<char>)
    requires
        all_white(w1),
        all_white(w2),
    ensures
        trim(w1 + s + w2) == trim(s),
{
    assert(w1 + s + w2 =~= w1 + (s + w2));
    lemma_trim_start_white_prefix(w1, s + w2);
    lemma_trim_start_append(s, w2);
    if trim_start(s).len() > 0 {
        lemma_trim_end_white_suffix(trim_start(s), w2);
    } else {
        lemma_trim_start_white_prefix(w2, Seq::<char>::empty());
        assert(w2 + Seq::<char>::empty() =~= w2);
        assert(trim_start(Seq::<char>::empty()) =~= Seq::<char>::empty());
    }
}

proof fn lemma_trim_start_decompose(s: Seq<char>)
    ensures
        exists|w: Seq<char>| all_white(w) && s == w + #[trigger] trim_start(s),
    decreases s.len(),
{
    if s.len() > 0 && is_white(s[0]) {
        lemma_trim_start_decompose(s.drop_first());
        let w = choose|w: Seq<char>| all_white(w) && s.drop_first() == w + #[trigger] trim_start(s.drop_first());
        let w2 = seq![s[0]] + w;
        assert(all_white(w2)) by {
            assert forall|i: int| 0 <= i < w2.len() implies is_white(#[trigger] w2[i]) by {
                if i > 0 {
                    assert(w2[i] == w[i - 1]);
                }
            }
        }
        assert(trim_start(s) == trim_start(s.drop_first()));
        assert(s =~= seq![s[0]] + s.drop_first());
        assert(s =~= seq![s[0]] + (w + trim_start(s.drop_first())));
        assert(s =~= w2 + trim_start(s));
    } else {
        assert(s =~= Seq::<char>::empty() + trim_start(s));
        assert(all_white(Seq::<char>::empty()));
    }
}

proof fn lemma_trim_end_decompose(s: Seq<char>)
    ensures
        exists|w: Seq<char>| all_white(w) && s == #[trigger] trim_end(s) + w,
    decreases s.len(),
{
    if s.len() > 0 && is_white(s.last()) {
        lemma_trim_end_decompose(s.drop_last());
        let w = choose|w: Seq<char>| all_white(w) && s.drop_last() == #[trigger] trim_end(s.drop_last()) + w;
        let w2 = w.push(s.last());
        assert(all_white(w2)) by {
            assert forall|i: int| 0 <= i < w2.len() implies is_white(#[trigger] w2[i]) by {
                if i < w.len() {
                    assert(w2[i] == w[i]);
                }
            }
        }
        assert(trim_end(s) == trim_end(s.drop_last()));
        assert(s =~= s.drop_last().push(s.last()));
        assert(s =~= (trim_end(s.drop_last()) + w).push(s.last()));
        assert(s =~= trim_end(s) + w2);
    } else {
        assert(s =~= trim_end(s) + Seq::<char>::empty());
        assert(all_white(Seq::<char>::empty()));
    }
}

/// A text is its trim with white space before and after it.
pub proof fn lemma_trim_decompose(s: Seq<char>)
    ensures
        exists|w1: Seq<char>, w2: Seq<char>|
            all_white(w1) && all_white(w2) && s == w1 + #[trigger] trim(s) + w2,
{
    lemma_trim_start_decompose(s);
    let w1 = choose|w: Seq<char>| all_white(w) && s == w + #[trigger] trim_start(s);
    lemma_trim_end_decompose(trim_start(s));
    let w2 = choose|w: Seq<char>| all_white(w) && trim_start(s) == #[trigger] trim_end(trim_start(s)) + w;
    assert(s =~= w1 + trim(s) + w2);
}

/// A text with a character that is not white space has a non-empty trim.
pub proof fn lemma_trim_nonempty(s: Seq<char>, k: int)
    requires
        0 <= k < s.len(),
        !is_white(s[k]),
    ensures
        trim(s).len() > 0,
{
    lemma_trim_decompose(s);
    let (w1, w2) = choose|w1: Seq<char>, w2: Seq<char>|
        all_white(w1) && all_white(w2) && s == w1 + #[trigger] trim(s) + w2;
    if trim(s).len() == 0 {
        assert(s =~= w1 + w2);
        if k < w1.len() {
            assert(s[k] == w1[k]);
        } else {
            assert(s[k] == w2[k - w1.len()]);
        }
    }
}

/// Where `p` occurs at `k`, a search for `p` that starts at or before `k` finds it.
pub proof fn lemma_find_from_finds(s: Seq<char>, p: Seq<char>, j: int, k: int)
    requires
        0 <= j <= k,
        matches_at(s, p, k),
    ensures
        find_from(s, p, j) is Some,
    decreases k - j,
{
    if j < k && !matches_at(s, p, j) {
        lemma_find_from_finds(s, p, j + 1, k);
    }
}

} // verus!
