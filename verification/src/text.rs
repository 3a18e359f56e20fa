//! Character-level text utilities shared by the library, with their
//! mathematical models over `Seq<char>`.

use vstd::prelude::*;

verus! {

/// The Unicode `White_Space` property, as `char::is_whitespace` uses it.
pub open spec fn is_ws(c: char) -> bool {
    ||| ('\u{9}' <= c && c <= '\u{d}')
    ||| c == ' '
    ||| c == '\u{85}'
    ||| c == '\u{a0}'
    ||| c == '\u{1680}'
    ||| ('\u{2000}' <= c && c <= '\u{200a}')
    ||| c == '\u{2028}'
    ||| c == '\u{2029}'
    ||| c == '\u{202f}'
    ||| c == '\u{205f}'
    ||| c == '\u{3000}'
}

/// Executable form of [`is_ws`].
pub fn is_whitespace(c: char) -> (r: bool)
    ensures
        r == is_ws(c),
{
    ('\u{9}' <= c && c <= '\u{d}') || c == ' ' || c == '\u{85}' || c == '\u{a0}' || c == '\u{1680}'
        || ('\u{2000}' <= c && c <= '\u{200a}') || c == '\u{2028}' || c == '\u{2029}' || c
        == '\u{202f}' || c == '\u{205f}' || c == '\u{3000}'
}

/// `s` with its leading whitespace removed.
pub open spec fn trim_start(s: Seq<char>) -> Seq<char>
    decreases s.len(),
{
    if s.len() > 0 && is_ws(s[0]) {
        trim_start(s.drop_first())
    } else {
        s
    }
}

/// `s` with its trailing whitespace removed.
pub open spec fn trim_end(s: Seq<char>) -> Seq<char>
    decreases s.len(),
{
    if s.len() > 0 && is_ws(s.last()) {
        trim_end(s.drop_last())
    } else {
        s
    }
}

/// `s` with whitespace removed at both ends, as `str::trim` does.
pub open spec fn trim(s: Seq<char>) -> Seq<char> {
    trim_end(trim_start(s))
}

/// Trimming the start leaves nothing or a non-whitespace first character.
proof fn lemma_trim_start_first(s: Seq<char>)
    ensures
        trim_start(s).len() == 0 || !is_ws(trim_start(s)[0]),
    decreases s.len(),
{
    if s.len() > 0 && is_ws(s[0]) {
        lemma_trim_start_first(s.drop_first());
    }
}

/// Trimming the end keeps a prefix, which is empty or ends in a
/// non-whitespace character.
proof fn lemma_trim_end_prefix(s: Seq<char>)
    ensures
        trim_end(s).len() <= s.len(),
        trim_end(s) == s.subrange(0, trim_end(s).len() as int),
        trim_end(s).len() == 0 || !is_ws(trim_end(s).last()),
    decreases s.len(),
{
    if s.len() > 0 && is_ws(s.last()) {
        lemma_trim_end_prefix(s.drop_last());
        assert(s.drop_last().subrange(0, trim_end(s).len() as int) =~= s.subrange(0, trim_end(s).len() as int));
    } else {
        assert(s.subrange(0, s.len() as int) =~= s);
    }
}

/// Trimming a trimmed text changes nothing.
pub proof fn lemma_trim_idempotent(s: Seq<char>)
    ensures
        trim(trim(s)) == trim(s),
{
    let u = trim_start(s);
    let t = trim_end(u);
    lemma_trim_start_first(s);
    lemma_trim_end_prefix(u);
    if t.len() > 0 {
        assert(t[0] == u[0]);
    }
    assert(trim_start(t) == t);
    assert(trim_end(t) == t);
}

/// Every character of `s` is whitespace.
pub open spec fn all_ws(s: Seq<char>) -> bool {
    forall|i: int| 0 <= i < s.len() ==> is_ws(#[trigger] s[i])
}

/// The first index at or after `i` whose character is not whitespace
/// (or `s.len()`) describes the trimmed start.
pub proof fn lemma_trim_start_from(s: Seq<char>, i: int)
    requires
        0 <= i <= s.len(),
        forall|k: int| 0 <= k < i ==> is_ws(#[trigger] s[k]),
    ensures
        trim_start(s) == trim_start(s.subrange(i, s.len() as int)),
    decreases i,
{
    if i > 0 {
        assert(s.drop_first().subrange(i - 1, s.drop_first().len() as int) =~= s.subrange(
            i,
            s.len() as int,
        ));
        lemma_trim_start_from(s.drop_first(), i - 1);
    } else {
        assert(s.subrange(0, s.len() as int) =~= s);
    }
}

pub proof fn lemma_trim_end_to(s: Seq<char>, j: int)
    requires
        0 <= j <= s.len(),
        forall|k: int| j <= k < s.len() ==> is_ws(#[trigger] s[k]),
    ensures
        trim_end(s) == trim_end(s.subrange(0, j)),
    decreases s.len() - j,
{
    if j < s.len() {
        assert(s.drop_last().subrange(0, j) =~= s.subrange(0, j));
        lemma_trim_end_to(s.drop_last(), j);
    } else {
        assert(s.subrange(0, j) =~= s);
    }
}

/// The index range `[start, end)` of `s` that `trim` keeps.
pub fn trim_bounds(s: &Vec<char>) -> (r: (usize, usize))
    ensures
        r.0 <= r.1 <= s.len(),
        s@.subrange(r.0 as int, r.1 as int) == trim(s@),
        trim_start(s@) == s@.subrange(r.0 as int, s.len() as int),
        forall|k: int| 0 <= k < r.0 ==> is_ws(#[trigger] s@[k]),
        forall|k: int| r.1 <= k < s.len() ==> is_ws(#[trigger] s@[k]),
        r.0 < r.1 ==> !is_ws(s@[r.0 as int]) && !is_ws(s@[r.1 - 1]),
        r.0 == r.1 ==> r.0 == s.len(),
{
    let n = s.len();
    let mut i: usize = 0;
    while i < n && is_whitespace(s[i])
        invariant
            i <= n == s.len(),
            forall|k: int| 0 <= k < i ==> is_ws(#[trigger] s@[k]),
        decreases n - i,
    {
        i = i + 1;
    }
    proof {
        lemma_trim_start_from(s@, i as int);
    }
    let ghost rest = s@.subrange(i as int, n as int);
    assert(trim_start(rest) == rest);
    let mut j: usize = n;
    while j > i && is_whitespace(s[j - 1])
        invariant
            i <= j <= n == s.len(),
            rest == s@.subrange(i as int, n as int),
            forall|k: int| j <= k < n ==> is_ws(#[trigger] s@[k]),
        decreases j,
    {
        j = j - 1;
    }
    proof {
        assert forall|k: int| (j - i) <= k < rest.len() implies is_ws(#[trigger] rest[k]) by {
            assert(rest[k] == s@[k + i]);
        }
        lemma_trim_end_to(rest, j - i);
        assert(rest.subrange(0, j - i) =~= s@.subrange(i as int, j as int));
        let t = s@.subrange(i as int, j as int);
        if t.len() > 0 {
            assert(t.last() == s@[j - 1]);
        }
    }
    (i, j)
}

/// Copies a `&str` into a vector of its characters.
pub fn chars_of(s: &str) -> (v: Vec<char>)
    ensures
        v@ == s@,
{
    let mut v: Vec<char> = Vec::new();
    for c in it: s.chars()
        invariant
            v@ == it.seq().take(it.index() as int),
    {
        v.push(c);
    }
    v
}

/// `String::push`.
#[verifier::external_body]
pub(crate) fn push_char(s: &mut String, c: char)
    ensures
        final(s)@ == old(s)@.push(c),
{
    s.push(c);
}

/// Builds a `String` from characters `v[from..to]`.
pub fn string_from_range(v: &Vec<char>, from: usize, to: usize) -> (s: String)
    requires
        from <= to <= v.len(),
    ensures
        s@ == v@.subrange(from as int, to as int),
{
    let mut s = String::new();
    let mut i = from;
    while i < to
        invariant
            from <= i <= to <= v.len(),
            s@ == v@.subrange(from as int, i as int),
        decreases to - i,
    {
        push_char(&mut s, v[i]);
        i = i + 1;
        assert(s@ =~= v@.subrange(from as int, i as int));
    }
    s
}

/// Builds a `String` from a vector of characters.
pub fn string_from(v: &Vec<char>) -> (s: String)
    ensures
        s@ == v@,
{
    let s = string_from_range(v, 0, v.len());
    assert(v@.subrange(0, v.len() as int) =~= v@);
    s
}

/// `s` with whitespace trimmed at both ends.
pub fn trim_str(s: &str) -> (r: String)
    ensures
        r@ == trim(s@),
{
    let v = chars_of(s);
    let (a, b) = trim_bounds(&v);
    string_from_range(&v, a, b)
}

/// Whether `s` holds only whitespace (so `s.trim()` is empty).
pub fn is_blank(s: &str) -> (r: bool)
    ensures
        r == (trim(s@).len() == 0),
{
    let v = chars_of(s);
    let (a, b) = trim_bounds(&v);
    a == b
}


/// `p` occurs in `s` at index `i`.
pub open spec fn matches_at(s: Seq<char>, p: Seq<char>, i: int) -> bool {
    0 <= i && i + p.len() <= s.len() && s.subrange(i, i + p.len()) == p
}

/// `s` starts with `p`.
pub open spec fn starts_with(s: Seq<char>, p: Seq<char>) -> bool {
    matches_at(s, p, 0)
}

/// The first index at or after `start` where `p` occurs in `s`.
pub open spec fn find_from(s: Seq<char>, p: Seq<char>, start: int) -> Option<int>
    decreases s.len() + 1 - start,
{
    if start < 0 || start + p.len() > s.len() {
        None
    } else if matches_at(s, p, start) {
        Some(start)
    } else {
        find_from(s, p, start + 1)
    }
}

/// `p` occurs somewhere in `s`.
pub open spec fn contains(s: Seq<char>, p: Seq<char>) -> bool {
    exists|i: int| matches_at(s, p, i)
}

/// Number of occurrences of `c` in `s`.
pub open spec fn count_char(s: Seq<char>, c: char) -> nat
    decreases s.len(),
{
    if s.len() == 0 {
        0
    } else {
        count_char(s.drop_last(), c) + if s.last() == c { 1nat } else { 0nat }
    }
}

pub proof fn lemma_find_from_some(s: Seq<char>, p: Seq<char>, start: int)
    requires
        find_from(s, p, start) is Some,
    ensures
        matches_at(s, p, find_from(s, p, start)->0),
        start <= find_from(s, p, start)->0,
        forall|k: int| start <= k < find_from(s, p, start)->0 ==> !matches_at(s, p, k),
    decreases s.len() + 1 - start,
{
    if start < 0 || start + p.len() > s.len() {
    } else if matches_at(s, p, start) {
    } else {
        lemma_find_from_some(s, p, start + 1);
    }
}

pub proof fn lemma_find_from_none(s: Seq<char>, p: Seq<char>, start: int)
    requires
        0 <= start,
        find_from(s, p, start) is None,
    ensures
        forall|k: int| start <= k ==> !matches_at(s, p, k),
    decreases s.len() + 1 - start,
{
    if start + p.len() > s.len() {
    } else {
        lemma_find_from_none(s, p, start + 1);
    }
}

/// Whether `p` occurs in `s` at index `i`.
pub fn matches_at_exec(s: &Vec<char>, p: &Vec<char>, i: usize) -> (r: bool)
    ensures
        r == matches_at(s@, p@, i as int),
{
    if i > s.len() || p.len() > s.len() - i {
        return false;
    }
    let mut k: usize = 0;
    while k < p.len()
        invariant
            i + p.len() <= s.len(),
            k <= p.len(),
            forall|j: int| 0 <= j < k ==> s@[i + j] == p@[j],
        decreases p.len() - k,
    {
        if s[i + k] != p[k] {
            assert(s@.subrange(i as int, i + p.len())[k as int] != p@[k as int]);
            return false;
        }
        k = k + 1;
    }
    assert(s@.subrange(i as int, i + p.len()) =~= p@);
    true
}

/// The first occurrence of `p` in `s` at or after `start`.
pub fn find_from_exec(s: &Vec<char>, p: &Vec<char>, start: usize) -> (r: Option<usize>)
    ensures
        r == (match find_from(s@, p@, start as int) {
            Some(i) => Some(i as usize),
            None => None::<usize>,
        }),
        r is Some ==> r->0 + p.len() <= s.len(),
{
    if p.len() > s.len() || start > s.len() - p.len() {
        return None;
    }
    let last = s.len() - p.len();
    let mut i = start;
    loop
        invariant
            start <= i <= last,
            last + p.len() == s.len(),
            find_from(s@, p@, start as int) == find_from(s@, p@, i as int),
        decreases last - i,
    {
        if matches_at_exec(s, p, i) {
            return Some(i);
        }
        if i == last {
            assert(find_from(s@, p@, i + 1) is None);
            return None;
        }
        i = i + 1;
    }
}

/// Whether `p` occurs somewhere in `s`.
pub fn contains_exec(s: &Vec<char>, p: &Vec<char>) -> (r: bool)
    ensures
        r == contains(s@, p@),
{
    match find_from_exec(s, p, 0) {
        Some(i) => {
            proof {
                lemma_find_from_some(s@, p@, 0);
            }
            true
        },
        None => {
            proof {
                lemma_find_from_none(s@, p@, 0);
                assert forall|k: int| !matches_at(s@, p@, k) by {
                    if k < 0 {
                    }
                }
            }
            false
        },
    }
}

/// Number of occurrences of `c` in `s`.
pub fn count_char_exec(s: &Vec<char>, c: char) -> (r: usize)
    ensures
        r == count_char(s@, c),
{
    let mut n: usize = 0;
    let mut i: usize = 0;
    while i < s.len()
        invariant
            i <= s.len(),
            n == count_char(s@.take(i as int), c),
            n <= i,
        decreases s.len() - i,
    {
        assert(s@.take(i + 1).drop_last() =~= s@.take(i as int));
        if s[i] == c {
            n = n + 1;
        }
        i = i + 1;
    }
    assert(s@.take(s.len() as int) =~= s@);
    n
}


/// The views of a sequence of strings.
pub open spec fn views(v: Seq<String>) -> Seq<Seq<char>> {
    v.map_values(|x: String| x@)
}

/// The views after a push.
pub proof fn lemma_views_push(v: Seq<String>, s: String)
    ensures
        views(v.push(s)) == views(v).push(s@),
{
    assert(views(v.push(s)) =~= views(v).push(s@));
}

/// Copies `v[from..to]` into a new vector.
pub fn subvec(v: &Vec<char>, from: usize, to: usize) -> (r: Vec<char>)
    requires
        from <= to <= v.len(),
    ensures
        r@ == v@.subrange(from as int, to as int),
{
    let mut r: Vec<char> = Vec::new();
    let mut i = from;
    while i < to
        invariant
            from <= i <= to <= v.len(),
            r@ == v@.subrange(from as int, i as int),
        decreases to - i,
    {
        r.push(v[i]);
        i = i + 1;
        assert(r@ =~= v@.subrange(from as int, i as int));
    }
    r
}

/// The index of the first `c` at or after `i`, or `s.len()` when there is none.
pub open spec fn next_index_of(s: Seq<char>, c: char, i: int) -> int
    decreases s.len() - i,
{
    if i >= s.len() {
        s.len() as int
    } else if s[i] == c {
        i
    } else {
        next_index_of(s, c, i + 1)
    }
}

pub proof fn lemma_next_index_of(s: Seq<char>, c: char, i: int)
    requires
        0 <= i <= s.len(),
    ensures
        i <= next_index_of(s, c, i) <= s.len(),
        next_index_of(s, c, i) < s.len() ==> s[next_index_of(s, c, i)] == c,
        forall|k: int| i <= k < next_index_of(s, c, i) ==> s[k] != c,
    decreases s.len() - i,
{
    if i < s.len() && s[i] != c {
        lemma_next_index_of(s, c, i + 1);
    }
}

/// Executable form of [`next_index_of`].
pub fn next_index_of_exec(s: &Vec<char>, c: char, i: usize) -> (r: usize)
    requires
        i <= s.len(),
    ensures
        r == next_index_of(s@, c, i as int),
        i <= r <= s.len(),
{
    let mut k = i;
    while k < s.len() && s[k] != c
        invariant
            i <= k <= s.len(),
            next_index_of(s@, c, i as int) == next_index_of(s@, c, k as int),
        decreases s.len() - k,
    {
        k = k + 1;
    }
    k
}

/// The line that starts at index `i`, as `str::lines` yields it: up to the
/// next `\n`, without a `\r` that directly precedes that `\n`.
pub open spec fn line_at(s: Seq<char>, i: int) -> Seq<char> {
    let e = next_index_of(s, '\n', i);
    let l = s.subrange(i, e);
    if e < s.len() && l.len() > 0 && l.last() == '\r' {
        l.drop_last()
    } else {
        l
    }
}

/// The first line of `s` (empty when `s` is empty).
pub open spec fn first_line(s: Seq<char>) -> Seq<char> {
    line_at(s, 0)
}

/// The end of the line starting at `i` (without its `\r\n` or `\n`), and
/// the index of the `\n` that ends it (`s.len()` for the last line).
pub fn line_bounds(s: &Vec<char>, i: usize) -> (r: (usize, usize))
    requires
        i <= s.len(),
    ensures
        s@.subrange(i as int, r.0 as int) == line_at(s@, i as int),
        i <= r.0 <= r.1,
        r.1 == next_index_of(s@, '\n', i as int),
        r.1 <= s.len(),
{
    let e = next_index_of_exec(s, '\n', i);
    let end = if e < s.len() && e > i && s[e - 1] == '\r' {
        e - 1
    } else {
        e
    };
    proof {
        let l = s@.subrange(i as int, e as int);
        if e < s.len() && l.len() > 0 && l.last() == '\r' {
            assert(l.drop_last() =~= s@.subrange(i as int, end as int));
        }
    }
    (end, e)
}

/// Number of leading occurrences of `c` in `s`.
pub open spec fn leading_count(s: Seq<char>, c: char) -> nat
    decreases s.len(),
{
    if s.len() > 0 && s[0] == c {
        1 + leading_count(s.drop_first(), c)
    } else {
        0
    }
}

/// Executable form of [`leading_count`].
pub fn leading_count_exec(s: &Vec<char>, c: char) -> (r: usize)
    ensures
        r == leading_count(s@, c),
{
    let mut k: usize = 0;
    assert(s@.skip(0) =~= s@);
    while k < s.len() && s[k] == c
        invariant
            k <= s.len(),
            leading_count(s@, c) == k + leading_count(s@.skip(k as int), c),
        decreases s.len() - k,
    {
        assert(s@.skip(k as int).drop_first() =~= s@.skip(k + 1));
        k = k + 1;
    }
    k
}

/// `s` from a literal, with its characters known.
pub fn lit(s: &str) -> (r: String)
    ensures
        r@ == s@,
{
    s.to_string()
}


/// The index of the first non-whitespace character at or after `i`, or
/// `s.len()` when there is none.
pub open spec fn skip_ws(s: Seq<char>, i: int) -> int
    decreases s.len() - i,
{
    if i >= s.len() {
        s.len() as int
    } else if !is_ws(s[i]) {
        i
    } else {
        skip_ws(s, i + 1)
    }
}

/// The index of the first whitespace character at or after `i`, or
/// `s.len()` when there is none.
pub open spec fn word_end(s: Seq<char>, i: int) -> int
    decreases s.len() - i,
{
    if i >= s.len() {
        s.len() as int
    } else if is_ws(s[i]) {
        i
    } else {
        word_end(s, i + 1)
    }
}

pub proof fn lemma_skip_ws(s: Seq<char>, i: int)
    requires
        0 <= i <= s.len(),
    ensures
        i <= skip_ws(s, i) <= s.len(),
        skip_ws(s, i) < s.len() ==> !is_ws(s[skip_ws(s, i)]),
        forall|k: int| i <= k < skip_ws(s, i) ==> is_ws(#[trigger] s[k]),
    decreases s.len() - i,
{
    if i < s.len() && is_ws(s[i]) {
        lemma_skip_ws(s, i + 1);
    }
}

pub proof fn lemma_word_end(s: Seq<char>, i: int)
    requires
        0 <= i <= s.len(),
    ensures
        i <= word_end(s, i) <= s.len(),
        word_end(s, i) < s.len() ==> is_ws(s[word_end(s, i)]),
        forall|k: int| i <= k < word_end(s, i) ==> !is_ws(#[trigger] s[k]),
    decreases s.len() - i,
{
    if i < s.len() && !is_ws(s[i]) {
        lemma_word_end(s, i + 1);
    }
}

/// The whitespace-separated words of `s[i..]`, in order (what
/// `str::split_whitespace` yields).
pub open spec fn words_from(s: Seq<char>, i: int) -> Seq<Seq<char>>
    decreases s.len() - i,
{
    let j = skip_ws(s, i);
    if i < 0 || i >= s.len() || j >= s.len() {
        Seq::empty()
    } else {
        let k = word_end(s, j);
        proof {
            lemma_skip_ws(s, i);
            lemma_word_end(s, j + 1);
        }
        seq![s.subrange(j, k)] + words_from(s, k)
    }
}

/// The words of `s`.
pub open spec fn words(s: Seq<char>) -> Seq<Seq<char>> {
    words_from(s, 0)
}

/// The pieces of `ws`, with `sep` between each two.
pub open spec fn join(ws: Seq<Seq<char>>, sep: Seq<char>) -> Seq<char>
    decreases ws.len(),
{
    if ws.len() == 0 {
        Seq::empty()
    } else if ws.len() == 1 {
        ws[0]
    } else {
        join(ws.drop_last(), sep) + sep + ws.last()
    }
}

/// `s` with its words joined by single spaces.
pub open spec fn collapse_ws(s: Seq<char>) -> Seq<char> {
    join(words(s), seq![' '])
}

/// The Unicode lower-case mapping of a text, as `str::to_lowercase` computes it.
pub uninterp spec fn lowercase(s: Seq<char>) -> Seq<char>;

/// `str::to_lowercase`: the result is the lower-case mapping of `s`, a
/// function of `s` alone (it does not depend on a locale).
#[verifier::external_body]
pub(crate) fn to_lowercase(s: &str) -> (r: String)
    ensures
        r@ == lowercase(s@),
{
    s.to_lowercase()
}

/// Joins the words of `s` with single spaces, as
/// `s.split_whitespace().collect::<Vec<_>>().join(" ")` does.
pub fn collapse_whitespace(s: &str) -> (r: String)
    ensures
        r@ == collapse_ws(s@),
{
    let v = chars_of(s);
    let n = v.len();
    let mut out = String::new();
    let ghost mut acc: Seq<Seq<char>> = Seq::empty();
    let mut first = true;
    let mut i: usize = 0;
    while i < n
        invariant
            first == (acc.len() == 0),
            n == v.len(),
            v@ == s@,
            i <= n,
            out@ == join(acc, seq![' ']),
            acc + words_from(v@, i as int) == words(v@),
        decreases n - i,
    {
        let mut j = i;
        while j < n && is_whitespace(v[j])
            invariant
                i <= j <= n == v.len(),
                skip_ws(v@, i as int) == skip_ws(v@, j as int),
            decreases n - j,
        {
            j = j + 1;
        }
        if j == n {
            proof {
                assert(words_from(v@, i as int) =~= Seq::<Seq<char>>::empty());
                assert(words_from(v@, n as int) =~= Seq::<Seq<char>>::empty());
            }
            i = n;
        } else {
            let mut k = j;
            while k < n && !is_whitespace(v[k])
                invariant
                    j <= k <= n == v.len(),
                    word_end(v@, j as int) == word_end(v@, k as int),
                decreases n - k,
            {
                k = k + 1;
            }
            let ghost word = v@.subrange(j as int, k as int);
            proof {
                assert(words_from(v@, i as int) == seq![word] + words_from(v@, k as int));
            }
            if !first {
                push_char(&mut out, ' ');
            }
            first = false;
            let w = string_from_range(&v, j, k);
            out.append(w.as_str());
            proof {
                let acc2 = acc.push(word);
                if acc.len() > 0 {
                    assert(acc2.drop_last() =~= acc);
                    assert(out@ =~= join(acc2, seq![' ']));
                } else {
                    assert(out@ =~= join(acc2, seq![' ']));
                }
                assert(acc2 + words_from(v@, k as int) =~= acc + (seq![word] + words_from(v@, k as int)));
                acc = acc2;
            }
            i = k;
        }
    }
    proof {
        assert(words_from(v@, n as int) =~= Seq::<Seq<char>>::empty());
        assert(acc =~= words(v@));
    }
    out
}

/// Whether `v` holds a string equal to `s`.
pub fn contains_string(v: &Vec<String>, s: &String) -> (r: bool)
    ensures
        r == views(v@).contains(s@),
{
    let mut i: usize = 0;
    while i < v.len()
        invariant
            i <= v.len(),
            forall|k: int| 0 <= k < i ==> v@[k]@ != s@,
        decreases v.len() - i,
    {
        if v[i] == *s {
            assert(views(v@)[i as int] == s@);
            return true;
        }
        i = i + 1;
    }
    proof {
        if views(v@).contains(s@) {
            let k = choose|k: int| 0 <= k < views(v@).len() && views(v@)[k] == s@;
            assert(v@[k]@ == s@);
        }
    }
    false
}

/// The strings of `v` with `sep` between each two.
pub fn join_strings(v: &Vec<String>, sep: &str) -> (r: String)
    ensures
        r@ == join(views(v@), sep@),
{
    let mut out = String::new();
    let mut i: usize = 0;
    while i < v.len()
        invariant
            i <= v.len(),
            out@ == join(views(v@).take(i as int), sep@),
        decreases v.len() - i,
    {
        if i > 0 {
            out.append(sep);
        }
        out.append(v[i].as_str());
        proof {
            let t = views(v@).take(i + 1);
            assert(t.drop_last() =~= views(v@).take(i as int));
            assert(t.last() == v@[i as int]@);
        }
        i = i + 1;
    }
    assert(views(v@).take(v.len() as int) =~= views(v@));
    out
}

/// The decimal digits of `n`.
pub open spec fn decimal(n: nat) -> Seq<char>
    decreases n,
{
    if n < 10 {
        seq![(48 + n) as char]
    } else {
        decimal(n / 10).push((48 + n % 10) as char)
    }
}

/// Decimal digits exist, and a number of two digits or more has at least
/// two.
pub proof fn lemma_decimal_len(n: nat)
    ensures
        decimal(n).len() >= 1,
        n >= 10 ==> decimal(n).len() >= 2,
    decreases n,
{
    if n >= 10 {
        lemma_decimal_len(n / 10);
    }
}

/// Distinct numbers have distinct decimal digits.
pub proof fn lemma_decimal_injective(a: nat, b: nat)
    requires
        decimal(a) == decimal(b),
    ensures
        a == b,
    decreases a,
{
    lemma_decimal_len(a);
    lemma_decimal_len(b);
    if a < 10 && b < 10 {
        assert(decimal(a)[0] == decimal(b)[0]);
        assert(decimal(a)[0] == (48 + a) as char);
        assert(decimal(b)[0] == (48 + b) as char);
        assert(((48 + a) as char) as int == 48 + a);
        assert(((48 + b) as char) as int == 48 + b);
        assert(a == b);
    } else if a >= 10 && b >= 10 {
        let da = decimal(a);
        let db = decimal(b);
        assert(da.last() == db.last());
        assert(((48 + a % 10) as char) as int == 48 + a % 10);
        assert(((48 + b % 10) as char) as int == 48 + b % 10);
        assert(da.drop_last() =~= decimal(a / 10));
        assert(db.drop_last() =~= decimal(b / 10));
        lemma_decimal_injective(a / 10, b / 10);
        assert(a == 10 * (a / 10) + a % 10);
        assert(b == 10 * (b / 10) + b % 10);
        assert(a % 10 == b % 10);
        assert(a == b);
    } else if a < 10 {
        assert(decimal(a).len() == 1);
    } else {
        assert(decimal(b).len() == 1);
    }
}

/// `n` in decimal, as `format!("{}", n)` writes it.
pub fn usize_to_string(n: usize) -> (r: String)
    ensures
        r@ == decimal(n as nat),
    decreases n,
{
    if n < 10 {
        let mut s = String::new();
        push_char(&mut s, ((48 + n) as u8) as char);
        assert(s@ =~= decimal(n as nat));
        s
    } else {
        let mut s = usize_to_string(n / 10);
        push_char(&mut s, ((48 + n % 10) as u8) as char);
        assert(s@ =~= decimal(n as nat));
        s
    }
}

/// `n` in decimal.
pub fn u64_to_string(n: u64) -> (r: String)
    ensures
        r@ == decimal(n as nat),
    decreases n,
{
    if n < 10 {
        let mut s = String::new();
        push_char(&mut s, ((48 + n) as u8) as char);
        assert(s@ =~= decimal(n as nat));
        s
    } else {
        let mut s = u64_to_string(n / 10);
        push_char(&mut s, ((48 + n % 10) as u8) as char);
        assert(s@ =~= decimal(n as nat));
        s
    }
}

/// `r` before each character of `s` and once more at its end, as
/// `str::replace` does for an empty pattern.
pub open spec fn interleave(s: Seq<char>, r: Seq<char>) -> Seq<char>
    decreases s.len(),
{
    if s.len() == 0 {
        r
    } else {
        r + seq![s[0]] + interleave(s.drop_first(), r)
    }
}

/// `s` with each occurrence of `p` (scanning left to right, without
/// overlaps) replaced by `r`, as `str::replace` does; an empty `p` matches
/// before each character and at the end.
pub open spec fn replace_all(s: Seq<char>, p: Seq<char>, r: Seq<char>) -> Seq<char>
    decreases s.len(),
{
    if p.len() == 0 {
        interleave(s, r)
    } else if s.len() == 0 {
        s
    } else if matches_at(s, p, 0) {
        r + replace_all(s.skip(p.len() as int), p, r)
    } else {
        seq![s[0]] + replace_all(s.drop_first(), p, r)
    }
}

/// `str::replace`.
pub fn replace_str(s: &str, p: &str, r: &str) -> (out: String)
    ensures
        out@ == replace_all(s@, p@, r@),
{
    let v = chars_of(s);
    let pv = chars_of(p);
    let n = v.len();
    if pv.len() == 0 {
        let mut out = String::new();
        let mut i: usize = 0;
        assert(v@.skip(0) =~= v@);
        while i < n
            invariant
                n == v.len(),
                i <= n,
                out@ + interleave(v@.skip(i as int), r@) == interleave(v@, r@),
            decreases n - i,
        {
            let ghost before = out@;
            proof {
                assert(v@.skip(i as int).drop_first() =~= v@.skip(i + 1));
            }
            out.append(r);
            push_char(&mut out, v[i]);
            assert(out@ + interleave(v@.skip(i + 1), r@) =~= before + interleave(v@.skip(i as int), r@));
            i = i + 1;
        }
        assert(v@.skip(n as int) =~= Seq::<char>::empty());
        out.append(r);
        assert(out@ =~= interleave(v@, r@));
        return out;
    }
    let mut out = String::new();
    let mut i: usize = 0;
    assert(v@.skip(0) =~= v@);
    while i < n
        invariant
            n == v.len(),
            pv@ == p@,
            pv@.len() > 0,
            i <= n,
            out@ + replace_all(v@.skip(i as int), p@, r@) == replace_all(v@, p@, r@),
        decreases n - i,
    {
        let ghost rest = v@.skip(i as int);
        if matches_at_exec(&v, &pv, i) {
            proof {
                assert(rest.subrange(0, p@.len() as int) =~= v@.subrange(i as int, i + p@.len()));
                assert(matches_at(rest, p@, 0));
                assert(rest.skip(p@.len() as int) =~= v@.skip(i + pv.len()));
            }
            let ghost before = out@;
            out.append(r);
            assert(out@ + replace_all(v@.skip(i + pv.len()), p@, r@) =~= before + replace_all(rest, p@, r@));
            i = i + pv.len();
        } else {
            proof {
                if matches_at(rest, p@, 0) {
                    assert(rest.subrange(0, p@.len() as int) =~= v@.subrange(i as int, i + p@.len()));
                    assert(matches_at(v@, p@, i as int));
                }
                assert(rest.drop_first() =~= v@.skip(i + 1));
            }
            let ghost before = out@;
            push_char(&mut out, v[i]);
            assert(out@ + replace_all(v@.skip(i + 1), p@, r@) =~= before + replace_all(rest, p@, r@));
            i = i + 1;
        }
    }
    assert(v@.skip(n as int) =~= Seq::<char>::empty());
    assert(out@ =~= replace_all(v@, p@, r@));
    out
}


/// `s` cut to its first `max` characters followed by `...` when it is
/// longer than that, else `s`.
pub open spec fn preview_of(s: Seq<char>, max: nat) -> Seq<char> {
    if s.len() > max {
        s.take(max as int) + "..."@
    } else {
        s
    }
}

/// A preview of `s` of at most `max` characters and an ellipsis.
pub fn preview(s: &str, max: usize) -> (r: String)
    ensures
        r@ == preview_of(s@, max as nat),
{
    let v = chars_of(s);
    if v.len() > max {
        let mut r = string_from_range(&v, 0, max);
        r.append("...");
        r
    } else {
        lit(s)
    }
}

} // verus!
