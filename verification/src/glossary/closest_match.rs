//! Fuzzy lookup of the glossary term closest to a piece of text, by the
//! number of character n-grams that the two share (case-insensitively).

use vstd::prelude::*;

use crate::strmap::chars_eq;
use crate::text::{all_ws, chars_of, is_whitespace, lowercase, to_lowercase};

verus! {

/// The character views of a sequence of character vectors.
pub open spec fn vviews(v: Seq<Vec<char>>) -> Seq<Seq<char>> {
    v.map_values(|x: Vec<char>| x@)
}

/// The windows of length `n` of `s` that start before `m` and are not all
/// whitespace, in order of their start.
pub open spec fn windows_upto(s: Seq<char>, n: int, m: int) -> Seq<Seq<char>>
    decreases m,
{
    if m <= 0 {
        Seq::empty()
    } else {
        let w = s.subrange(m - 1, m - 1 + n);
        if all_ws(w) {
            windows_upto(s, n, m - 1)
        } else {
            windows_upto(s, n, m - 1).push(w)
        }
    }
}

/// The n-grams of length `n` of `s` that are not all whitespace.
pub open spec fn windows(s: Seq<char>, n: int) -> Seq<Seq<char>> {
    if s.len() < n {
        Seq::empty()
    } else {
        windows_upto(s, n, s.len() - n + 1)
    }
}

/// The n-grams of `s` for each size in `sizes`, size by size.
pub open spec fn ngrams(s: Seq<char>, sizes: Seq<usize>) -> Seq<Seq<char>>
    decreases sizes.len(),
{
    if sizes.len() == 0 {
        Seq::empty()
    } else {
        ngrams(s, sizes.drop_last()) + windows(s, sizes.last() as int)
    }
}

/// How often `x` occurs in `s`.
pub open spec fn count_in(s: Seq<Seq<char>>, x: Seq<char>) -> nat
    decreases s.len(),
{
    if s.len() == 0 {
        0
    } else {
        count_in(s.drop_last(), x) + if s.last() == x {
            1nat
        } else {
            0nat
        }
    }
}

/// The number of pairs of equal n-grams, one from `q` and one from `t`.
pub open spec fn shared(t: Seq<Seq<char>>, q: Seq<Seq<char>>) -> nat
    decreases q.len(),
{
    if q.len() == 0 {
        0
    } else {
        shared(t, q.drop_last()) + count_in(t, q.last())
    }
}

/// The score of term `i` of `terms` against `query`: the n-grams they share
/// after both are lower-cased.
pub open spec fn score(terms: Seq<Seq<char>>, sizes: Seq<usize>, query: Seq<char>, i: int) -> nat {
    shared(ngrams(lowercase(terms[i]), sizes), ngrams(lowercase(query), sizes))
}

/// The first index below `m` with the highest score (`m >= 1`).
pub open spec fn best_upto(terms: Seq<Seq<char>>, sizes: Seq<usize>, query: Seq<char>, m: int) -> int
    decreases m,
{
    if m <= 1 {
        0
    } else {
        let b = best_upto(terms, sizes, query, m - 1);
        if score(terms, sizes, query, m - 1) > score(terms, sizes, query, b) {
            m - 1
        } else {
            b
        }
    }
}

/// The index of the term closest to `query`: the first of those with the
/// highest score, when that score is positive.
pub open spec fn closest_index(terms: Seq<Seq<char>>, sizes: Seq<usize>, query: Seq<char>) -> Option<int> {
    if terms.len() == 0 {
        None
    } else {
        let b = best_upto(terms, sizes, query, terms.len() as int);
        if score(terms, sizes, query, b) == 0 {
            None
        } else {
            Some(b)
        }
    }
}

pub proof fn lemma_best_upto(terms: Seq<Seq<char>>, sizes: Seq<usize>, query: Seq<char>, m: int)
    requires
        1 <= m,
    ensures
        0 <= best_upto(terms, sizes, query, m) < m,
        forall|k: int| 0 <= k < m ==> #[trigger] score(terms, sizes, query, k) <= score(terms, sizes, query, best_upto(terms, sizes, query, m)),
        forall|k: int| 0 <= k < best_upto(terms, sizes, query, m) ==> #[trigger] score(terms, sizes, query, k) < score(terms, sizes, query, best_upto(terms, sizes, query, m)),
    decreases m,
{
    if m > 1 {
        lemma_best_upto(terms, sizes, query, m - 1);
    }
}

pub proof fn lemma_windows_of_empty(s: Seq<char>, m: int)
    requires
        m <= s.len() + 1,
    ensures
        windows_upto(s, 0, m) == Seq::<Seq<char>>::empty(),
    decreases m,
{
    if m > 0 {
        lemma_windows_of_empty(s, m - 1);
        assert(s.subrange(m - 1, m - 1).len() == 0);
    }
}

/// Whether every character of `v` is whitespace.
pub fn all_whitespace(v: &Vec<char>) -> (r: bool)
    ensures
        r == all_ws(v@),
{
    let mut i: usize = 0;
    while i < v.len()
        invariant
            i <= v.len(),
            forall|k: int| 0 <= k < i ==> crate::text::is_ws(#[trigger] v@[k]),
        decreases v.len() - i,
    {
        if !is_whitespace(v[i]) {
            return false;
        }
        i = i + 1;
    }
    true
}

fn window(s: &Vec<char>, from: usize, n: usize) -> (r: Vec<char>)
    requires
        from + n <= s.len(),
    ensures
        r@ == s@.subrange(from as int, from + n),
{
    crate::text::subvec(s, from, from + n)
}

/// The n-grams of `s` for the given sizes.
pub fn build_ngrams(s: &Vec<char>, sizes: &Vec<usize>) -> (r: Vec<Vec<char>>)
    ensures
        vviews(r@) == ngrams(s@, sizes@),
{
    let mut r: Vec<Vec<char>> = Vec::new();
    let mut si: usize = 0;
    while si < sizes.len()
        invariant
            si <= sizes.len(),
            vviews(r@) == ngrams(s@, sizes@.take(si as int)),
        decreases sizes.len() - si,
    {
        let n = sizes[si];
        let ghost before = vviews(r@);
        if n == 0 {
            proof {
                lemma_windows_of_empty(s@, (s.len() + 1) as int);
                assert(vviews(r@) =~= before + windows(s@, n as int));
            }
        } else if n <= s.len() {
            let count = s.len() - n + 1;
            let mut m: usize = 0;
            while m < count
                invariant
                    n <= s.len(),
                    count == s.len() - n + 1,
                    m <= count,
                    vviews(r@) == before + windows_upto(s@, n as int, m as int),
                decreases count - m,
            {
                let w = window(s, m, n);
                let ghost old_r = r@;
                if !all_whitespace(&w) {
                    r.push(w);
                    assert(vviews(r@) =~= vviews(old_r).push(w@));
                    assert(vviews(r@) =~= before + windows_upto(s@, n as int, m + 1));
                } else {
                    assert(vviews(r@) =~= before + windows_upto(s@, n as int, m + 1));
                }
                m = m + 1;
            }
        } else {
            assert(vviews(r@) =~= before + windows(s@, n as int));
        }
        proof {
            assert(sizes@.take(si + 1).drop_last() =~= sizes@.take(si as int));
        }
        si = si + 1;
    }
    assert(sizes@.take(sizes.len() as int) =~= sizes@);
    r
}

/// How often `x` occurs in `t`.
fn count_occurrences(t: &Vec<Vec<char>>, x: &Vec<char>) -> (r: usize)
    ensures
        r == count_in(vviews(t@), x@),
        r <= t.len(),
{
    let mut c: usize = 0;
    let mut i: usize = 0;
    while i < t.len()
        invariant
            i <= t.len(),
            c <= i,
            c == count_in(vviews(t@).take(i as int), x@),
        decreases t.len() - i,
    {
        assert(vviews(t@).take(i + 1).drop_last() =~= vviews(t@).take(i as int));
        if chars_eq(&t[i], x) {
            c = c + 1;
        }
        i = i + 1;
    }
    assert(vviews(t@).take(t.len() as int) =~= vviews(t@));
    c
}

/// The n-grams shared by `t` and `q`.
fn shared_count(t: &Vec<Vec<char>>, q: &Vec<Vec<char>>) -> (r: u128)
    ensures
        r == shared(vviews(t@), vviews(q@)),
{
    let mut total: u128 = 0;
    let mut j: usize = 0;
    while j < q.len()
        invariant
            j <= q.len(),
            total == shared(vviews(t@), vviews(q@).take(j as int)),
            total <= j * t.len(),
        decreases q.len() - j,
    {
        let c = count_occurrences(t, &q[j]);
        assert(vviews(q@).take(j + 1).drop_last() =~= vviews(q@).take(j as int));
        assert(total + c <= (j + 1) * t.len()) by (nonlinear_arith)
            requires
                total <= j * t.len(),
                c <= t.len(),
        ;
        assert((j + 1) * t.len() < 0xffff_ffff_ffff_ffff_ffff_ffff_ffff_ffffu128) by (nonlinear_arith)
            requires
                j + 1 <= 0xffff_ffff_ffff_ffffu64,
                t.len() <= 0xffff_ffff_ffff_ffffu64,
        ;
        total = total + c as u128;
        j = j + 1;
    }
    assert(vviews(q@).take(q.len() as int) =~= vviews(q@));
    total
}

/// The views of a sequence of string slices.
pub open spec fn strs_view(v: Seq<&str>) -> Seq<Seq<char>> {
    v.map_values(|x: &str| x@)
}

fn copy_sizes(s: &[usize]) -> (r: Vec<usize>)
    ensures
        r@ == s@,
{
    let mut r: Vec<usize> = Vec::new();
    let mut i: usize = 0;
    while i < s.len()
        invariant
            i <= s.len(),
            r@ == s@.take(i as int),
        decreases s.len() - i,
    {
        r.push(s[i]);
        i = i + 1;
        assert(r@ =~= s@.take(i as int));
    }
    assert(s@.take(s.len() as int) =~= s@);
    r
}

/// A matcher over a fixed list of terms.
pub struct ClosestMatch {
    original_terms: Vec<String>,
    term_ngrams: Vec<Vec<Vec<char>>>,
    bag_sizes: Vec<usize>,
}

impl ClosestMatch {
    /// The terms, in the order they were given.
    pub closed spec fn terms(&self) -> Seq<Seq<char>> {
        crate::text::views(self.original_terms@)
    }

    /// The n-gram sizes.
    pub closed spec fn sizes(&self) -> Seq<usize> {
        self.bag_sizes@
    }

    /// Each term's n-grams are those of its lower-case form.
    #[verifier::type_invariant]
    pub closed spec fn wf(&self) -> bool {
        &&& self.term_ngrams@.len() == self.original_terms@.len()
        &&& forall|i: int|
            0 <= i < self.original_terms@.len() ==> vviews(#[trigger] self.term_ngrams@[i]@) == ngrams(
                lowercase(self.original_terms@[i]@),
                self.bag_sizes@,
            )
    }

    /// A matcher over `terms`, comparing n-grams of the given sizes.
    pub fn new(terms: &[&str], bag_sizes: &[usize]) -> (m: Self)
        ensures
            m.terms() == strs_view(terms@),
            m.sizes() == bag_sizes@,
    {
        let sizes = copy_sizes(bag_sizes);
        let mut original: Vec<String> = Vec::new();
        let mut grams: Vec<Vec<Vec<char>>> = Vec::new();
        let mut i: usize = 0;
        while i < terms.len()
            invariant
                i <= terms.len(),
                original@.len() == i,
                grams@.len() == i,
                forall|k: int| 0 <= k < i ==> #[trigger] original@[k]@ == terms@[k]@,
                forall|k: int|
                    0 <= k < i ==> vviews(#[trigger] grams@[k]@) == ngrams(lowercase(terms@[k]@), bag_sizes@),
                sizes@ == bag_sizes@,
            decreases terms.len() - i,
        {
            let lowered = to_lowercase(terms[i]);
            let lv = chars_of(lowered.as_str());
            let g = build_ngrams(&lv, &sizes);
            original.push(crate::text::lit(terms[i]));
            grams.push(g);
            i = i + 1;
        }
        let m = ClosestMatch { original_terms: original, term_ngrams: grams, bag_sizes: sizes };
        assert(m.terms() =~= strs_view(terms@));
        m
    }

    /// The position of the term closest to `query` (the first of the best
    /// when several tie), or `None` when there are no terms or none shares an
    /// n-gram with it.
    pub fn closest_position(&self, query: &str) -> (r: Option<usize>)
        ensures
            match closest_index(self.terms(), self.sizes(), query@) {
                Some(i) => 0 <= i < self.terms().len() && r.is_some() && r.unwrap() as int == i,
                None => r.is_none(),
            },
    {
        proof {
            use_type_invariant(self);
        }
        if self.original_terms.len() == 0 {
            return None;
        }
        let lowered = to_lowercase(query);
        let lq = chars_of(lowered.as_str());
        let q = build_ngrams(&lq, &self.bag_sizes);
        let ghost terms = self.terms();
        let ghost sizes = self.sizes();
        let mut best: usize = 0;
        let mut best_score: u128 = shared_count(&self.term_ngrams[0], &q);
        assert(terms[0] == self.original_terms@[0]@);
        let mut i: usize = 1;
        while i < self.original_terms.len()
            invariant
                1 <= i <= self.original_terms.len(),
                terms == self.terms(),
                sizes == self.sizes(),
                self.wf(),
                vviews(q@) == ngrams(lowercase(query@), sizes),
                best == best_upto(terms, sizes, query@, i as int),
                best_score == score(terms, sizes, query@, best as int),
            decreases self.original_terms.len() - i,
        {
            let s = shared_count(&self.term_ngrams[i], &q);
            assert(terms[i as int] == self.original_terms@[i as int]@);
            if s > best_score {
                best = i;
                best_score = s;
            }
            i = i + 1;
        }
        proof {
            lemma_best_upto(terms, sizes, query@, terms.len() as int);
        }
        if best_score == 0 {
            None
        } else {
            Some(best)
        }
    }

    /// The term closest to `query`, as [`Self::closest_position`] finds it.
    pub fn closest(&self, query: &str) -> (r: Option<&str>)
        ensures
            match closest_index(self.terms(), self.sizes(), query@) {
                Some(i) => r.is_some() && r.unwrap()@ == self.terms()[i],
                None => r.is_none(),
            },
    {
        proof {
            use_type_invariant(self);
        }
        assert(self.terms().len() == self.original_terms@.len());
        let ghost ci = closest_index(self.terms(), self.sizes(), query@);
        match self.closest_position(query) {
            Some(i) => {
                assert(ci.is_some());
                assert(ci.unwrap() == i as int);
                assert(self.terms()[i as int] == self.original_terms@[i as int]@);
                Some(self.original_terms[i].as_str())
            },
            None => None,
        }
    }

    pub fn len(&self) -> (r: usize)
        ensures
            r == self.terms().len(),
    {
        self.original_terms.len()
    }

    pub fn is_empty(&self) -> (r: bool)
        ensures
            r == (self.terms().len() == 0),
    {
        self.original_terms.len() == 0
    }
}

} // verus!
