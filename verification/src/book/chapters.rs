//! Which files of a book's `raw` directory are chapters, and the order in
//! which they are read: by the first number in the file stem, numbered
//! files first, the others by name.

use vstd::prelude::*;

use crate::book::paths::{extract_number, last_index, last_index_of, lemma_last_index, number_in};
use crate::strmap::{chars_lt, lemma_seq_lt_irreflexive, lemma_seq_lt_total, lemma_seq_lt_transitive, seq_lt};
use crate::text::{chars_of, lemma_views_push, string_from, subvec, views};

verus! {

/// A file name has the extension `md`: the part after its last `.`, when
/// that `.` is not the name's first character.
pub open spec fn is_markdown_name(name: Seq<char>) -> bool {
    match last_index(name, '.') {
        Some(i) => i > 0 && name.subrange(i + 1, name.len() as int) == "md"@,
        None => false,
    }
}

/// A file name's stem: the part before its last `.`, when that `.` is not
/// the name's first character; else the whole name.
pub open spec fn stem_of(name: Seq<char>) -> Seq<char> {
    match last_index(name, '.') {
        Some(i) => if i > 0 {
            name.subrange(0, i)
        } else {
            name
        },
        None => name,
    }
}

/// `a` is read no later than `b`: numbered stems by their number and
/// before unnumbered ones, unnumbered stems by name.
pub open spec fn chapter_le(a: Seq<char>, b: Seq<char>) -> bool {
    let sa = stem_of(a);
    let sb = stem_of(b);
    match (number_in(sa), number_in(sb)) {
        (Some(x), Some(y)) => x <= y,
        (Some(_), None) => true,
        (None, Some(_)) => false,
        (None, None) => !seq_lt(sb, sa),
    }
}

/// The names are in reading order.
pub open spec fn in_reading_order(s: Seq<Seq<char>>) -> bool {
    forall|i: int, j: int| 0 <= i < j < s.len() ==> chapter_le(#[trigger] s[i], #[trigger] s[j])
}

/// Chapter files are the markdown files.
pub open spec fn markdown_pred() -> spec_fn(Seq<char>) -> bool {
    |n: Seq<char>| is_markdown_name(n)
}

/// Any two names are ordered one way or the other.
pub proof fn lemma_chapter_le_total(a: Seq<char>, b: Seq<char>)
    ensures
        chapter_le(a, b) || chapter_le(b, a),
{
    let (sa, sb) = (stem_of(a), stem_of(b));
    if seq_lt(sa, sb) && seq_lt(sb, sa) {
        lemma_seq_lt_transitive(sa, sb, sa);
        lemma_seq_lt_irreflexive(sa);
    }
}

/// Reading order is transitive.
pub proof fn lemma_chapter_le_transitive(a: Seq<char>, b: Seq<char>, c: Seq<char>)
    requires
        chapter_le(a, b),
        chapter_le(b, c),
    ensures
        chapter_le(a, c),
{
    let (sa, sb, sc) = (stem_of(a), stem_of(b), stem_of(c));
    if number_in(sa).is_none() && number_in(sb).is_none() && number_in(sc).is_none() {
        if seq_lt(sc, sa) {
            lemma_seq_lt_total(sa, sb);
            if seq_lt(sa, sb) {
                lemma_seq_lt_transitive(sc, sa, sb);
            }
        }
    }
}

/// Whether `name` is a markdown file name.
pub fn is_markdown_file(name: &str) -> (r: bool)
    ensures
        r == is_markdown_name(name@),
{
    let v = chars_of(name);
    proof {
        lemma_last_index(v@, '.');
        reveal_strlit("md");
    }
    match last_index_of(&v, '.') {
        Some(i) => {
            if i == 0 {
                return false;
            }
            let n = v.len();
            let r = n - i == 3 && v[i + 1] == 'm' && v[i + 2] == 'd';
            proof {
                if r {
                    assert(v@.subrange(i + 1, n as int) =~= "md"@);
                } else if i + 3 == n {
                    assert(v@.subrange(i + 1, n as int)[0] == v@[i + 1]);
                    assert(v@.subrange(i + 1, n as int)[1] == v@[i + 2]);
                } else {
                    assert(v@.subrange(i + 1, n as int).len() != "md"@.len());
                }
            }
            r
        },
        None => false,
    }
}

/// The stem of a file name.
pub fn file_stem(name: &str) -> (r: String)
    ensures
        r@ == stem_of(name@),
{
    let v = chars_of(name);
    proof {
        lemma_last_index(v@, '.');
    }
    match last_index_of(&v, '.') {
        Some(i) => {
            if i > 0 {
                let s = subvec(&v, 0, i);
                string_from(&s)
            } else {
                string_from(&v)
            }
        },
        None => string_from(&v),
    }
}

/// Whether `a` is read no later than `b`.
pub fn chapter_le_exec(a: &str, b: &str) -> (r: bool)
    ensures
        r == chapter_le(a@, b@),
{
    let sa = file_stem(a);
    let sb = file_stem(b);
    match (extract_number(sa.as_str()), extract_number(sb.as_str())) {
        (Some(x), Some(y)) => x <= y,
        (Some(_), None) => true,
        (None, Some(_)) => false,
        (None, None) => {
            let va = chars_of(sa.as_str());
            let vb = chars_of(sb.as_str());
            !chars_lt(&vb, &va)
        },
    }
}

/// The views of `s` with `x` inserted at `j`.
proof fn lemma_views_insert(s: Seq<String>, j: int, x: String)
    requires
        0 <= j <= s.len(),
    ensures
        views(s.insert(j, x)) == views(s).insert(j, x@),
{
    assert(views(s.insert(j, x)) =~= views(s).insert(j, x@));
}

/// Inserting `x` after every name read no later than it, and before the
/// rest, keeps the names in reading order.
proof fn lemma_insert_in_order(s: Seq<Seq<char>>, j: int, x: Seq<char>)
    requires
        0 <= j <= s.len(),
        in_reading_order(s),
        forall|k: int| 0 <= k < j ==> chapter_le(#[trigger] s[k], x),
        j < s.len() ==> !chapter_le(s[j], x),
    ensures
        in_reading_order(s.insert(j, x)),
{
    assert forall|k: int| j <= k < s.len() implies chapter_le(x, #[trigger] s[k]) by {
        if chapter_le(s[k], x) {
            if k > j {
                lemma_chapter_le_transitive(s[j], s[k], x);
            }
        }
        lemma_chapter_le_total(x, s[k]);
    }
    let t = s.insert(j, x);
    assert forall|a: int, b: int| 0 <= a < b < t.len() implies chapter_le(#[trigger] t[a], #[trigger] t[b]) by {
        if a < j && b == j {
        } else if a < j && b > j {
            assert(t[b] == s[b - 1]);
        } else if a == j {
            assert(t[b] == s[b - 1]);
        } else if a > j {
            assert(t[a] == s[a - 1]);
            assert(t[b] == s[b - 1]);
        } else {
            assert(t[a] == s[a]);
            assert(t[b] == s[b]);
        }
    }
}

/// The names read at the same point as `x`: those that are read no later
/// than `x` and no earlier.
pub open spec fn same_place(x: Seq<char>) -> spec_fn(Seq<char>) -> bool {
    |y: Seq<char>| chapter_le(x, y) && chapter_le(y, x)
}

/// Inserting `v` after every name read no later than it keeps, for each
/// point of reading order, the names at that point in their order, with `v`
/// last among its own.
proof fn lemma_insert_keeps_ties(s: Seq<Seq<char>>, j: int, v: Seq<char>, x: Seq<char>)
    requires
        0 <= j <= s.len(),
        in_reading_order(s),
        forall|k: int| 0 <= k < j ==> chapter_le(#[trigger] s[k], v),
        j < s.len() ==> !chapter_le(s[j], v),
    ensures
        s.insert(j, v).filter(same_place(x)) == if same_place(x)(v) {
            s.filter(same_place(x)).push(v)
        } else {
            s.filter(same_place(x))
        },
{
    let p = same_place(x);
    let a = s.take(j);
    let b = s.skip(j);
    assert(s =~= a + b);
    assert(s.insert(j, v) =~= a.push(v) + b);
    Seq::filter_distributes_over_add(a, b, p);
    Seq::filter_distributes_over_add(a.push(v), b, p);
    a.lemma_filter_push(v, p);
    if p(v) {
        assert forall|k: int| 0 <= k < b.len() implies !p(#[trigger] b[k]) by {
            assert(b[k] == s[j + k]);
            if p(b[k]) {
                lemma_chapter_le_transitive(b[k], x, v);
                if k > 0 {
                    assert(chapter_le(s[j], s[j + k]));
                    lemma_chapter_le_transitive(s[j], s[j + k], v);
                }
            }
        }
        assert(b.all(|y: Seq<char>| !p(y)));
        b.lemma_all_neg_filter_empty(p);
        assert(b.filter(p) =~= Seq::<Seq<char>>::empty());
        assert(a.filter(p) + b.filter(p) =~= a.filter(p));
        assert(a.filter(p).push(v) + b.filter(p) =~= a.filter(p).push(v));
    }
}

/// The chapter files among a directory's file names, in reading order.
pub fn order_chapter_files(names: Vec<String>) -> (r: Vec<String>)
    ensures
        views(r@).to_multiset() == views(names@).filter(markdown_pred()).to_multiset(),
        in_reading_order(views(r@)),
        forall|x: Seq<char>|
            #[trigger] views(r@).filter(same_place(x)) == views(names@).filter(markdown_pred()).filter(same_place(x)),
{
    let mut result: Vec<String> = Vec::new();
    let mut i: usize = 0;
    let ghost pred = markdown_pred();
    assert(views(names@.take(0)).filter(pred) =~= Seq::<Seq<char>>::empty());
    assert(views(result@) =~= Seq::<Seq<char>>::empty());
    while i < names.len()
        invariant
            i <= names.len(),
            pred == markdown_pred(),
            views(result@).to_multiset() == views(names@.take(i as int)).filter(pred).to_multiset(),
            in_reading_order(views(result@)),
            forall|x: Seq<char>|
                #[trigger] views(result@).filter(same_place(x)) == views(names@.take(i as int)).filter(pred).filter(
                    same_place(x),
                ),
        decreases names.len() - i,
    {
        let name = &names[i];
        proof {
            assert(names@.take(i + 1) =~= names@.take(i as int).push(names@[i as int]));
            lemma_views_push(names@.take(i as int), names@[i as int]);
            views(names@.take(i as int)).lemma_filter_push(names@[i as int]@, pred);
        }
        if is_markdown_file(name.as_str()) {
            let mut j: usize = 0;
            while j < result.len() && chapter_le_exec(result[j].as_str(), name.as_str())
                invariant
                    j <= result.len(),
                    forall|k: int| 0 <= k < j ==> chapter_le(#[trigger] views(result@)[k], name@),
                decreases result.len() - j,
            {
                j = j + 1;
            }
            let ghost before = result@;
            proof {
                lemma_insert_in_order(views(before), j as int, name@);
                assert forall|x: Seq<char>|
                    #[trigger] views(before).insert(j as int, name@).filter(same_place(x)) == views(names@.take(
                        i + 1,
                    )).filter(pred).filter(same_place(x)) by {
                    lemma_insert_keeps_ties(views(before), j as int, name@, x);
                    views(names@.take(i as int)).filter(pred).lemma_filter_push(name@, same_place(x));
                }
            }
            let copy = name.clone();
            result.insert(j, copy);
            proof {
                lemma_views_insert(before, j as int, copy);
                assert(views(result@) == views(before).insert(j as int, name@));
                vstd::seq_lib::to_multiset_insert(views(before), j as int, name@);
                vstd::seq_lib::to_multiset_build(views(names@.take(i as int)).filter(pred), name@);
            }
        }
        i = i + 1;
    }
    assert(names@.take(names.len() as int) =~= names@);
    result
}

} // verus!
