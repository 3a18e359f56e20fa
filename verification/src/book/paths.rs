//! Where a book keeps its files, and the paths of chapter outputs and
//! chapter state.

use vstd::prelude::*;

use crate::error::Error;
use crate::state::{normalize_chapter_path, normalized_chapter_path};
use crate::text::{lemma_next_index_of, lit, next_index_of};

verus! {

/// `b` appended to the path `a`, as `Path::join` does for a relative `b`.
pub open spec fn path_join(a: Seq<char>, b: Seq<char>) -> Seq<char> {
    if a.len() == 0 {
        b
    } else if a.last() == '/' {
        a + b
    } else {
        a + "/"@ + b
    }
}

/// `Path::join` with a relative path.
pub fn join_path(a: &str, b: &str) -> (r: String)
    ensures
        r@ == path_join(a@, b@),
{
    let v = crate::text::chars_of(a);
    proof {
        reveal_strlit("/");
    }
    if v.len() == 0 {
        lit(b)
    } else if v[v.len() - 1] == '/' {
        let mut r = lit(a);
        r.append(b);
        r
    } else {
        let mut r = lit(a);
        r.append("/");
        r.append(b);
        r
    }
}

/// The paths of a book's files and directories.
pub struct BookPaths {
    pub root: String,
    pub config_toml: String,
    pub raw_dir: String,
    pub out_dir: String,
    pub legacy_out_dir: String,
    pub glossary_json: String,
    pub style_md: String,
    pub state_dir: String,
}

impl BookPaths {
    /// The paths of the book rooted at `book_dir`.
    pub fn resolve(book_dir: &str) -> (r: Self)
        ensures
            r.root@ == book_dir@,
            r.config_toml@ == path_join(book_dir@, "cipher.toml"@),
            r.raw_dir@ == path_join(book_dir@, "raw"@),
            r.out_dir@ == path_join(book_dir@, "tl"@),
            r.legacy_out_dir@ == path_join(book_dir@, "translated"@),
            r.glossary_json@ == path_join(book_dir@, "glossary.json"@),
            r.style_md@ == path_join(book_dir@, "style.md"@),
            r.state_dir@ == path_join(book_dir@, ".cipher"@),
    {
        BookPaths {
            root: lit(book_dir),
            config_toml: join_path(book_dir, "cipher.toml"),
            raw_dir: join_path(book_dir, "raw"),
            out_dir: join_path(book_dir, "tl"),
            legacy_out_dir: join_path(book_dir, "translated"),
            glossary_json: join_path(book_dir, "glossary.json"),
            style_md: join_path(book_dir, "style.md"),
            state_dir: join_path(book_dir, ".cipher"),
        }
    }

    /// The output directory in use: `tl` when it exists, else the legacy
    /// `translated` when that exists, else `tl`.
    pub fn effective_out_dir(&self, out_exists: bool, legacy_exists: bool) -> (r: &String)
        ensures
            *r == if !out_exists && legacy_exists {
                self.legacy_out_dir
            } else {
                self.out_dir
            },
    {
        if out_exists {
            &self.out_dir
        } else if legacy_exists {
            &self.legacy_out_dir
        } else {
            &self.out_dir
        }
    }

    /// Whether only the legacy output directory exists.
    pub fn is_using_legacy_out(&self, out_exists: bool, legacy_exists: bool) -> (r: bool)
        ensures
            r == (!out_exists && legacy_exists),
    {
        !out_exists && legacy_exists
    }

    /// The run metadata file.
    pub fn run_json(&self) -> (r: String)
        ensures
            r@ == path_join(self.state_dir@, "run.json"@),
    {
        join_path(self.state_dir.as_str(), "run.json")
    }

    /// The glossary baseline file.
    pub fn glossary_state_json(&self) -> (r: String)
        ensures
            r@ == path_join(self.state_dir@, "glossary_state.json"@),
    {
        join_path(self.state_dir.as_str(), "glossary_state.json")
    }

    /// The directory of chapter state files.
    pub fn chapters_dir(&self) -> (r: String)
        ensures
            r@ == path_join(self.state_dir@, "chapters"@),
    {
        join_path(self.state_dir.as_str(), "chapters")
    }

    /// The state file of a chapter given by its normalized path: the
    /// chapter's directories under the chapters directory, and its file
    /// name with `.json` added.
    pub fn chapter_state_json(&self, chapter_path: &str) -> (r: String)
        ensures
            r@ == chapter_state_file(path_join(self.state_dir@, "chapters"@), chapter_path@),
    {
        let base = self.chapters_dir();
        let v = crate::text::chars_of(chapter_path);
        let slash = last_index_of(&v, '/');
        proof {
            lemma_last_index(v@, '/');
        }
        let mut out = match slash {
            Some(i) => {
                let parent = crate::text::string_from_range(&v, 0, i);
                let with_parent = join_path(base.as_str(), parent.as_str());
                let name = crate::text::string_from_range(&v, i + 1, v.len());
                join_path(with_parent.as_str(), name.as_str())
            },
            None => join_path(base.as_str(), chapter_path),
        };
        out.append(".json");
        out
    }
}

/// The index of the last `c` in `s`, if any.
pub open spec fn last_index(s: Seq<char>, c: char) -> Option<int>
    decreases s.len(),
{
    if s.len() == 0 {
        None
    } else if s.last() == c {
        Some(s.len() - 1)
    } else {
        last_index(s.drop_last(), c)
    }
}

pub proof fn lemma_last_index(s: Seq<char>, c: char)
    ensures
        last_index(s, c) matches Some(i) ==> 0 <= i < s.len(),
    decreases s.len(),
{
    if s.len() > 0 {
        lemma_last_index(s.drop_last(), c);
    }
}

pub fn last_index_of(v: &Vec<char>, c: char) -> (r: Option<usize>)
    ensures
        match last_index(v@, c) {
            Some(i) => r.is_some() && r.unwrap() as int == i,
            None => r.is_none(),
        },
{
    let mut k = v.len();
    assert(v@.take(k as int) =~= v@);
    while k > 0
        invariant
            k <= v.len(),
            last_index(v@, c) == last_index(v@.take(k as int), c),
        decreases k,
    {
        assert(v@.take(k as int).drop_last() =~= v@.take(k - 1));
        if v[k - 1] == c {
            return Some(k - 1);
        }
        k = k - 1;
    }
    None
}

/// The state file of a chapter path under the chapters directory.
pub open spec fn chapter_state_file(chapters: Seq<char>, p: Seq<char>) -> Seq<char> {
    match last_index(p, '/') {
        Some(i) => path_join(path_join(chapters, p.subrange(0, i)), p.subrange(i + 1, p.len() as int)) + ".json"@,
        None => path_join(chapters, p) + ".json"@,
    }
}

/// Which of a book's files and directories exist.
pub struct BookExists {
    pub root_dir: bool,
    pub config_toml: bool,
    pub raw_dir: bool,
    pub out_dir: bool,
    pub legacy_out_dir: bool,
    pub glossary_json: bool,
    pub style_md: bool,
    pub state_dir: bool,
}

/// A book's paths and which of them exist.
pub struct BookLayout {
    pub paths: BookPaths,
    pub exists: BookExists,
}

impl BookLayout {
    /// The layout of the book at `book_dir`, given what exists there.
    pub fn discover(book_dir: &str, exists: BookExists) -> (r: Self)
        ensures
            r.paths.root@ == book_dir@,
            r.paths.raw_dir@ == path_join(book_dir@, "raw"@),
            r.paths.out_dir@ == path_join(book_dir@, "tl"@),
            r.exists == exists,
    {
        BookLayout { paths: BookPaths::resolve(book_dir), exists }
    }

    /// A book is valid when its root and its `raw` directory exist.
    pub fn is_valid_book(&self) -> (r: bool)
        ensures
            r == (self.exists.root_dir && self.exists.raw_dir),
    {
        self.exists.root_dir && self.exists.raw_dir
    }

    /// The output directory in use.
    pub fn effective_out_dir(&self) -> (r: &String)
        ensures
            *r == if !self.exists.out_dir && self.exists.legacy_out_dir {
                self.paths.legacy_out_dir
            } else {
                self.paths.out_dir
            },
    {
        self.paths.effective_out_dir(self.exists.out_dir, self.exists.legacy_out_dir)
    }

    /// Whether only the legacy output directory exists.
    pub fn is_using_legacy_out(&self) -> (r: bool)
        ensures
            r == (!self.exists.out_dir && self.exists.legacy_out_dir),
    {
        self.paths.is_using_legacy_out(self.exists.out_dir, self.exists.legacy_out_dir)
    }
}

/// The spans `[start, end)` of the components of `p[i..]`: the pieces
/// between `/` characters that are neither empty nor `.`.
pub open spec fn comps_from(p: Seq<char>, i: int) -> Seq<(int, int)>
    decreases p.len() - i,
{
    if i < 0 || i >= p.len() {
        Seq::empty()
    } else {
        let e = next_index_of(p, '/', i);
        proof {
            lemma_next_index_of(p, '/', i);
        }
        let here: Seq<(int, int)> = if e == i || (e == i + 1 && p[i] == '.') {
            Seq::empty()
        } else {
            seq![(i, e)]
        };
        if e >= p.len() {
            here
        } else {
            here + comps_from(p, e + 1)
        }
    }
}

/// A relative path that starts with a current-directory component: `.`
/// alone or followed by `/`.
pub open spec fn starts_with_cur(p: Seq<char>) -> bool {
    p.len() >= 1 && p[0] == '.' && (p.len() == 1 || p[1] == '/')
}

/// The components of a path as `Path::components` reads a Unix path, each
/// by its span in `p`: a root `/` for a leading `/`; a current directory
/// `.` only at the start of a relative path; then the pieces between `/`
/// that are neither empty nor `.` (repeated `/` and inner `.` are dropped,
/// `..` stays).
pub open spec fn path_components(p: Seq<char>) -> Seq<(int, int)> {
    if p.len() > 0 && p[0] == '/' {
        seq![(0int, 1int)] + comps_from(p, 1)
    } else if starts_with_cur(p) {
        seq![(0int, 1int)] + comps_from(p, 2)
    } else {
        comps_from(p, 0)
    }
}

/// The text of a span of `p`.
pub open spec fn span_text(p: Seq<char>, s: (int, int)) -> Seq<char> {
    p.subrange(s.0, s.1)
}

/// The components of `base` are the leading components of `file`.
pub open spec fn components_lead(base: Seq<char>, file: Seq<char>) -> bool {
    let bc = path_components(base);
    let fc = path_components(file);
    &&& bc.len() <= fc.len()
    &&& forall|j: int| 0 <= j < bc.len() ==> span_text(base, #[trigger] bc[j]) == span_text(file, fc[j])
}

/// The text of `file` after its first `k` components, as
/// `Path::strip_prefix` gives it: from the next component to the end of the
/// last one (from the start of the path when `k` is 0), or empty when no
/// component remains.
pub open spec fn text_after(file: Seq<char>, k: int) -> Seq<char> {
    let fc = path_components(file);
    if k >= fc.len() {
        Seq::empty()
    } else if k == 0 {
        file.subrange(0, fc.last().1)
    } else {
        file.subrange(fc[k].0, fc.last().1)
    }
}

/// The part of `file` below `dir`, when the components of `dir` lead those
/// of `file`, as `Path::strip_prefix` compares them.
pub open spec fn relative_to(dir: Seq<char>, file: Seq<char>) -> Option<Seq<char>> {
    if components_lead(dir, file) {
        Some(text_after(file, path_components(dir).len() as int))
    } else {
        None
    }
}

/// Spans as integer pairs.
pub open spec fn spans_view(v: Seq<(usize, usize)>) -> Seq<(int, int)> {
    v.map_values(|x: (usize, usize)| (x.0 as int, x.1 as int))
}

/// The component spans of a path, in order; each lies inside the path and
/// ends before the next begins.
fn component_spans(v: &Vec<char>) -> (r: Vec<(usize, usize)>)
    ensures
        spans_view(r@) == path_components(v@),
        forall|j: int| 0 <= j < r@.len() ==> (#[trigger] r@[j]).0 <= r@[j].1 <= v@.len(),
        forall|j: int, l: int| 0 <= j < l < r@.len() ==> (#[trigger] r@[j]).1 <= (#[trigger] r@[l]).0,
{
    let n = v.len();
    let mut r: Vec<(usize, usize)> = Vec::new();
    let mut i: usize;
    if n > 0 && v[0] == '/' {
        r.push((0, 1));
        i = 1;
    } else if n >= 1 && v[0] == '.' && (n == 1 || v[1] == '/') {
        r.push((0, 1));
        i = if n >= 2 {
            2
        } else {
            n
        };
    } else {
        i = 0;
    }
    proof {
        assert(comps_from(v@, i as int) == comps_from(v@, if n > 0 && v@[0] == '/' {
            1int
        } else if starts_with_cur(v@) {
            2int
        } else {
            0int
        }));
        assert(spans_view(r@) + comps_from(v@, i as int) =~= path_components(v@));
    }
    while i < n
        invariant
            n == v.len(),
            i <= n,
            spans_view(r@) + comps_from(v@, i as int) == path_components(v@),
            forall|j: int| 0 <= j < r@.len() ==> (#[trigger] r@[j]).0 <= r@[j].1 <= i,
            forall|j: int, l: int| 0 <= j < l < r@.len() ==> (#[trigger] r@[j]).1 <= (#[trigger] r@[l]).0,
        decreases n - i,
    {
        let e = crate::text::next_index_of_exec(v, '/', i);
        proof {
            lemma_next_index_of(v@, '/', i as int);
        }
        let skip = e == i || (e == i + 1 && v[i] == '.');
        let ghost before = r@;
        if !skip {
            r.push((i, e));
        }
        proof {
            let here: Seq<(int, int)> = if skip {
                Seq::empty()
            } else {
                seq![(i as int, e as int)]
            };
            assert(spans_view(r@) =~= spans_view(before) + here);
        }
        if e >= n {
            i = n;
        } else {
            i = e + 1;
        }
        proof {
            assert(spans_view(r@) + comps_from(v@, i as int) =~= path_components(v@));
        }
    }
    assert(spans_view(r@) =~= path_components(v@));
    r
}

/// Whether two spans hold the same text.
fn span_eq(a: &Vec<char>, sa: (usize, usize), b: &Vec<char>, sb: (usize, usize)) -> (r: bool)
    requires
        sa.0 <= sa.1 <= a.len(),
        sb.0 <= sb.1 <= b.len(),
    ensures
        r == (a@.subrange(sa.0 as int, sa.1 as int) == b@.subrange(sb.0 as int, sb.1 as int)),
{
    let len = sa.1 - sa.0;
    if len != sb.1 - sb.0 {
        proof {
            assert(a@.subrange(sa.0 as int, sa.1 as int).len() != b@.subrange(sb.0 as int, sb.1 as int).len());
        }
        return false;
    }
    let mut k: usize = 0;
    while k < len
        invariant
            len == sa.1 - sa.0,
            len == sb.1 - sb.0,
            sa.0 <= sa.1 <= a.len(),
            sb.0 <= sb.1 <= b.len(),
            k <= len,
            forall|j: int|
                0 <= j < k ==> #[trigger] a@.subrange(sa.0 as int, sa.1 as int)[j] == b@.subrange(
                    sb.0 as int,
                    sb.1 as int,
                )[j],
        decreases len - k,
    {
        if a[sa.0 + k] != b[sb.0 + k] {
            proof {
                assert(a@.subrange(sa.0 as int, sa.1 as int)[k as int] != b@.subrange(sb.0 as int, sb.1 as int)[k as int]);
            }
            return false;
        }
        k = k + 1;
    }
    assert(a@.subrange(sa.0 as int, sa.1 as int) =~= b@.subrange(sb.0 as int, sb.1 as int));
    true
}

/// The message of a chapter outside the raw directory.
pub open spec fn relativize_message(file: Seq<char>) -> Seq<char> {
    "Failed to relativize "@ + file
}

/// The state key of a chapter file: its path below the raw directory, as
/// `Path::strip_prefix` compares components, normalized.
pub fn chapter_state_key(raw_dir: &str, chapter_file: &str) -> (r: Result<String, Error>)
    ensures
        match relative_to(raw_dir@, chapter_file@) {
            Some(rel) => r is Ok && r->Ok_0@ == normalized_chapter_path(rel),
            None => r matches Err(Error::State(m)) && m@ == relativize_message(chapter_file@),
        },
{
    let d = crate::text::chars_of(raw_dir);
    let f = crate::text::chars_of(chapter_file);
    let dc = component_spans(&d);
    let fc = component_spans(&f);
    let ghost bcs = path_components(raw_dir@);
    let ghost fcs = path_components(chapter_file@);
    if dc.len() > fc.len() {
        proof {
            assert(spans_view(dc@).len() == dc@.len());
            assert(spans_view(fc@).len() == fc@.len());
        }
        let mut m = lit("Failed to relativize ");
        m.append(chapter_file);
        return Err(Error::State(m));
    }
    let mut j: usize = 0;
    while j < dc.len()
        invariant
            d@ == raw_dir@,
            f@ == chapter_file@,
            spans_view(dc@) == bcs,
            spans_view(fc@) == fcs,
            bcs == path_components(raw_dir@),
            fcs == path_components(chapter_file@),
            dc.len() <= fc.len(),
            j <= dc.len(),
            forall|k: int| 0 <= k < dc@.len() ==> (#[trigger] dc@[k]).0 <= dc@[k].1 <= d@.len(),
            forall|k: int| 0 <= k < fc@.len() ==> (#[trigger] fc@[k]).0 <= fc@[k].1 <= f@.len(),
            forall|k: int| 0 <= k < j ==> span_text(raw_dir@, #[trigger] bcs[k]) == span_text(chapter_file@, fcs[k]),
        decreases dc.len() - j,
    {
        let same = span_eq(&d, dc[j], &f, fc[j]);
        proof {
            assert(bcs[j as int] == (dc@[j as int].0 as int, dc@[j as int].1 as int));
            assert(fcs[j as int] == (fc@[j as int].0 as int, fc@[j as int].1 as int));
        }
        if !same {
            let mut m = lit("Failed to relativize ");
            m.append(chapter_file);
            return Err(Error::State(m));
        }
        j = j + 1;
    }
    proof {
        assert(components_lead(raw_dir@, chapter_file@));
    }
    let k = dc.len();
    let rel = if k >= fc.len() {
        String::new()
    } else {
        let last = fc.len() - 1;
        let start = if k == 0 {
            0
        } else {
            fc[k].0
        };
        let end = fc[last].1;
        proof {
            assert(fcs[last as int] == (fc@[last as int].0 as int, fc@[last as int].1 as int));
            assert(fcs[k as int] == (fc@[k as int].0 as int, fc@[k as int].1 as int));
            if k < last {
                assert(fc@[k as int].1 <= fc@[last as int].0);
            }
        }
        crate::text::string_from_range(&f, start, end)
    };
    proof {
        assert(spans_view(dc@).len() == dc@.len());
        assert(rel@ == text_after(chapter_file@, bcs.len() as int));
    }
    Ok(normalize_chapter_path(rel.as_str()))
}

/// The file name of a path, as `Path::file_name` gives it: its last
/// component, when that is a name (not the root, `.` or `..`).
pub open spec fn file_name_of(p: Seq<char>) -> Option<Seq<char>> {
    let c = path_components(p);
    if c.len() == 0 {
        None
    } else {
        let name = span_text(p, c.last());
        if name == seq!['/'] || name == seq!['.'] || name == seq!['.', '.'] {
            None
        } else {
            Some(name)
        }
    }
}

/// The translation of a chapter file: its file name in the output
/// directory.
pub fn chapter_output_path(out_dir: &str, chapter_file: &str) -> (r: Result<String, Error>)
    ensures
        match file_name_of(chapter_file@) {
            Some(name) => r is Ok && r->Ok_0@ == path_join(out_dir@, name),
            None => r matches Err(Error::Validation { message }) && message@ == "Invalid chapter filename"@,
        },
{
    let f = crate::text::chars_of(chapter_file);
    let fc = component_spans(&f);
    proof {
        reveal_strlit("/");
        reveal_strlit(".");
        reveal_strlit("..");
        assert("/"@ =~= seq!['/']);
        assert("."@ =~= seq!['.']);
        assert(".."@ =~= seq!['.', '.']);
    }
    if fc.len() == 0 {
        proof {
            assert(spans_view(fc@).len() == 0);
        }
        return Err(Error::Validation { message: lit("Invalid chapter filename") });
    }
    let last = fc[fc.len() - 1];
    let name = crate::text::string_from_range(&f, last.0, last.1);
    proof {
        let c = path_components(chapter_file@);
        assert(c.len() == fc@.len());
        assert(c.last() == (last.0 as int, last.1 as int));
        assert(name@ == span_text(chapter_file@, c.last()));
    }
    if crate::strmap::str_eq(name.as_str(), "/") || crate::strmap::str_eq(name.as_str(), ".")
        || crate::strmap::str_eq(name.as_str(), "..") {
        return Err(Error::Validation { message: lit("Invalid chapter filename") });
    }
    Ok(join_path(out_dir, name.as_str()))
}

/// The number in a file name: its first run of ASCII digits, when that
/// fits in a `u32`.
pub open spec fn first_digit_run(s: Seq<char>) -> Seq<char> {
    let start = first_digit(s, 0);
    s.subrange(start, digit_run_end(s, start))
}

/// The index of the first ASCII digit at or after `i`, or `s.len()`.
pub open spec fn first_digit(s: Seq<char>, i: int) -> int
    decreases s.len() - i,
{
    if i < 0 || i >= s.len() {
        s.len() as int
    } else if is_digit(s[i]) {
        i
    } else {
        first_digit(s, i + 1)
    }
}

/// The index of the first non-digit at or after `i`, or `s.len()`.
pub open spec fn digit_run_end(s: Seq<char>, i: int) -> int
    decreases s.len() - i,
{
    if i < 0 || i >= s.len() {
        s.len() as int
    } else if !is_digit(s[i]) {
        i
    } else {
        digit_run_end(s, i + 1)
    }
}

/// An ASCII digit.
pub open spec fn is_digit(c: char) -> bool {
    '0' <= c && c <= '9'
}

/// The value of a run of ASCII digits.
pub open spec fn digits_value(d: Seq<char>) -> nat
    decreases d.len(),
{
    if d.len() == 0 {
        0
    } else {
        digits_value(d.drop_last()) * 10 + ((d.last() as u32) - 48) as nat
    }
}

/// The number [`extract_number`] reads from a file name.
pub open spec fn number_in(s: Seq<char>) -> Option<u32> {
    let d = first_digit_run(s);
    if d.len() == 0 || digits_value(d) > u32::MAX {
        None
    } else {
        Some(digits_value(d) as u32)
    }
}

proof fn lemma_digit_bounds(s: Seq<char>, i: int)
    requires
        0 <= i <= s.len(),
    ensures
        i <= first_digit(s, i) <= s.len(),
        i <= digit_run_end(s, i) <= s.len(),
        forall|k: int| i <= k < digit_run_end(s, i) ==> is_digit(#[trigger] s[k]),
    decreases s.len() - i,
{
    if i < s.len() {
        lemma_digit_bounds(s, i + 1);
    }
}

proof fn lemma_digits_value_monotone(d: Seq<char>, e: Seq<char>)
    requires
        forall|k: int| 0 <= k < d.len() + e.len() ==> is_digit(#[trigger] (d + e)[k]),
    ensures
        digits_value(d) <= digits_value(d + e),
    decreases e.len(),
{
    if e.len() > 0 {
        let de = d + e;
        assert(de.drop_last() =~= d + e.drop_last());
        lemma_digits_value_monotone(d, e.drop_last());
    } else {
        assert(d + e =~= d);
    }
}

/// The number in a file name, as chapters are ordered by it.
pub fn extract_number(filename: &str) -> (r: Option<u32>)
    ensures
        r == number_in(filename@),
{
    let v = crate::text::chars_of(filename);
    let n = v.len();
    let mut i: usize = 0;
    while i < n && !('0' <= v[i] && v[i] <= '9')
        invariant
            i <= n == v.len(),
            first_digit(v@, 0) == first_digit(v@, i as int),
        decreases n - i,
    {
        i = i + 1;
    }
    let start = i;
    proof {
        lemma_digit_bounds(v@, start as int);
    }
    let mut value: u64 = 0;
    let mut j = start;
    let mut overflow = false;
    while j < n && '0' <= v[j] && v[j] <= '9'
        invariant
            start <= j <= n == v.len(),
            start == first_digit(v@, 0),
            digit_run_end(v@, start as int) == digit_run_end(v@, j as int),
            forall|k: int| start <= k < j ==> is_digit(#[trigger] v@[k]),
            !overflow ==> value == digits_value(v@.subrange(start as int, j as int)) && value <= u32::MAX,
            overflow ==> digits_value(v@.subrange(start as int, j as int)) > u32::MAX,
        decreases n - j,
    {
        let d = (v[j] as u32) - 48;
        proof {
            assert(v@.subrange(start as int, j + 1).drop_last() =~= v@.subrange(start as int, j as int));
        }
        if !overflow {
            value = value * 10 + d as u64;
            if value > 0xffff_ffffu64 {
                overflow = true;
            }
        } else {
            proof {
                let a = v@.subrange(start as int, j as int);
                let b = v@.subrange(start as int, j + 1);
                assert(digits_value(b) == digits_value(a) * 10 + d);
            }
        }
        j = j + 1;
    }
    proof {
        lemma_digit_bounds(v@, start as int);
        let run = v@.subrange(start as int, j as int);
        assert(first_digit_run(v@) =~= run);
    }
    if j == start || overflow {
        None
    } else {
        Some(value as u32)
    }
}

} // verus!
