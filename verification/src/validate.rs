//! Checks a rendered translation before it is accepted.

use vstd::prelude::*;

use crate::text::{
    chars_of, count_char, count_char_exec, find_from, find_from_exec, first_line, is_blank, is_ws,
    leading_count, leading_count_exec, lemma_find_from_some, lemma_next_index_of, lemma_trim_end_to, line_at, line_bounds,
    lit, next_index_of, starts_with, string_from, subvec, trim, trim_bounds, trim_end, trim_start,
    views,
};

verus! {

/// What validation demands of a translation.
#[derive(Debug, Clone, Copy)]
pub struct ValidationOptions {
    pub require_heading: bool,
}

impl Default for ValidationOptions {
    fn default() -> (r: Self)
        ensures
            r.require_heading,
    {
        ValidationOptions { require_heading: true }
    }
}

/// The outcome of validation: accepted, or the list of problems found.
#[derive(Debug)]
pub enum ValidationResult {
    Valid,
    Invalid(Vec<String>),
}

impl ValidationResult {
    /// The problems, as strings (empty for a valid result).
    pub open spec fn error_views(&self) -> Seq<Seq<char>> {
        match self {
            ValidationResult::Valid => Seq::empty(),
            ValidationResult::Invalid(errors) => views(errors@),
        }
    }

    pub fn is_valid(&self) -> (r: bool)
        ensures
            r == (*self is Valid),
    {
        match self {
            ValidationResult::Valid => true,
            ValidationResult::Invalid(_) => false,
        }
    }

    pub fn errors(&self) -> (r: Vec<String>)
        ensures
            views(r@) == self.error_views(),
    {
        match self {
            ValidationResult::Valid => Vec::new(),
            ValidationResult::Invalid(errors) => {
                let r = errors.clone();
                assert(views(r@) =~= views(errors@));
                r
            },
        }
    }
}

/// A line is a valid chapter heading: after trimming it starts with `"# "`
/// and something other than whitespace follows.
pub open spec fn valid_chapter_heading(line: Seq<char>) -> bool {
    let l = trim(line);
    starts_with(l, "# "@) && trim(l.skip(2)).len() > 0
}

/// The stack of open fence lengths after one line.
pub open spec fn fence_step(stack: Seq<nat>, line: Seq<char>) -> Seq<nat> {
    let n = leading_count(trim(line), '`');
    if n >= 3 {
        if stack.len() > 0 && n >= stack.last() {
            stack.drop_last()
        } else {
            stack.push(n)
        }
    } else {
        stack
    }
}

/// The stack of open fences after the lines from index `i` on.
pub open spec fn fence_fold(s: Seq<char>, i: int, stack: Seq<nat>) -> Seq<nat>
    decreases s.len() + 1 - i,
{
    if i < 0 || i >= s.len() {
        stack
    } else {
        let next = next_index_of(s, '\n', i) + 1;
        if next <= i || next > s.len() + 1 {
            stack
        } else {
            fence_fold(s, next, fence_step(stack, line_at(s, i)))
        }
    }
}

/// Every fence of at least three backticks that opens is closed by a later
/// fence that is at least as long.
pub open spec fn balanced_fences(s: Seq<char>) -> bool {
    fence_fold(s, 0, Seq::empty()).len() == 0
}

pub open spec fn json_boundary(c: char) -> bool {
    c == '{' || c == ',' || c == '\n'
}

/// The text before a match puts the match in a JSON context.
pub open spec fn json_context_before(before: Seq<char>) -> bool {
    let t = trim_end(before);
    ||| before.len() == 0
    ||| json_boundary(before.last())
    ||| t.len() == 0
    ||| json_boundary(t.last())
}

/// Scanning the non-overlapping matches of `pattern` from `start`, one sits
/// in a JSON context.
pub open spec fn pattern_in_json_context_from(text: Seq<char>, pattern: Seq<char>, start: int) -> bool
    decreases text.len() + 1 - start,
{
    if pattern.len() == 0 || start < 0 {
        false
    } else {
        match find_from(text, pattern, start) {
            None => false,
            Some(pos) => if pos < start || pos + pattern.len() > text.len() {
                false
            } else {
                json_context_before(text.take(pos)) || pattern_in_json_context_from(
                    text,
                    pattern,
                    pos + pattern.len(),
                )
            },
        }
    }
}

/// The trimmed text looks like one raw JSON object.
pub open spec fn looks_like_json(text: Seq<char>) -> bool {
    let t = trim(text);
    &&& t.len() > 0
    &&& t[0] == '{'
    &&& t.last() == '}'
    &&& count_char(t, '{') > 0
    &&& count_char(t, ':') >= count_char(t, '{')
}

/// `acc` followed by the heading problem of a translation, if any.
pub open spec fn with_heading_error(acc: Seq<Seq<char>>, text: Seq<char>, require_heading: bool) -> Seq<Seq<char>> {
    let t = trim_start(text);
    if !require_heading {
        acc
    } else if !(t.len() > 0 && t[0] == '#') {
        acc.push("Translation must start with a heading (#)"@)
    } else if valid_chapter_heading(first_line(t)) {
        acc
    } else {
        acc.push("Chapter heading must start with '# ' and have content, got: "@ + first_line(t))
    }
}

/// `acc` followed by `msg` if `pattern` sits in a JSON context of `text`.
pub open spec fn with_leak_error(acc: Seq<Seq<char>>, text: Seq<char>, pattern: Seq<char>, msg: Seq<char>) -> Seq<Seq<char>> {
    if pattern_in_json_context_from(text, pattern, 0) {
        acc.push(msg)
    } else {
        acc
    }
}

/// `acc` followed by the JSON and schema leakage problems of a translation.
pub open spec fn with_leakage_errors(acc: Seq<Seq<char>>, text: Seq<char>) -> Seq<Seq<char>> {
    let a1 = with_leak_error(acc, text, "\"type\":"@, "Schema pattern detected: \"type\":"@);
    let a2 = with_leak_error(a1, text, "\"properties\":"@, "Schema pattern detected: \"properties\":"@);
    let a3 = with_leak_error(a2, text, "\"$ref\""@, "Schema pattern detected: \"$ref\""@);
    let a4 = with_leak_error(a3, text, "\"required\":"@, "Schema pattern detected: \"required\":"@);
    let a5 = with_leak_error(a4, text, "\"translation\":"@, "Response schema leaked: \"translation\":"@);
    let a6 = with_leak_error(
        a5,
        text,
        "\"new_glossary_terms\":"@,
        "Response schema leaked: \"new_glossary_terms\":"@,
    );
    if looks_like_json(text) {
        a6.push("Output appears to be raw JSON instead of markdown"@)
    } else {
        a6
    }
}

/// All problems of a translation, in the order they are reported: empty
/// text, heading, code fences, then JSON and schema leakage.
pub open spec fn translation_errors(text: Seq<char>, require_heading: bool) -> Seq<Seq<char>> {
    let e1 = if trim(text).len() == 0 {
        seq!["Translation is empty"@]
    } else {
        Seq::empty()
    };
    let e2 = with_heading_error(e1, text, require_heading);
    let e3 = if balanced_fences(text) {
        e2
    } else {
        e2.push("Unbalanced code fences (```)"@)
    };
    with_leakage_errors(e3, text)
}

/// Adding leakage errors keeps the errors already found.
proof fn lemma_leakage_errors_grow(acc: Seq<Seq<char>>, text: Seq<char>)
    ensures
        with_leakage_errors(acc, text).len() >= acc.len(),
{
}

/// A text whose characters are all whitespace trims to nothing.
proof fn lemma_trim_all_ws(s: Seq<char>)
    requires
        crate::text::all_ws(s),
    ensures
        trim(s).len() == 0,
    decreases s.len(),
{
    if s.len() > 0 {
        assert(crate::text::all_ws(s.drop_first()));
        lemma_trim_all_ws(s.drop_first());
    }
}

/// When a heading is required, a translation without problems begins
/// (after leading whitespace) with a first line that, trimmed, starts with
/// `#` and a space and has a non-whitespace character after them.
pub proof fn law_valid_translation_starts_with_heading(text: Seq<char>)
    requires
        translation_errors(text, true).len() == 0,
    ensures
        ({
            let l = trim(first_line(trim_start(text)));
            &&& l.len() >= 3
            &&& l[0] == '#'
            &&& l[1] == ' '
            &&& exists|k: int| 2 <= k < l.len() && !is_ws(#[trigger] l[k])
        }),
{
    let e1 = if trim(text).len() == 0 {
        seq!["Translation is empty"@]
    } else {
        Seq::<Seq<char>>::empty()
    };
    let e2 = with_heading_error(e1, text, true);
    let e3 = if balanced_fences(text) {
        e2
    } else {
        e2.push("Unbalanced code fences (```)"@)
    };
    lemma_leakage_errors_grow(e3, text);
    assert(e2.len() == 0);
    let t = trim_start(text);
    let l = trim(first_line(t));
    assert(valid_chapter_heading(first_line(t)));
    reveal_strlit("# ");
    assert(starts_with(l, "# "@));
    assert(l.subrange(0, 2) == "# "@);
    assert(l[0] == l.subrange(0, 2)[0]);
    assert(l[1] == l.subrange(0, 2)[1]);
    let rest = l.skip(2);
    if !(exists|k: int| 2 <= k < l.len() && !is_ws(#[trigger] l[k])) {
        assert forall|i: int| 0 <= i < rest.len() implies is_ws(#[trigger] rest[i]) by {
            assert(rest[i] == l[i + 2]);
        }
        lemma_trim_all_ws(rest);
    }
}

/// Validates a rendered translation.
pub fn validate_translation(text: &str, options: ValidationOptions) -> (r: ValidationResult)
    ensures
        r.error_views() == translation_errors(text@, options.require_heading),
        (r is Valid) <==> translation_errors(text@, options.require_heading).len() == 0,
{
    let chars = chars_of(text);
    let mut errors: Vec<String> = Vec::new();

    if is_blank(text) {
        errors.push(lit("Translation is empty"));
    }
    let ghost e1 = views(errors@);
    assert(e1 =~= (if trim(text@).len() == 0 {
        seq!["Translation is empty"@]
    } else {
        Seq::<Seq<char>>::empty()
    }));

    if options.require_heading {
        let (start, _end) = trim_bounds(&chars);
        let trimmed = subvec(&chars, start, chars.len());
        if !(trimmed.len() > 0 && trimmed[0] == '#') {
            errors.push(lit("Translation must start with a heading (#)"));
        } else {
            let (line_end, _next) = line_bounds(&trimmed, 0);
            let first = subvec(&trimmed, 0, line_end);
            if !is_valid_chapter_heading_chars(&first) {
                let mut msg = lit("Chapter heading must start with '# ' and have content, got: ");
                let first_str = string_from(&first);
                msg.append(first_str.as_str());
                errors.push(msg);
            }
        }
    }
    let ghost e2 = views(errors@);
    assert(e2 =~= with_heading_error(e1, text@, options.require_heading));

    if !has_balanced_code_fences_chars(&chars) {
        errors.push(lit("Unbalanced code fences (```)"));
    }
    let ghost e3 = views(errors@);
    assert(e3 =~= (if balanced_fences(text@) {
        e2
    } else {
        e2.push("Unbalanced code fences (```)"@)
    }));

    check_json_leakage(&chars, &mut errors);
    assert(views(errors@) =~= translation_errors(text@, options.require_heading));

    if errors.len() == 0 {
        ValidationResult::Valid
    } else {
        ValidationResult::Invalid(errors)
    }
}

fn push_leak_error(text: &Vec<char>, pattern: &str, msg: &str, errors: &mut Vec<String>)
    requires
        pattern@.len() > 0,
    ensures
        views(final(errors)@) == with_leak_error(views(old(errors)@), text@, pattern@, msg@),
{
    let p = chars_of(pattern);
    if is_pattern_in_json_context_chars(text, &p) {
        errors.push(lit(msg));
    }
    assert(views(errors@) =~= with_leak_error(views(old(errors)@), text@, pattern@, msg@));
}

fn check_json_leakage(text: &Vec<char>, errors: &mut Vec<String>)
    ensures
        views(final(errors)@) == with_leakage_errors(views(old(errors)@), text@),
{
    proof {
        reveal_strlit("\"type\":");
        reveal_strlit("\"properties\":");
        reveal_strlit("\"$ref\"");
        reveal_strlit("\"required\":");
        reveal_strlit("\"translation\":");
        reveal_strlit("\"new_glossary_terms\":");
    }
    push_leak_error(text, "\"type\":", "Schema pattern detected: \"type\":", errors);
    push_leak_error(text, "\"properties\":", "Schema pattern detected: \"properties\":", errors);
    push_leak_error(text, "\"$ref\"", "Schema pattern detected: \"$ref\"", errors);
    push_leak_error(text, "\"required\":", "Schema pattern detected: \"required\":", errors);
    push_leak_error(text, "\"translation\":", "Response schema leaked: \"translation\":", errors);
    push_leak_error(
        text,
        "\"new_glossary_terms\":",
        "Response schema leaked: \"new_glossary_terms\":",
        errors,
    );
    if looks_like_json_object_chars(text) {
        errors.push(lit("Output appears to be raw JSON instead of markdown"));
    }
}

/// Whether some non-overlapping match of `pattern` in `text` sits in a JSON
/// context: at the start, after `{`, `,` or a newline, possibly with
/// whitespace in between. An empty pattern matches at the start.
pub fn is_pattern_in_json_context(text: &str, pattern: &str) -> (r: bool)
    ensures
        r == (pattern@.len() == 0 || pattern_in_json_context_from(text@, pattern@, 0)),
{
    if pattern.is_empty() {
        return true;
    }
    let t = chars_of(text);
    let p = chars_of(pattern);
    is_pattern_in_json_context_chars(&t, &p)
}

fn json_boundary_exec(c: char) -> (r: bool)
    ensures
        r == json_boundary(c),
{
    c == '{' || c == ',' || c == '\n'
}

fn is_pattern_in_json_context_chars(text: &Vec<char>, pattern: &Vec<char>) -> (r: bool)
    requires
        pattern.len() > 0,
    ensures
        r == pattern_in_json_context_from(text@, pattern@, 0),
{
    let mut search_start: usize = 0;
    loop
        invariant
            pattern.len() > 0,
            search_start <= text.len() + pattern.len(),
            pattern_in_json_context_from(text@, pattern@, 0) == pattern_in_json_context_from(
                text@,
                pattern@,
                search_start as int,
            ),
        decreases text.len() + 1 - search_start,
    {
        if search_start > text.len() {
            return false;
        }
        match find_from_exec(text, pattern, search_start) {
            None => {
                return false;
            },
            Some(pos) => {
                proof {
                    lemma_find_from_some(text@, pattern@, search_start as int);
                }
                let before = subvec(text, 0, pos);
                assert(before@ =~= text@.take(pos as int));
                if pos == 0 {
                    return true;
                }
                if json_boundary_exec(before[pos - 1]) {
                    return true;
                }
                let (a, b) = trim_bounds(&before);
                proof {
                    // the trimmed end of `before` is `before[..b]` once its start is dropped
                    lemma_trim_end_keeps_start(before@, a as int, b as int);
                }
                if a == b {
                    return true;
                }
                assert(before@.last() == before@[pos - 1]);
                if json_boundary_exec(before[b - 1]) {
                    return true;
                }
                assert(!json_context_before(text@.take(pos as int)));
                search_start = pos + pattern.len();
            },
        }
    }
}

/// Characterizes `trim_end` by the bounds that `trim_bounds` returns.
pub proof fn lemma_trim_end_keeps_start(s: Seq<char>, a: int, b: int)
    requires
        0 <= a <= b <= s.len(),
        s.subrange(a, b) == trim(s),
        trim_start(s) == s.subrange(a, s.len() as int),
        b > a ==> !is_ws(s[b - 1]),
        forall|k: int| b <= k < s.len() ==> is_ws(#[trigger] s[k]),
        forall|k: int| 0 <= k < a ==> is_ws(#[trigger] s[k]),
    ensures
        (trim_end(s).len() == 0) == (b == a),
        b > a ==> trim_end(s).last() == s[b - 1],
{
    lemma_trim_end_to(s, b);
    let t = s.subrange(0, b);
    if b > a {
        assert(t.last() == s[b - 1]);
        assert(trim_end(t) == t);
    } else {
        lemma_trim_end_all_ws(t);
    }
}

pub proof fn lemma_trim_end_all_ws(s: Seq<char>)
    requires
        forall|k: int| 0 <= k < s.len() ==> is_ws(#[trigger] s[k]),
    ensures
        trim_end(s).len() == 0,
    decreases s.len(),
{
    if s.len() > 0 {
        assert(is_ws(s[s.len() - 1]));
        lemma_trim_end_all_ws(s.drop_last());
    }
}

/// Whether the trimmed text looks like a raw JSON object: it starts with `{`,
/// ends with `}`, and has at least as many `:` as `{`.
pub fn looks_like_json_object(text: &str) -> (r: bool)
    ensures
        r == looks_like_json(text@),
{
    let t = chars_of(text);
    looks_like_json_object_chars(&t)
}

fn looks_like_json_object_chars(text: &Vec<char>) -> (r: bool)
    ensures
        r == looks_like_json(text@),
{
    let (a, b) = trim_bounds(text);
    let t = subvec(text, a, b);
    if t.len() == 0 || t[0] != '{' || t[t.len() - 1] != '}' {
        return false;
    }
    let braces = count_char_exec(&t, '{');
    let colons = count_char_exec(&t, ':');
    braces > 0 && colons >= braces
}

/// Whether `line` is a valid chapter heading (`# ` followed by content).
pub fn is_valid_chapter_heading(line: &str) -> (r: bool)
    ensures
        r == valid_chapter_heading(line@),
{
    let v = chars_of(line);
    is_valid_chapter_heading_chars(&v)
}

fn is_valid_chapter_heading_chars(line: &Vec<char>) -> (r: bool)
    ensures
        r == valid_chapter_heading(line@),
{
    proof {
        reveal_strlit("# ");
    }
    let (a, b) = trim_bounds(line);
    let l = subvec(line, a, b);
    if l.len() < 2 || l[0] != '#' || l[1] != ' ' {
        assert(!starts_with(l@, "# "@)) by {
            if l@.len() >= 2 {
                assert(l@.subrange(0, 2)[0] == l@[0]);
                assert(l@.subrange(0, 2)[1] == l@[1]);
            }
        }
        return false;
    }
    assert(l@.subrange(0, 2) =~= "# "@);
    let rest = subvec(&l, 2, l.len());
    assert(rest@ =~= l@.skip(2));
    let (c, d) = trim_bounds(&rest);
    c < d
}

/// Whether every code fence in `text` is closed.
pub fn has_balanced_code_fences(text: &str) -> (r: bool)
    ensures
        r == balanced_fences(text@),
{
    let v = chars_of(text);
    has_balanced_code_fences_chars(&v)
}

fn has_balanced_code_fences_chars(text: &Vec<char>) -> (r: bool)
    ensures
        r == balanced_fences(text@),
{
    let mut stack: Vec<usize> = Vec::new();
    let mut i: usize = 0;
    assert(stack@.map_values(|n: usize| n as nat) =~= Seq::<nat>::empty());
    while i < text.len()
        invariant
            i <= text.len(),
            fence_fold(text@, 0, Seq::empty()) == fence_fold(
                text@,
                i as int,
                stack@.map_values(|n: usize| n as nat),
            ),
        decreases text.len() - i,
    {
        let (line_end, nl) = line_bounds(text, i);
        proof {
            lemma_next_index_of(text@, '\n', i as int);
        }
        let line = subvec(text, i, line_end);
        let (a, b) = trim_bounds(&line);
        let trimmed = subvec(&line, a, b);
        let n = leading_count_exec(&trimmed, '`');
        let ghost old_stack = stack@.map_values(|k: usize| k as nat);
        assert(line@ == line_at(text@, i as int));
        assert(n == leading_count(trim(line_at(text@, i as int)), '`'));
        if stack.len() > 0 {
            assert(old_stack.last() == stack@[stack.len() - 1] as nat);
        }
        assert(fence_fold(text@, i as int, old_stack) == fence_fold(
            text@,
            nl + 1,
            fence_step(old_stack, line_at(text@, i as int)),
        ));
        if n >= 3 {
            if stack.len() > 0 && n >= stack[stack.len() - 1] {
                stack.pop();
            } else {
                stack.push(n);
            }
        }
        assert(stack@.map_values(|k: usize| k as nat) =~= fence_step(old_stack, line_at(text@, i as int)));
        if nl >= text.len() {
            i = text.len();
        } else {
            i = nl + 1;
        }
    }
    stack.len() == 0
}

} // verus!
