//! Glossary terms: keys, deduplication, merging and per-chapter selection.

pub mod closest_match;

use vstd::prelude::*;

use crate::glossary::closest_match::{closest_index, strs_view, ClosestMatch};
use crate::text::{
    all_ws, chars_of, collapse_whitespace, collapse_ws, contains, contains_string, lit, lowercase,
    to_lowercase, trim, trim_str, views,
};

verus! {

/// One glossary entry: a translated term, the original it stands for, and
/// its definition.
#[derive(Debug)]
pub struct GlossaryTerm {
    pub term: String,
    pub og_term: Option<String>,
    pub definition: String,
    pub notes: Option<String>,
}

/// A copy of an optional string.
pub fn copy_opt(s: &Option<String>) -> (r: Option<String>)
    ensures
        r == *s,
{
    match s {
        Some(v) => Some(v.clone()),
        None => None,
    }
}

impl Clone for GlossaryTerm {
    fn clone(&self) -> (r: Self)
        ensures
            r == *self,
    {
        GlossaryTerm {
            term: self.term.clone(),
            og_term: copy_opt(&self.og_term),
            definition: self.definition.clone(),
            notes: copy_opt(&self.notes),
        }
    }
}

/// How glossary terms are put into a prompt.
#[derive(Debug, Clone, Copy, PartialEq, Eq, Structural)]
pub enum InjectionMode {
    Full,
    Smart,
}

/// The text a term's key is made from: its original, or else the term.
pub open spec fn key_source(t: GlossaryTerm) -> Seq<char> {
    match t.og_term {
        Some(o) => o@,
        None => t.term@,
    }
}

/// A key: the words of `s` joined by single spaces, lower-cased.
pub open spec fn normalized_key(s: Seq<char>) -> Seq<char> {
    lowercase(collapse_ws(s))
}

/// The key by which glossary terms are told apart.
pub open spec fn term_key(t: GlossaryTerm) -> Seq<char> {
    normalized_key(key_source(t))
}

/// The keys of a list of terms.
pub open spec fn keys_of(s: Seq<GlossaryTerm>) -> Seq<Seq<char>> {
    s.map_values(|t: GlossaryTerm| term_key(t))
}

/// `s` without the terms whose key already occurred earlier in `s`.
pub open spec fn dedupe_spec(s: Seq<GlossaryTerm>) -> Seq<GlossaryTerm>
    decreases s.len(),
{
    if s.len() == 0 {
        s
    } else if keys_of(s.drop_last()).contains(term_key(s.last())) {
        dedupe_spec(s.drop_last())
    } else {
        dedupe_spec(s.drop_last()).push(s.last())
    }
}

/// The terms of `incoming` whose key is neither in `known` nor in an
/// earlier term of `incoming`.
pub open spec fn new_terms(known: Seq<Seq<char>>, incoming: Seq<GlossaryTerm>) -> Seq<GlossaryTerm>
    decreases incoming.len(),
{
    if incoming.len() == 0 {
        incoming
    } else {
        let prev = incoming.drop_last();
        let k = term_key(incoming.last());
        if known.contains(k) || keys_of(prev).contains(k) {
            new_terms(known, prev)
        } else {
            new_terms(known, prev).push(incoming.last())
        }
    }
}

pub proof fn lemma_keys_of_push(s: Seq<GlossaryTerm>, t: GlossaryTerm)
    ensures
        keys_of(s.push(t)) == keys_of(s).push(term_key(t)),
{
    assert(keys_of(s.push(t)) =~= keys_of(s).push(term_key(t)));
}

/// An element is in `s.push(x)` exactly when it is `x` or in `s`.
pub proof fn lemma_push_contains<A>(s: Seq<A>, x: A, k: A)
    ensures
        s.push(x).contains(k) <==> (s.contains(k) || x == k),
{
    if s.contains(k) {
        let i = choose|i: int| 0 <= i < s.len() && s[i] == k;
        assert(s.push(x)[i] == k);
    }
    if x == k {
        assert(s.push(x)[s.len() as int] == k);
    }
    if s.push(x).contains(k) {
        let i = choose|i: int| 0 <= i < s.push(x).len() && s.push(x)[i] == k;
        if i < s.len() {
            assert(s[i] == k);
        }
    }
}

/// Deduplication keeps exactly the keys of its input, each once.
pub proof fn lemma_dedupe_keys(s: Seq<GlossaryTerm>)
    ensures
        forall|k: Seq<char>| keys_of(dedupe_spec(s)).contains(k) <==> keys_of(s).contains(k),
        keys_of(dedupe_spec(s)).no_duplicates(),
        dedupe_spec(s).len() <= s.len(),
    decreases s.len(),
{
    if s.len() > 0 {
        let p = s.drop_last();
        let l = s.last();
        lemma_dedupe_keys(p);
        assert(s =~= p.push(l));
        lemma_keys_of_push(p, l);
        lemma_keys_of_push(dedupe_spec(p), l);
        assert forall|k: Seq<char>| keys_of(dedupe_spec(s)).contains(k) <==> keys_of(s).contains(k) by {
            lemma_push_contains(keys_of(p), term_key(l), k);
            lemma_push_contains(keys_of(dedupe_spec(p)), term_key(l), k);
        }
    }
}

/// Normalizes a text into a key.
pub fn normalize_key(s: &str) -> (r: String)
    ensures
        r@ == normalized_key(s@),
{
    let collapsed = collapse_whitespace(s);
    to_lowercase(collapsed.as_str())
}

/// The key of a glossary term.
pub fn glossary_term_key(term: &GlossaryTerm) -> (r: String)
    ensures
        r@ == term_key(*term),
{
    match &term.og_term {
        Some(o) => normalize_key(o.as_str()),
        None => normalize_key(term.term.as_str()),
    }
}

/// Drops every term whose key occurred earlier, keeping the order.
pub fn dedupe_terms(terms: &mut Vec<GlossaryTerm>)
    ensures
        final(terms)@ == dedupe_spec(old(terms)@),
{
    let ghost s = terms@;
    let mut out: Vec<GlossaryTerm> = Vec::new();
    let mut seen: Vec<String> = Vec::new();
    let mut i: usize = 0;
    assert(views(seen@) =~= keys_of(out@));
    while i < terms.len()
        invariant
            s == terms@,
            i <= terms.len(),
            out@ == dedupe_spec(s.take(i as int)),
            views(seen@) == keys_of(out@),
        decreases terms.len() - i,
    {
        let key = glossary_term_key(&terms[i]);
        let ghost p = s.take(i as int);
        proof {
            assert(s.take(i + 1).drop_last() =~= p);
            assert(s.take(i + 1).last() == s[i as int]);
            lemma_dedupe_keys(p);
        }
        if !contains_string(&seen, &key) {
            proof {
                lemma_keys_of_push(out@, s[i as int]);
                assert(views(seen@.push(key)) =~= views(seen@).push(key@));
            }
            out.push(terms[i].clone());
            seen.push(key);
        }
        i = i + 1;
    }
    assert(s.take(s.len() as int) =~= s);
    *terms = out;
}

/// A key is known after admitting the new terms of `incoming` exactly when
/// it was known before or is the key of a term of `incoming`.
pub proof fn lemma_new_terms_key(known: Seq<Seq<char>>, incoming: Seq<GlossaryTerm>, k: Seq<char>)
    ensures
        (known + keys_of(new_terms(known, incoming))).contains(k) <==> (known.contains(k)
            || keys_of(incoming).contains(k)),
    decreases incoming.len(),
{
    if incoming.len() > 0 {
        let p = incoming.drop_last();
        let l = incoming.last();
        let kl = term_key(l);
        lemma_new_terms_key(known, p, k);
        lemma_new_terms_key(known, p, kl);
        assert(incoming =~= p.push(l));
        lemma_keys_of_push(p, l);
        lemma_keys_of_push(new_terms(known, p), l);
        let before = known + keys_of(new_terms(known, p));
        lemma_push_contains(keys_of(p), kl, k);
        assert(keys_of(incoming) == keys_of(p).push(kl));
        if !(known.contains(kl) || keys_of(p).contains(kl)) {
            assert(new_terms(known, incoming) == new_terms(known, p).push(l));
            assert(known + keys_of(new_terms(known, incoming)) =~= before.push(kl));
            lemma_push_contains(before, kl, k);
        }
    }
}

/// Adds the terms of `incoming` whose key is new, in order.
///
/// Returns the merged glossary (deduplicated), the number of terms added,
/// the number skipped as duplicates, and the added terms.
pub fn merge_terms(existing: Vec<GlossaryTerm>, incoming: Vec<GlossaryTerm>) -> (r: (
    Vec<GlossaryTerm>,
    usize,
    usize,
    Vec<GlossaryTerm>,
))
    ensures
        r.3@ == new_terms(keys_of(existing@), incoming@),
        r.0@ == dedupe_spec(existing@ + r.3@),
        r.1 == r.3@.len(),
        r.1 + r.2 == incoming@.len(),
{
    let ghost known = keys_of(existing@);
    let mut seen: Vec<String> = Vec::new();
    let mut j: usize = 0;
    while j < existing.len()
        invariant
            j <= existing.len(),
            known == keys_of(existing@),
            views(seen@) == known.take(j as int),
        decreases existing.len() - j,
    {
        let key = glossary_term_key(&existing[j]);
        let ghost old_seen = seen@;
        seen.push(key);
        assert(known[j as int] == key@);
        assert(views(seen@) =~= views(old_seen).push(key@));
        assert(views(seen@) =~= known.take(j + 1));
        j = j + 1;
    }
    assert(known.take(existing.len() as int) =~= known);
    let mut result = existing;
    let ghost base = result@;
    let mut added: usize = 0;
    let mut skipped: usize = 0;
    let mut added_terms: Vec<GlossaryTerm> = Vec::new();
    let mut i: usize = 0;
    assert(known + keys_of(added_terms@) =~= known);
    while i < incoming.len()
        invariant
            i <= incoming.len(),
            known == keys_of(base),
            added_terms@ == new_terms(known, incoming@.take(i as int)),
            result@ == base + added_terms@,
            views(seen@) == known + keys_of(added_terms@),
            added == added_terms@.len(),
            added + skipped == i,
        decreases incoming.len() - i,
    {
        let key = glossary_term_key(&incoming[i]);
        let ghost p = incoming@.take(i as int);
        proof {
            assert(incoming@.take(i + 1).drop_last() =~= p);
            assert(incoming@.take(i + 1).last() == incoming@[i as int]);
            lemma_new_terms_key(known, p, key@);
        }
        let ghost t = incoming@.take(i + 1);
        proof {
            assert(t.drop_last() == p);
            assert(t.last() == incoming@[i as int]);
            assert(term_key(t.last()) == key@);
            assert((known + keys_of(added_terms@)).contains(key@) <==> (known.contains(key@)
                || keys_of(p).contains(key@)));
        }
        if contains_string(&seen, &key) {
            assert(new_terms(known, t) == new_terms(known, p));
            skipped = skipped + 1;
        } else {
            assert(new_terms(known, t) == new_terms(known, p).push(incoming@[i as int]));
            proof {
                lemma_keys_of_push(added_terms@, incoming@[i as int]);
                assert(views(seen@.push(key)) =~= views(seen@).push(key@));
                assert(known + keys_of(added_terms@).push(key@) =~= (known + keys_of(added_terms@)).push(key@));
            }
            seen.push(key);
            result.push(incoming[i].clone());
            added_terms.push(incoming[i].clone());
            added = added + 1;
        }
        i = i + 1;
    }
    assert(incoming@.take(incoming.len() as int) =~= incoming@);
    dedupe_terms(&mut result);
    (result, added, skipped, added_terms)
}

/// The mode a `glossary_injection` setting names: `full` (in any case,
/// surrounded by any whitespace) is `Full`; everything else is `Smart`.
pub open spec fn injection_mode_of(value: Seq<char>) -> InjectionMode {
    if lowercase(trim(value)) == "full"@ {
        InjectionMode::Full
    } else {
        InjectionMode::Smart
    }
}

/// Reads an injection mode; unknown values read as `Smart`.
pub fn parse_injection_mode(value: &str) -> (r: InjectionMode)
    ensures
        r == injection_mode_of(value@),
{
    let trimmed = trim_str(value);
    let normalized = to_lowercase(trimmed.as_str());
    if crate::strmap::str_eq(normalized.as_str(), "full") {
        InjectionMode::Full
    } else {
        InjectionMode::Smart
    }
}

impl std::str::FromStr for InjectionMode {
    type Err = std::convert::Infallible;

    fn from_str(value: &str) -> (r: Result<Self, Self::Err>)
        ensures
            r == Ok::<InjectionMode, std::convert::Infallible>(injection_mode_of(value@)),
    {
        Ok(parse_injection_mode(value))
    }
}

/// The warning for an unrecognised injection setting.
pub open spec fn unknown_injection_message(value: Seq<char>) -> Seq<char> {
    "Unknown glossary_injection '"@ + value + "', using 'smart'."@
}

/// The message for the deprecated book setting `full`.
pub open spec fn full_injection_deprecated_message() -> Seq<char> {
    "Book config glossary_injection 'full' is deprecated; using 'smart' with per-chapter fallback to full."@
}

/// The warning that reading `value` as an injection mode gives, if any:
/// none for `full`, `smart` and an empty setting.
pub fn injection_mode_warning(value: &str) -> (r: Option<String>)
    ensures
        (lowercase(trim(value@)) == "full"@ || lowercase(trim(value@)) == "smart"@
            || lowercase(trim(value@)).len() == 0) ==> r.is_none(),
        !(lowercase(trim(value@)) == "full"@ || lowercase(trim(value@)) == "smart"@
            || lowercase(trim(value@)).len() == 0) ==> r.is_some() && r.unwrap()@
            == unknown_injection_message(value@),
{
    let trimmed = trim_str(value);
    let normalized = to_lowercase(trimmed.as_str());
    proof {
        reveal_strlit("full");
        reveal_strlit("smart");
        assert("full"@[0] != "smart"@[0]);
        assert("full"@.len() != 0);
    }
    if crate::strmap::str_eq(normalized.as_str(), "full") || crate::strmap::str_eq(
        normalized.as_str(),
        "smart",
    ) || normalized.as_str().is_empty() {
        None
    } else {
        Some(unknown_injection_warning(value))
    }
}

fn unknown_injection_warning(value: &str) -> (r: String)
    ensures
        r@ == unknown_injection_message(value@),
{
    let mut m = lit("Unknown glossary_injection '");
    m.append(value);
    m.append("', using 'smart'.");
    m
}

/// The injection mode of a book's configuration: always `Smart`, since a
/// configured `full` now means smart selection with a per-chapter fallback.
pub fn book_config_injection_mode(value: &str) -> (r: InjectionMode)
    ensures
        r == InjectionMode::Smart,
{
    InjectionMode::Smart
}

/// The warning that [`book_config_injection_mode`] gives for `value`, if
/// any: none for `smart` or an empty setting, a deprecation notice for
/// `full`, and an unknown-value notice otherwise.
pub fn book_config_injection_warning(value: &str) -> (r: Option<String>)
    ensures
        (lowercase(trim(value@)) == "smart"@ || lowercase(trim(value@)).len() == 0) ==> r.is_none(),
        lowercase(trim(value@)) == "full"@ ==> r.is_some() && r.unwrap()@
            == full_injection_deprecated_message(),
        !(lowercase(trim(value@)) == "full"@ || lowercase(trim(value@)) == "smart"@
            || lowercase(trim(value@)).len() == 0) ==> r.is_some() && r.unwrap()@
            == unknown_injection_message(value@),
{
    let trimmed = trim_str(value);
    let normalized = to_lowercase(trimmed.as_str());
    proof {
        reveal_strlit("full");
        reveal_strlit("smart");
        assert("full"@[0] != "smart"@[0]);
        assert("full"@.len() != 0);
    }
    if crate::strmap::str_eq(normalized.as_str(), "smart") || normalized.as_str().is_empty() {
        assert(lowercase(trim(value@)) != "full"@);
        None
    } else if crate::strmap::str_eq(normalized.as_str(), "full") {
        assert(lowercase(trim(value@)) == "full"@);
        let m = lit(
            "Book config glossary_injection 'full' is deprecated; using 'smart' with per-chapter fallback to full.",
        );
        assert(m@ == full_injection_deprecated_message());
        Some(m)
    } else {
        Some(unknown_injection_warning(value))
    }
}

/// A lower-case hexadecimal digit for `n < 16`.
pub open spec fn hex_lower(n: int) -> char {
    if n < 10 {
        (48 + n) as char
    } else {
        (87 + n) as char
    }
}

/// How `serde_json` writes one character inside a JSON string: `"` and `\`
/// behind a backslash; backspace, tab, line feed, form feed and carriage
/// return as `\b`, `\t`, `\n`, `\f`, `\r`; the other control characters
/// below U+0020 as `\u00` and two lower-case hex digits; every other
/// character as itself.
pub open spec fn json_char(c: char) -> Seq<char> {
    let n = c as int;
    if c == '"' {
        seq!['\\', '"']
    } else if c == '\\' {
        seq!['\\', '\\']
    } else if n == 8 {
        seq!['\\', 'b']
    } else if n == 9 {
        seq!['\\', 't']
    } else if n == 10 {
        seq!['\\', 'n']
    } else if n == 12 {
        seq!['\\', 'f']
    } else if n == 13 {
        seq!['\\', 'r']
    } else if n < 32 {
        seq!['\\', 'u', '0', '0', hex_lower(n / 16), hex_lower(n % 16)]
    } else {
        seq![c]
    }
}

/// The characters of a text, each written as inside a JSON string.
pub open spec fn json_escaped(s: Seq<char>) -> Seq<char>
    decreases s.len(),
{
    if s.len() == 0 {
        Seq::empty()
    } else {
        json_escaped(s.drop_last()) + json_char(s.last())
    }
}

/// The JSON text of a string, as `serde_json` writes it: the escaped
/// characters between double quotes.
pub open spec fn json_string(s: Seq<char>) -> Seq<char> {
    seq!['"'] + json_escaped(s) + seq!['"']
}

/// `serde_json::to_string` on a string slice: the quoted, escaped JSON
/// string, as its string formatter writes it (the escape table and the
/// compact formatter of `ser.rs`). Serialising a `str` into memory cannot
/// fail, so the error arm is never taken.
#[verifier::external_body]
fn json_quote(s: &str) -> (r: String)
    ensures
        r@ == json_string(s@),
{
    match serde_json::to_string(s) {
        Ok(v) => v,
        Err(_) => String::new(),
    }
}

/// The fingerprint of what a term puts into a prompt: the compact JSON
/// object of its term, original (when present) and definition.
pub open spec fn prompt_fingerprint(t: GlossaryTerm) -> Seq<char> {
    "{\"term\":"@ + json_string(t.term@) + match t.og_term {
        Some(o) => ",\"og_term\":"@ + json_string(o@),
        None => Seq::empty(),
    } + ",\"definition\":"@ + json_string(t.definition@) + "}"@
}

/// The prompt fingerprint of a term (its notes play no part).
pub fn glossary_term_prompt_fingerprint(term: &GlossaryTerm) -> (r: String)
    ensures
        r@ == prompt_fingerprint(*term),
{
    let mut out = lit("{\"term\":");
    let t = json_quote(term.term.as_str());
    out.append(t.as_str());
    match &term.og_term {
        Some(o) => {
            out.append(",\"og_term\":");
            let q = json_quote(o.as_str());
            out.append(q.as_str());
        },
        None => {},
    }
    out.append(",\"definition\":");
    let d = json_quote(term.definition.as_str());
    out.append(d.as_str());
    out.append("}");
    out
}

/// The outcome of choosing the terms for one text.
pub struct SelectionResult {
    pub terms: Vec<GlossaryTerm>,
    pub total_count: usize,
    pub selected_count: usize,
    pub used_fallback_to_full: bool,
}

/// Fewer matched terms than this make smart selection fall back to all.
pub const MIN_GLOSSARY_MATCHES: usize = 5;

/// The n-gram sizes for matching originals.
pub open spec fn match_sizes() -> Seq<usize> {
    seq![2usize, 3usize, 4usize]
}

/// A term's original, trimmed (empty when it has none).
pub open spec fn og_trimmed(t: GlossaryTerm) -> Seq<char> {
    match t.og_term {
        Some(o) => trim(o@),
        None => Seq::empty(),
    }
}

/// The distinct non-empty trimmed originals of `terms`, in order of first
/// appearance.
pub open spec fn unique_ogs(terms: Seq<GlossaryTerm>) -> Seq<Seq<char>>
    decreases terms.len(),
{
    if terms.len() == 0 {
        Seq::empty()
    } else {
        let u = unique_ogs(terms.drop_last());
        let o = og_trimmed(terms.last());
        if o.len() == 0 || u.contains(o) {
            u
        } else {
            u.push(o)
        }
    }
}

/// Every character of `s` is ASCII.
pub open spec fn all_ascii(s: Seq<char>) -> bool {
    forall|i: int| 0 <= i < s.len() ==> (#[trigger] s[i] as u32) < 128
}

/// The window `text[st..st + l]` is a candidate (it holds a non-ASCII
/// character) whose closest original is `u[j]`.
pub open spec fn window_hits(text: Seq<char>, u: Seq<Seq<char>>, st: int, l: int, j: int) -> bool {
    &&& 0 <= st
    &&& st + l <= text.len()
    &&& !all_ascii(text.subrange(st, st + l))
    &&& closest_index(u, match_sizes(), text.subrange(st, st + l)) == Some(j)
}

/// Original `u[j]` is matched in `text`: it occurs in the text, and some
/// window of 3 to 6 characters with a non-ASCII character is closest to it.
pub open spec fn og_hit(text: Seq<char>, u: Seq<Seq<char>>, j: int) -> bool {
    &&& contains(text, u[j])
    &&& exists|st: int, l: int| 3 <= l <= 6 && #[trigger] window_hits(text, u, st, l, j)
}

/// Term `i` is selected for `text`: it has no original, or its original is
/// matched.
pub open spec fn term_selected(terms: Seq<GlossaryTerm>, text: Seq<char>, i: int) -> bool {
    let o = og_trimmed(terms[i]);
    let u = unique_ogs(terms);
    o.len() == 0 || exists|j: int| 0 <= j < u.len() && u[j] == o && #[trigger] og_hit(text, u, j)
}

/// The selected terms among the first `n`, in order.
pub open spec fn selected_upto(terms: Seq<GlossaryTerm>, text: Seq<char>, n: int) -> Seq<GlossaryTerm>
    decreases n,
{
    if n <= 0 {
        Seq::empty()
    } else if term_selected(terms, text, n - 1) {
        selected_upto(terms, text, n - 1).push(terms[n - 1])
    } else {
        selected_upto(terms, text, n - 1)
    }
}

/// The terms smart selection picks for `text`.
pub open spec fn smart_selected(terms: Seq<GlossaryTerm>, text: Seq<char>) -> Seq<GlossaryTerm> {
    selected_upto(terms, text, terms.len() as int)
}

/// Smart selection gives up and uses every term: when no term has an
/// original, or fewer than [`MIN_GLOSSARY_MATCHES`] terms are selected.
pub open spec fn smart_falls_back(terms: Seq<GlossaryTerm>, text: Seq<char>) -> bool {
    unique_ogs(terms).len() == 0 || smart_selected(terms, text).len() < MIN_GLOSSARY_MATCHES
}

pub proof fn lemma_unique_ogs(terms: Seq<GlossaryTerm>)
    ensures
        unique_ogs(terms).no_duplicates(),
        forall|i: int| 0 <= i < terms.len() && og_trimmed(#[trigger] terms[i]).len() > 0 ==> unique_ogs(terms).contains(og_trimmed(terms[i])),
        unique_ogs(terms).len() <= terms.len(),
    decreases terms.len(),
{
    if terms.len() > 0 {
        let p = terms.drop_last();
        lemma_unique_ogs(p);
        let u = unique_ogs(p);
        let o = og_trimmed(terms.last());
        assert forall|i: int| 0 <= i < terms.len() && og_trimmed(#[trigger] terms[i]).len() > 0 implies unique_ogs(terms).contains(og_trimmed(terms[i])) by {
            if i < p.len() {
                assert(p[i] == terms[i]);
                assert(u.contains(og_trimmed(p[i])));
                lemma_push_contains(u, o, og_trimmed(p[i]));
            } else {
                lemma_push_contains(u, o, o);
            }
        }
    }
}

/// A copy of a list of terms.
pub fn copy_terms(terms: &[GlossaryTerm]) -> (r: Vec<GlossaryTerm>)
    ensures
        r@ == terms@,
{
    let mut r: Vec<GlossaryTerm> = Vec::new();
    let mut i: usize = 0;
    while i < terms.len()
        invariant
            i <= terms.len(),
            r@ == terms@.take(i as int),
        decreases terms.len() - i,
    {
        r.push(terms[i].clone());
        i = i + 1;
        assert(r@ =~= terms@.take(i as int));
    }
    assert(terms@.take(terms.len() as int) =~= terms@);
    r
}

/// Whether every character of `v` is ASCII.
fn all_ascii_exec(v: &Vec<char>) -> (r: bool)
    ensures
        r == all_ascii(v@),
{
    let mut i: usize = 0;
    while i < v.len()
        invariant
            i <= v.len(),
            forall|k: int| 0 <= k < i ==> (#[trigger] v@[k] as u32) < 128,
        decreases v.len() - i,
    {
        if (v[i] as u32) >= 128 {
            return false;
        }
        i = i + 1;
    }
    true
}

/// The trimmed original of a term.
fn og_trimmed_exec(t: &GlossaryTerm) -> (r: String)
    ensures
        r@ == og_trimmed(*t),
{
    match &t.og_term {
        Some(o) => trim_str(o.as_str()),
        None => String::new(),
    }
}

/// The distinct non-empty trimmed originals of `terms`.
fn unique_og_terms(terms: &[GlossaryTerm]) -> (r: Vec<String>)
    ensures
        views(r@) == unique_ogs(terms@),
{
    let mut u: Vec<String> = Vec::new();
    let mut i: usize = 0;
    while i < terms.len()
        invariant
            i <= terms.len(),
            views(u@) == unique_ogs(terms@.take(i as int)),
        decreases terms.len() - i,
    {
        let o = og_trimmed_exec(&terms[i]);
        proof {
            assert(terms@.take(i + 1).drop_last() =~= terms@.take(i as int));
            assert(terms@.take(i + 1).last() == terms@[i as int]);
        }
        if !o.as_str().is_empty() && !contains_string(&u, &o) {
            proof {
                assert(views(u@.push(o)) =~= views(u@).push(o@));
            }
            u.push(o);
        }
        i = i + 1;
    }
    assert(terms@.take(terms.len() as int) =~= terms@);
    u
}

/// The position of `s` in `v`, if it is there.
fn position_of(v: &Vec<String>, s: &String) -> (r: Option<usize>)
    ensures
        match r {
            Some(j) => j < v.len() && v@[j as int]@ == s@,
            None => !views(v@).contains(s@),
        },
{
    let mut i: usize = 0;
    while i < v.len()
        invariant
            i <= v.len(),
            forall|k: int| 0 <= k < i ==> v@[k]@ != s@,
        decreases v.len() - i,
    {
        if v[i] == *s {
            return Some(i);
        }
        i = i + 1;
    }
    proof {
        if views(v@).contains(s@) {
            let k = choose|k: int| 0 <= k < views(v@).len() && views(v@)[k] == s@;
            assert(v@[k]@ == s@);
        }
    }
    None
}

/// For each original of `u`, whether it is matched in `text`.
fn matched_originals(u: &Vec<String>, text: &str) -> (hit: Vec<bool>)
    ensures
        hit@.len() == u@.len(),
        forall|j: int| 0 <= j < u@.len() ==> hit@[j] == og_hit(text@, views(u@), j),
{
    let ghost uv = views(u@);
    let sizes: Vec<usize> = vec![2, 3, 4];
    assert(sizes@ =~= match_sizes());
    let mut refs: Vec<&str> = Vec::new();
    let mut q: usize = 0;
    while q < u.len()
        invariant
            q <= u.len(),
            refs@.len() == q,
            strs_view(refs@) == uv.take(q as int),
            uv == views(u@),
        decreases u.len() - q,
    {
        let r = u[q].as_str();
        refs.push(r);
        assert(refs@[q as int]@ == uv[q as int]);
        q = q + 1;
        assert(strs_view(refs@) =~= uv.take(q as int));
    }
    assert(uv.take(u.len() as int) =~= uv);
    let matcher = ClosestMatch::new(refs.as_slice(), sizes.as_slice());
    let tv = chars_of(text);
    let n = tv.len();
    let mut found: Vec<bool> = Vec::new();
    let mut occurs: Vec<bool> = Vec::new();
    let mut j: usize = 0;
    while j < u.len()
        invariant
            j <= u.len(),
            uv == views(u@),
            tv@ == text@,
            found@.len() == j,
            occurs@.len() == j,
            forall|k: int| 0 <= k < j ==> !#[trigger] found@[k],
            forall|k: int| 0 <= k < j ==> #[trigger] occurs@[k] == contains(text@, uv[k]),
        decreases u.len() - j,
    {
        let uj = chars_of(u[j].as_str());
        occurs.push(crate::text::contains_exec(&tv, &uj));
        found.push(false);
        j = j + 1;
    }
    let mut st: usize = 0;
    while st < n
        invariant
            st <= n == tv.len(),
            tv@ == text@,
            uv == views(u@),
            matcher.terms() == uv,
            matcher.sizes() == match_sizes(),
            found@.len() == u@.len(),
            occurs@.len() == u@.len(),
            forall|k: int| 0 <= k < u@.len() ==> #[trigger] occurs@[k] == contains(text@, uv[k]),
            forall|k: int| 0 <= k < u@.len() ==> #[trigger] found@[k] == exists|s2: int, l2: int| 3 <= l2 <= 6 && s2 < st && #[trigger] window_hits(text@, uv, s2, l2, k),
        decreases n - st,
    {
        let mut l: usize = 3;
        while l <= 6
            invariant
                st < n == tv.len(),
                3 <= l <= 7,
                tv@ == text@,
                uv == views(u@),
                matcher.terms() == uv,
                matcher.sizes() == match_sizes(),
                found@.len() == u@.len(),
                forall|k: int| 0 <= k < u@.len() ==> #[trigger] found@[k] == exists|s2: int, l2: int| 3 <= l2 <= 6 && (s2 < st || (s2 == st && l2 < l)) && #[trigger] window_hits(text@, uv, s2, l2, k),
            decreases 7 - l,
        {
            let ghost before = found@;
            if l <= n - st {
                let w = crate::text::subvec(&tv, st, st + l);
                if !all_ascii_exec(&w) {
                    let cand = crate::text::string_from(&w);
                    match matcher.closest_position(cand.as_str()) {
                        Some(m) => {
                            found.set(m, true);
                        },
                        None => {},
                    }
                }
            }
            proof {
                assert forall|k: int| 0 <= k < u@.len() implies #[trigger] found@[k] == exists|s2: int, l2: int| 3 <= l2 <= 6 && (s2 < st || (s2 == st && l2 < l + 1)) && #[trigger] window_hits(text@, uv, s2, l2, k) by {
                    let now = window_hits(text@, uv, st as int, l as int, k);
                    if now {
                        assert(3 <= l <= 6 && (st < st || (st == st && l < l + 1)) && window_hits(text@, uv, st as int, l as int, k));
                    }
                    if exists|s2: int, l2: int| 3 <= l2 <= 6 && (s2 < st || (s2 == st && l2 < l + 1)) && #[trigger] window_hits(text@, uv, s2, l2, k) {
                        let (s2, l2) = choose|s2: int, l2: int| 3 <= l2 <= 6 && (s2 < st || (s2 == st && l2 < l + 1)) && #[trigger] window_hits(text@, uv, s2, l2, k);
                        if !(s2 == st && l2 == l) {
                            assert(before[k]);
                        }
                    }
                    if before[k] {
                        let (s2, l2) = choose|s2: int, l2: int| 3 <= l2 <= 6 && (s2 < st || (s2 == st && l2 < l)) && #[trigger] window_hits(text@, uv, s2, l2, k);
                        assert(3 <= l2 <= 6 && (s2 < st || (s2 == st && l2 < l + 1)) && window_hits(text@, uv, s2, l2, k));
                    }
                }
            }
            l = l + 1;
        }
        proof {
            assert forall|k: int| 0 <= k < u@.len() implies #[trigger] found@[k] == exists|s2: int, l2: int| 3 <= l2 <= 6 && s2 < st + 1 && #[trigger] window_hits(text@, uv, s2, l2, k) by {
                if exists|s2: int, l2: int| 3 <= l2 <= 6 && s2 < st + 1 && #[trigger] window_hits(text@, uv, s2, l2, k) {
                    let (s2, l2) = choose|s2: int, l2: int| 3 <= l2 <= 6 && s2 < st + 1 && #[trigger] window_hits(text@, uv, s2, l2, k);
                    assert(3 <= l2 <= 6 && (s2 < st || (s2 == st && l2 < 7)) && window_hits(text@, uv, s2, l2, k));
                }
                if found@[k] {
                    let (s2, l2) = choose|s2: int, l2: int| 3 <= l2 <= 6 && (s2 < st || (s2 == st && l2 < 7)) && #[trigger] window_hits(text@, uv, s2, l2, k);
                    assert(3 <= l2 <= 6 && s2 < st + 1 && window_hits(text@, uv, s2, l2, k));
                }
            }
        }
        st = st + 1;
    }
    let mut hit: Vec<bool> = Vec::new();
    let mut k: usize = 0;
    while k < u.len()
        invariant
            k <= u.len(),
            uv == views(u@),
            n == text@.len(),
            found@.len() == u@.len(),
            occurs@.len() == u@.len(),
            hit@.len() == k,
            forall|q: int| 0 <= q < u@.len() ==> #[trigger] occurs@[q] == contains(text@, uv[q]),
            forall|q: int| 0 <= q < u@.len() ==> #[trigger] found@[q] == exists|s2: int, l2: int| 3 <= l2 <= 6 && s2 < n && #[trigger] window_hits(text@, uv, s2, l2, q),
            forall|q: int| 0 <= q < k ==> #[trigger] hit@[q] == og_hit(text@, uv, q),
        decreases u.len() - k,
    {
        proof {
            if exists|s2: int, l2: int| 3 <= l2 <= 6 && #[trigger] window_hits(text@, uv, s2, l2, k as int) {
                let (s2, l2) = choose|s2: int, l2: int| 3 <= l2 <= 6 && #[trigger] window_hits(text@, uv, s2, l2, k as int);
                assert(3 <= l2 <= 6 && s2 < n && window_hits(text@, uv, s2, l2, k as int));
            }
        }
        hit.push(occurs[k] && found[k]);
        k = k + 1;
    }
    hit
}

fn select_terms_smart(all_terms: &[GlossaryTerm], text: &str) -> (r: SelectionResult)
    ensures
        r.total_count == all_terms@.len(),
        r.used_fallback_to_full == smart_falls_back(all_terms@, text@),
        r.used_fallback_to_full ==> r.terms@ == all_terms@,
        !r.used_fallback_to_full ==> r.terms@ == smart_selected(all_terms@, text@),
        r.selected_count == r.terms@.len(),
{
    let u = unique_og_terms(all_terms);
    if u.len() == 0 {
        let terms = copy_terms(all_terms);
        return SelectionResult {
            terms,
            total_count: all_terms.len(),
            selected_count: all_terms.len(),
            used_fallback_to_full: true,
        };
    }
    let ghost uv = views(u@);
    proof {
        lemma_unique_ogs(all_terms@);
    }
    let hit = matched_originals(&u, text);
    let mut selected: Vec<GlossaryTerm> = Vec::new();
    let mut i: usize = 0;
    while i < all_terms.len()
        invariant
            i <= all_terms.len(),
            uv == views(u@),
            uv == unique_ogs(all_terms@),
            uv.no_duplicates(),
            forall|q: int| 0 <= q < all_terms@.len() && og_trimmed(#[trigger] all_terms@[q]).len() > 0 ==> uv.contains(og_trimmed(all_terms@[q])),
            hit@.len() == u@.len(),
            forall|j: int| 0 <= j < u@.len() ==> hit@[j] == og_hit(text@, uv, j),
            selected@ == selected_upto(all_terms@, text@, i as int),
        decreases all_terms.len() - i,
    {
        let o = og_trimmed_exec(&all_terms[i]);
        let pick = if o.as_str().is_empty() {
            true
        } else {
            match position_of(&u, &o) {
                Some(j) => {
                    proof {
                        assert(uv[j as int] == o@);
                        if term_selected(all_terms@, text@, i as int) {
                            let j2 = choose|j2: int| 0 <= j2 < uv.len() && uv[j2] == o@ && #[trigger] og_hit(text@, uv, j2);
                            if j2 != j {
                                assert(uv[j2] == uv[j as int]);
                            }
                        }
                    }
                    hit[j]
                },
                None => {
                    proof {
                        assert(uv.contains(og_trimmed(all_terms@[i as int])));
                    }
                    false
                },
            }
        };
        assert(pick == term_selected(all_terms@, text@, i as int));
        if pick {
            selected.push(all_terms[i].clone());
        }
        i = i + 1;
    }
    if selected.len() < MIN_GLOSSARY_MATCHES {
        let terms = copy_terms(all_terms);
        return SelectionResult {
            terms,
            total_count: all_terms.len(),
            selected_count: all_terms.len(),
            used_fallback_to_full: true,
        };
    }
    let count = selected.len();
    SelectionResult {
        terms: selected,
        total_count: all_terms.len(),
        selected_count: count,
        used_fallback_to_full: false,
    }
}

/// The terms [`select_terms_for_text`] chooses.
pub open spec fn selection_terms(terms: Seq<GlossaryTerm>, text: Seq<char>, mode: InjectionMode) -> Seq<GlossaryTerm> {
    if mode == InjectionMode::Full || smart_falls_back(terms, text) {
        terms
    } else {
        smart_selected(terms, text)
    }
}

/// Whether [`select_terms_for_text`] falls back to every term.
pub open spec fn selection_fallback(terms: Seq<GlossaryTerm>, text: Seq<char>, mode: InjectionMode) -> bool {
    mode == InjectionMode::Smart && smart_falls_back(terms, text)
}

/// Chooses the glossary terms to put into the prompt for `text`: all of
/// them in `Full` mode; in `Smart` mode the terms without an original and
/// those whose original the text matches, unless that leaves too few.
pub fn select_terms_for_text(all_terms: &[GlossaryTerm], text: &str, mode: InjectionMode) -> (r:
    SelectionResult)
    ensures
        r.total_count == all_terms@.len(),
        r.selected_count == r.terms@.len(),
        mode == InjectionMode::Full ==> r.terms@ == all_terms@ && !r.used_fallback_to_full,
        mode == InjectionMode::Smart ==> r.used_fallback_to_full == smart_falls_back(all_terms@, text@),
        mode == InjectionMode::Smart && r.used_fallback_to_full ==> r.terms@ == all_terms@,
        mode == InjectionMode::Smart && !r.used_fallback_to_full ==> r.terms@ == smart_selected(all_terms@, text@),
        r.terms@ == selection_terms(all_terms@, text@, mode),
        r.used_fallback_to_full == selection_fallback(all_terms@, text@, mode),
{
    match mode {
        InjectionMode::Full => {
            let terms = copy_terms(all_terms);
            SelectionResult {
                terms,
                total_count: all_terms.len(),
                selected_count: all_terms.len(),
                used_fallback_to_full: false,
            }
        },
        InjectionMode::Smart => select_terms_smart(all_terms, text),
    }
}


/// Keys of a concatenation.
proof fn lemma_keys_of_add(a: Seq<GlossaryTerm>, b: Seq<GlossaryTerm>)
    ensures
        keys_of(a + b) == keys_of(a) + keys_of(b),
{
    assert(keys_of(a + b) =~= keys_of(a) + keys_of(b));
}

/// A sequence whose keys are all distinct is its own deduplication.
proof fn lemma_dedupe_of_unique(s: Seq<GlossaryTerm>)
    requires
        keys_of(s).no_duplicates(),
    ensures
        dedupe_spec(s) == s,
    decreases s.len(),
{
    if s.len() > 0 {
        let p = s.drop_last();
        let l = s.last();
        assert(s =~= p.push(l));
        lemma_keys_of_push(p, l);
        assert(keys_of(p) =~= keys_of(s).drop_last());
        lemma_dedupe_of_unique(p);
        if keys_of(p).contains(term_key(l)) {
            let i = choose|i: int| 0 <= i < keys_of(p).len() && keys_of(p)[i] == term_key(l);
            assert(keys_of(s)[i] == keys_of(s)[s.len() - 1]);
        }
    }
}

/// When every key of `incoming` is known, nothing of it is new.
proof fn lemma_new_terms_of_known(known: Seq<Seq<char>>, incoming: Seq<GlossaryTerm>)
    requires
        forall|k: Seq<char>| keys_of(incoming).contains(k) ==> known.contains(k),
    ensures
        new_terms(known, incoming).len() == 0,
    decreases incoming.len(),
{
    if incoming.len() > 0 {
        let p = incoming.drop_last();
        let l = incoming.last();
        assert(incoming =~= p.push(l));
        lemma_keys_of_push(p, l);
        assert forall|k: Seq<char>| keys_of(p).contains(k) implies known.contains(k) by {
            lemma_push_contains(keys_of(p), term_key(l), k);
        }
        lemma_push_contains(keys_of(p), term_key(l), term_key(l));
        lemma_new_terms_of_known(known, p);
    }
}

/// The added terms have distinct keys, none of them known, all from
/// `incoming`.
proof fn lemma_new_terms_unique(known: Seq<Seq<char>>, incoming: Seq<GlossaryTerm>)
    ensures
        keys_of(new_terms(known, incoming)).no_duplicates(),
        forall|k: Seq<char>|
            #[trigger] keys_of(new_terms(known, incoming)).contains(k) ==> !known.contains(k) && keys_of(
                incoming,
            ).contains(k),
    decreases incoming.len(),
{
    if incoming.len() > 0 {
        let p = incoming.drop_last();
        let l = incoming.last();
        let kl = term_key(l);
        lemma_new_terms_unique(known, p);
        assert(incoming =~= p.push(l));
        lemma_keys_of_push(p, l);
        let np = new_terms(known, p);
        assert forall|k: Seq<char>| keys_of(p).contains(k) implies keys_of(incoming).contains(k) by {
            lemma_push_contains(keys_of(p), kl, k);
        }
        if !(known.contains(kl) || keys_of(p).contains(kl)) {
            lemma_keys_of_push(np, l);
            assert forall|k: Seq<char>| #[trigger] keys_of(np.push(l)).contains(k) implies !known.contains(k)
                && keys_of(incoming).contains(k) by {
                lemma_push_contains(keys_of(np), kl, k);
                lemma_push_contains(keys_of(p), kl, k);
            }
            let ks = keys_of(np.push(l));
            assert forall|i: int, j: int| 0 <= i < ks.len() && 0 <= j < ks.len() && i != j implies ks[i] != ks[j] by {
                if i == np.len() {
                    assert(keys_of(np)[j] == ks[j]);
                    assert(keys_of(np).contains(ks[j]));
                } else if j == np.len() {
                    assert(keys_of(np)[i] == ks[i]);
                    assert(keys_of(np).contains(ks[i]));
                } else {
                    assert(keys_of(np)[i] == ks[i]);
                    assert(keys_of(np)[j] == ks[j]);
                }
            }
        }
    }
}

/// The glossary that merging `incoming` into `existing` gives.
pub open spec fn merged(existing: Seq<GlossaryTerm>, incoming: Seq<GlossaryTerm>) -> Seq<GlossaryTerm> {
    dedupe_spec(existing + new_terms(keys_of(existing), incoming))
}

/// Merging never leaves two terms with one key, loses no key of either
/// side, and adds no other key.
pub proof fn law_merge_keeps_keys_unique(existing: Seq<GlossaryTerm>, incoming: Seq<GlossaryTerm>)
    ensures
        keys_of(merged(existing, incoming)).no_duplicates(),
        forall|k: Seq<char>|
            #[trigger] keys_of(merged(existing, incoming)).contains(k) <==> (keys_of(existing).contains(k)
                || keys_of(incoming).contains(k)),
{
    let added = new_terms(keys_of(existing), incoming);
    lemma_dedupe_keys(existing + added);
    lemma_keys_of_add(existing, added);
    assert forall|k: Seq<char>|
        #[trigger] keys_of(merged(existing, incoming)).contains(k) <==> (keys_of(existing).contains(k)
            || keys_of(incoming).contains(k)) by {
        lemma_new_terms_key(keys_of(existing), incoming, k);
    }
}

/// A glossary without duplicate keys comes out of a merge with its terms
/// first and in order, followed by the added terms.
pub proof fn law_merge_appends_after_existing(existing: Seq<GlossaryTerm>, incoming: Seq<GlossaryTerm>)
    requires
        keys_of(existing).no_duplicates(),
    ensures
        merged(existing, incoming) == existing + new_terms(keys_of(existing), incoming),
{
    let added = new_terms(keys_of(existing), incoming);
    lemma_new_terms_unique(keys_of(existing), incoming);
    lemma_keys_of_add(existing, added);
    let ks = keys_of(existing + added);
    assert forall|i: int, j: int| 0 <= i < ks.len() && 0 <= j < ks.len() && i != j implies ks[i] != ks[j] by {
        if i < existing.len() && j >= existing.len() {
            lemma_new_terms_key(keys_of(existing), incoming, ks[j]);
            assert(keys_of(added)[j - existing.len()] == ks[j]);
            assert(keys_of(added).contains(ks[j]));
        } else if j < existing.len() && i >= existing.len() {
            assert(keys_of(added)[i - existing.len()] == ks[i]);
            assert(keys_of(added).contains(ks[i]));
        } else if i >= existing.len() && j >= existing.len() {
            assert(keys_of(added)[i - existing.len()] == ks[i]);
            assert(keys_of(added)[j - existing.len()] == ks[j]);
        } else {
            assert(keys_of(existing)[i] == ks[i]);
            assert(keys_of(existing)[j] == ks[j]);
        }
    }
    lemma_dedupe_of_unique(existing + added);
}

/// Merging the same terms a second time adds nothing.
pub proof fn law_merge_again_adds_nothing(existing: Seq<GlossaryTerm>, incoming: Seq<GlossaryTerm>)
    ensures
        new_terms(keys_of(merged(existing, incoming)), incoming).len() == 0,
        merged(merged(existing, incoming), incoming) == merged(existing, incoming),
{
    law_merge_keeps_keys_unique(existing, incoming);
    let m = merged(existing, incoming);
    assert forall|k: Seq<char>| keys_of(incoming).contains(k) implies keys_of(m).contains(k) by {}
    lemma_new_terms_of_known(keys_of(m), incoming);
    let none = new_terms(keys_of(m), incoming);
    assert(m + none =~= m);
    lemma_dedupe_of_unique(m);
}

/// Deduplicating twice is deduplicating once.
pub proof fn law_dedupe_idempotent(s: Seq<GlossaryTerm>)
    ensures
        dedupe_spec(dedupe_spec(s)) == dedupe_spec(s),
{
    lemma_dedupe_keys(s);
    lemma_dedupe_of_unique(dedupe_spec(s));
}


/// The terms selected among the first `n` are terms of `terms`, and each
/// selected one among them is there.
pub proof fn lemma_selected_upto_members(terms: Seq<GlossaryTerm>, text: Seq<char>, n: int)
    requires
        0 <= n <= terms.len(),
    ensures
        forall|j: int| 0 <= j < selected_upto(terms, text, n).len() ==> terms.contains(#[trigger] selected_upto(terms, text, n)[j]),
        forall|i: int| 0 <= i < n && term_selected(terms, text, i) ==> selected_upto(terms, text, n).contains(#[trigger] terms[i]),
    decreases n,
{
    if n > 0 {
        lemma_selected_upto_members(terms, text, n - 1);
        let prev = selected_upto(terms, text, n - 1);
        if term_selected(terms, text, n - 1) {
            let cur = prev.push(terms[n - 1]);
            assert(selected_upto(terms, text, n) == cur);
            assert forall|j: int| 0 <= j < cur.len() implies terms.contains(#[trigger] cur[j]) by {
                if j < prev.len() {
                    assert(cur[j] == prev[j]);
                } else {
                    assert(terms[n - 1] == cur[j]);
                }
            }
            assert forall|i: int| 0 <= i < n && term_selected(terms, text, i) implies cur.contains(#[trigger] terms[i]) by {
                lemma_push_contains(prev, terms[n - 1], terms[i]);
            }
        }
    }
}

/// Every selected term is a term of the glossary.
/// Each term smart selection picks among the first `n` is a selected term
/// among them.
proof fn lemma_selected_upto_origin(terms: Seq<GlossaryTerm>, text: Seq<char>, n: int, j: int)
    requires
        0 <= n <= terms.len(),
        0 <= j < selected_upto(terms, text, n).len(),
    ensures
        exists|i: int| 0 <= i < n && #[trigger] term_selected(terms, text, i) && selected_upto(terms, text, n)[j] == terms[i],
    decreases n,
{
    let prev = selected_upto(terms, text, n - 1);
    let cur = selected_upto(terms, text, n);
    if j < prev.len() {
        lemma_selected_upto_origin(terms, text, n - 1, j);
        let i = choose|i: int| 0 <= i < n - 1 && #[trigger] term_selected(terms, text, i) && prev[j] == terms[i];
        if term_selected(terms, text, n - 1) {
            assert(cur[j] == prev[j]);
        }
        assert(term_selected(terms, text, i) && cur[j] == terms[i]);
    } else {
        assert(term_selected(terms, text, n - 1));
        assert(cur[j] == terms[n - 1]);
    }
}

/// In smart mode, when selection does not fall back to every term, each
/// selected term that has an original (trimmed, non-empty) has that
/// original occurring in the text.
pub proof fn law_smart_selection_originals_occur(terms: Seq<GlossaryTerm>, text: Seq<char>)
    requires
        !selection_fallback(terms, text, InjectionMode::Smart),
    ensures
        forall|j: int|
            0 <= j < selection_terms(terms, text, InjectionMode::Smart).len() && og_trimmed(
                #[trigger] selection_terms(terms, text, InjectionMode::Smart)[j],
            ).len() > 0 ==> exists|p: int|
                0 <= p && p + og_trimmed(selection_terms(terms, text, InjectionMode::Smart)[j]).len() <= text.len()
                    && #[trigger] text.subrange(
                    p,
                    p + og_trimmed(selection_terms(terms, text, InjectionMode::Smart)[j]).len(),
                ) == og_trimmed(selection_terms(terms, text, InjectionMode::Smart)[j]),
{
    let sel = selection_terms(terms, text, InjectionMode::Smart);
    assert forall|j: int| 0 <= j < sel.len() && og_trimmed(#[trigger] sel[j]).len() > 0 implies exists|p: int|
        0 <= p && p + og_trimmed(sel[j]).len() <= text.len() && #[trigger] text.subrange(p, p + og_trimmed(sel[j]).len())
            == og_trimmed(sel[j]) by {
        lemma_selected_upto_origin(terms, text, terms.len() as int, j);
        let i = choose|i: int|
            0 <= i < terms.len() && #[trigger] term_selected(terms, text, i) && smart_selected(terms, text)[j] == terms[i];
        let o = og_trimmed(terms[i]);
        let u = unique_ogs(terms);
        let k = choose|k: int| 0 <= k < u.len() && u[k] == o && #[trigger] og_hit(text, u, k);
        let p = choose|p: int| crate::text::matches_at(text, u[k], p);
        assert(text.subrange(p, p + o.len()) == o);
    }
}

pub proof fn lemma_selection_members(terms: Seq<GlossaryTerm>, text: Seq<char>, mode: InjectionMode)
    ensures
        forall|j: int|
            0 <= j < selection_terms(terms, text, mode).len() ==> terms.contains(
                #[trigger] selection_terms(terms, text, mode)[j],
            ),
{
    lemma_selected_upto_members(terms, text, terms.len() as int);
    assert forall|j: int| 0 <= j < selection_terms(terms, text, mode).len() implies terms.contains(
        #[trigger] selection_terms(terms, text, mode)[j],
    ) by {
        if mode == InjectionMode::Full || smart_falls_back(terms, text) {
            assert(terms[j] == selection_terms(terms, text, mode)[j]);
        }
    }
}

/// Whatever the mode and the text, a term without an original is always
/// put into the prompt.
pub proof fn law_selection_keeps_terms_without_original(terms: Seq<GlossaryTerm>, text: Seq<char>, mode: InjectionMode)
    ensures
        forall|i: int|
            0 <= i < terms.len() && og_trimmed(#[trigger] terms[i]).len() == 0 ==> selection_terms(terms, text, mode).contains(
                terms[i],
            ),
{
    lemma_selected_upto_members(terms, text, terms.len() as int);
    assert forall|i: int| 0 <= i < terms.len() && og_trimmed(#[trigger] terms[i]).len() == 0 implies selection_terms(
        terms,
        text,
        mode,
    ).contains(terms[i]) by {
        if mode == InjectionMode::Full || smart_falls_back(terms, text) {
            assert(selection_terms(terms, text, mode)[i] == terms[i]);
        } else {
            assert(term_selected(terms, text, i));
        }
    }
}


/// How the glossary listing shows a term: `term [original]: definition`,
/// or `term: definition` without an original, the definition cut to 60
/// characters.
pub open spec fn entry_line_of(t: GlossaryTerm) -> Seq<char> {
    match t.og_term {
        Some(og) => t.term@ + " ["@ + og@ + "]: "@ + crate::text::preview_of(t.definition@, 60),
        None => t.term@ + ": "@ + crate::text::preview_of(t.definition@, 60),
    }
}

/// The listing line of a glossary term.
pub fn glossary_entry_line(term: &GlossaryTerm) -> (r: String)
    ensures
        r@ == entry_line_of(*term),
{
    let def = crate::text::preview(term.definition.as_str(), 60);
    let mut r = lit(term.term.as_str());
    match &term.og_term {
        Some(og) => {
            r.append(" [");
            r.append(og.as_str());
            r.append("]: ");
        },
        None => {
            r.append(": ");
        },
    }
    r.append(def.as_str());
    r
}

} // verus!
