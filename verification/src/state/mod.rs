//! What a book's translation runs record: run metadata, the glossary
//! baseline and each chapter's state, with the summaries computed from them.

use vstd::prelude::*;

use crate::glossary::InjectionMode;
use crate::strmap::StrMap;
use crate::text::{join, lit, push_char};
use crate::translate::types::TranslationUsage;

pub mod status;

verus! {

/// Version of the run metadata format.
pub const RUN_METADATA_VERSION: u32 = 1;

/// Version of the glossary state format.
pub const GLOSSARY_STATE_VERSION: u32 = 1;

/// A decimal digit.
pub open spec fn is_digit(c: char) -> bool {
    '0' <= c && c <= '9'
}

/// Every character is a decimal digit.
pub open spec fn all_digits(s: Seq<char>) -> bool {
    forall|i: int| 0 <= i < s.len() ==> is_digit(#[trigger] s[i])
}

/// Two digits, a separator and two digits: `HH:MM` and the like.
pub open spec fn two_pairs(s: Seq<char>, sep: char) -> bool {
    &&& s.len() == 5
    &&& is_digit(s[0]) && is_digit(s[1]) && s[2] == sep && is_digit(s[3]) && is_digit(s[4])
}

/// A date `YYYY-MM-DD`, the year four digits, or a sign and at least four
/// digits when it lies outside 0 to 9999.
pub open spec fn date_text(s: Seq<char>) -> bool {
    let y = s.subrange(0, s.len() - 6);
    &&& s.len() >= 10
    &&& s[s.len() - 6] == '-'
    &&& two_pairs(s.subrange(s.len() - 5, s.len() as int), '-')
    &&& ((y.len() == 4 && all_digits(y)) || (y.len() >= 5 && (y[0] == '+' || y[0] == '-') && all_digits(y.drop_first())))
}

/// A time `HH:MM:SS` with an optional fraction of a second (`.` and
/// digits).
pub open spec fn time_text(s: Seq<char>) -> bool {
    &&& s.len() >= 8
    &&& two_pairs(s.subrange(0, 5), ':')
    &&& s[5] == ':' && is_digit(s[6]) && is_digit(s[7])
    &&& (s.len() == 8 || (s.len() >= 10 && s[8] == '.' && all_digits(s.subrange(9, s.len() as int))))
}

/// An offset from UTC, `+HH:MM` or `-HH:MM`.
pub open spec fn offset_text(s: Seq<char>) -> bool {
    &&& s.len() == 6
    &&& (s[0] == '+' || s[0] == '-')
    &&& two_pairs(s.drop_first(), ':')
}

/// Date and time text in the RFC 3339 form that `chrono` writes, such as
/// `1996-12-19T16:39:57-08:00`: a date, `T`, a time and an offset.
pub open spec fn rfc3339_text(s: Seq<char>) -> bool {
    exists|d: int|
        #![trigger s.subrange(0, d)]
        0 <= d && d + 7 <= s.len() && s[d] == 'T' && date_text(s.subrange(0, d)) && time_text(
            s.subrange(d + 1, s.len() - 6),
        ) && offset_text(s.subrange(s.len() - 6, s.len() as int))
}

/// The current local time, `chrono::Local::now().to_rfc3339()`. Which
/// moment it gives depends on the clock, so only its form is stated: the
/// date and time text that `to_rfc3339` documents (its source writes the
/// offset as `+HH:MM` or `-HH:MM`, never `Z`).
#[verifier::external_body]
fn now_rfc3339() -> (r: String)
    ensures
        rfc3339_text(r@),
{
    chrono::Local::now().to_rfc3339()
}

/// The options a run was started with.
#[derive(Debug, Clone, Copy, PartialEq, Eq, Structural)]
pub struct RunOptions {
    pub overwrite: bool,
    pub fail_fast: bool,
    pub rerun: bool,
    pub rerun_affected_glossary: bool,
    pub rerun_affected_chapters: bool,
}

/// The record of a book's latest translation run.
#[derive(Debug, Clone)]
pub struct RunMetadata {
    pub version: u32,
    pub started_at: String,
    pub finished_at: Option<String>,
    pub updated_at: String,
    pub profile: String,
    pub provider: String,
    pub model: String,
    pub options: Option<RunOptions>,
}

impl RunMetadata {
    /// A run that starts now.
    pub fn new(profile: String, provider: String, model: String, options: Option<RunOptions>) -> (r:
        Self)
        ensures
            r.version == RUN_METADATA_VERSION,
            r.started_at@ == r.updated_at@,
            rfc3339_text(r.started_at@),
            r.finished_at.is_none(),
            r.profile == profile,
            r.provider == provider,
            r.model == model,
            r.options == options,
    {
        let now = now_rfc3339();
        RunMetadata {
            version: RUN_METADATA_VERSION,
            started_at: now.clone(),
            finished_at: None,
            updated_at: now,
            profile,
            provider,
            model,
            options,
        }
    }

    /// Records that the run was updated now; nothing else changes.
    pub fn touch(&mut self)
        ensures
            rfc3339_text(final(self).updated_at@),
            final(self).version == old(self).version,
            final(self).started_at == old(self).started_at,
            final(self).finished_at == old(self).finished_at,
            final(self).profile == old(self).profile,
            final(self).provider == old(self).provider,
            final(self).model == old(self).model,
            final(self).options == old(self).options,
    {
        self.updated_at = now_rfc3339();
    }

    /// Records that the run finished now: the finish time and the update
    /// time are the same moment; nothing else changes.
    pub fn mark_finished(&mut self)
        ensures
            final(self).finished_at.is_some(),
            final(self).finished_at.unwrap()@ == final(self).updated_at@,
            rfc3339_text(final(self).updated_at@),
            final(self).version == old(self).version,
            final(self).started_at == old(self).started_at,
            final(self).profile == old(self).profile,
            final(self).provider == old(self).provider,
            final(self).model == old(self).model,
            final(self).options == old(self).options,
    {
        let now = now_rfc3339();
        self.updated_at = now.clone();
        self.finished_at = Some(now);
    }
}

/// How the glossary was put into prompts.
pub type GlossaryInjectionMode = InjectionMode;

/// One term of the glossary baseline, with its prompt fingerprint.
#[derive(Debug, Clone)]
pub struct GlossaryStateTerm {
    pub term: String,
    pub og_term: Option<String>,
    pub definition: String,
    pub fingerprint: String,
}

/// The glossary as it stood when chapters were last brought up to date,
/// keyed by term key.
pub struct GlossaryState {
    pub version: u32,
    pub updated_at: String,
    pub injection_mode: GlossaryInjectionMode,
    pub terms: StrMap<GlossaryStateTerm>,
}

impl GlossaryState {
    /// A baseline recorded now.
    pub fn new(injection_mode: GlossaryInjectionMode, terms: StrMap<GlossaryStateTerm>) -> (r: Self)
        ensures
            r.version == GLOSSARY_STATE_VERSION,
            rfc3339_text(r.updated_at@),
            r.injection_mode == injection_mode,
            r.terms.map() == terms.map(),
            r.terms.keys() == terms.keys(),
    {
        GlossaryState {
            version: GLOSSARY_STATE_VERSION,
            updated_at: now_rfc3339(),
            injection_mode,
            terms,
        }
    }
}

/// A term that a chapter used or exported: its key and prompt fingerprint.
#[derive(Debug)]
pub struct ChapterGlossaryTerm {
    pub key: String,
    pub fingerprint: String,
}

impl Clone for ChapterGlossaryTerm {
    fn clone(&self) -> (r: Self)
        ensures
            r == *self,
    {
        ChapterGlossaryTerm { key: self.key.clone(), fingerprint: self.fingerprint.clone() }
    }
}

/// A copy of a list of chapter terms.
pub fn copy_chapter_terms(v: &Vec<ChapterGlossaryTerm>) -> (r: Vec<ChapterGlossaryTerm>)
    ensures
        r@ == v@,
{
    let mut r: Vec<ChapterGlossaryTerm> = Vec::new();
    let mut i: usize = 0;
    while i < v.len()
        invariant
            i <= v.len(),
            r@ == v@.take(i as int),
        decreases v.len() - i,
    {
        r.push(v[i].clone());
        i = i + 1;
        assert(r@ =~= v@.take(i as int));
    }
    assert(v@.take(v.len() as int) =~= v@);
    r
}

/// The glossary terms a chapter's translation was given.
#[derive(Debug, Clone)]
pub struct ChapterGlossaryUsage {
    pub injection_mode: GlossaryInjectionMode,
    pub used_fallback_to_full: bool,
    pub terms: Vec<ChapterGlossaryTerm>,
}

/// Where a chapter stands.
#[derive(Debug, Clone, Copy, PartialEq, Eq, Structural)]
pub enum ChapterStatus {
    Pending,
    Success,
    Failed,
    Skipped,
}

/// The recorded state of one chapter.
#[derive(Debug, Clone)]
pub struct ChapterState {
    pub chapter_path: String,
    pub status: ChapterStatus,
    pub error: Option<String>,
    pub translation_time_ms: Option<u64>,
    pub last_attempted: Option<String>,
    pub translation_usage: Option<TranslationUsage>,
    pub glossary_usage: Option<ChapterGlossaryUsage>,
    pub exported_terms: Vec<ChapterGlossaryTerm>,
    pub source_text_hash: Option<String>,
}

/// Two chapter states agree on everything but their glossary usage.
pub open spec fn same_except_usage(a: ChapterState, b: ChapterState) -> bool {
    &&& a.chapter_path == b.chapter_path
    &&& a.status == b.status
    &&& a.error == b.error
    &&& a.translation_time_ms == b.translation_time_ms
    &&& a.last_attempted == b.last_attempted
    &&& a.translation_usage == b.translation_usage
    &&& a.exported_terms@ == b.exported_terms@
    &&& a.source_text_hash == b.source_text_hash
}

impl ChapterState {
    /// This state with its glossary usage replaced; every other field is kept.
    pub fn with_glossary_usage(&self, usage: Option<ChapterGlossaryUsage>) -> (r: Self)
        ensures
            same_except_usage(r, *self),
            r.glossary_usage == usage,
    {
        ChapterState {
            chapter_path: self.chapter_path.clone(),
            status: self.status,
            error: crate::glossary::copy_opt(&self.error),
            translation_time_ms: self.translation_time_ms,
            last_attempted: crate::glossary::copy_opt(&self.last_attempted),
            translation_usage: self.translation_usage,
            glossary_usage: usage,
            exported_terms: copy_chapter_terms(&self.exported_terms),
            source_text_hash: crate::glossary::copy_opt(&self.source_text_hash),
        }
    }

    /// A chapter state attempted now.
    pub fn new(
        chapter_path: String,
        status: ChapterStatus,
        error: Option<String>,
        translation_time_ms: Option<u64>,
        translation_usage: Option<TranslationUsage>,
        glossary_usage: Option<ChapterGlossaryUsage>,
        exported_terms: Vec<ChapterGlossaryTerm>,
        source_text_hash: Option<String>,
    ) -> (r: Self)
        ensures
            r.chapter_path == chapter_path,
            r.status == status,
            r.error == error,
            r.translation_time_ms == translation_time_ms,
            r.last_attempted.is_some(),
            r.translation_usage == translation_usage,
            r.glossary_usage == glossary_usage,
            r.exported_terms == exported_terms,
            r.source_text_hash == source_text_hash,
    {
        ChapterState {
            chapter_path,
            status,
            error,
            translation_time_ms,
            last_attempted: Some(now_rfc3339()),
            translation_usage,
            glossary_usage,
            exported_terms,
            source_text_hash,
        }
    }
}

/// Counts of chapters by status.
#[derive(Debug, Clone, Copy, PartialEq, Eq, Structural)]
pub struct RunSummary {
    pub total: usize,
    pub success: usize,
    pub failed: usize,
    pub skipped: usize,
    pub pending: usize,
}

/// How many of `states` have status `s`.
pub open spec fn count_status(states: Seq<ChapterState>, s: ChapterStatus) -> nat
    decreases states.len(),
{
    if states.len() == 0 {
        0
    } else {
        count_status(states.drop_last(), s) + if states.last().status == s {
            1nat
        } else {
            0nat
        }
    }
}

pub proof fn lemma_count_status_sum(states: Seq<ChapterState>)
    ensures
        count_status(states, ChapterStatus::Success) + count_status(states, ChapterStatus::Failed)
            + count_status(states, ChapterStatus::Skipped) + count_status(
            states,
            ChapterStatus::Pending,
        ) == states.len(),
    decreases states.len(),
{
    if states.len() > 0 {
        lemma_count_status_sum(states.drop_last());
    }
}

/// Counts the chapters by status.
pub fn summarize_chapters(chapters: &StrMap<ChapterState>) -> (r: RunSummary)
    ensures
        r.total == chapters.values().len(),
        r.success == count_status(chapters.values(), ChapterStatus::Success),
        r.failed == count_status(chapters.values(), ChapterStatus::Failed),
        r.skipped == count_status(chapters.values(), ChapterStatus::Skipped),
        r.pending == count_status(chapters.values(), ChapterStatus::Pending),
        r.success + r.failed + r.skipped + r.pending == r.total,
{
    let ghost vs = chapters.values();
    let mut success: usize = 0;
    let mut failed: usize = 0;
    let mut skipped: usize = 0;
    let mut pending: usize = 0;
    let n = chapters.len();
    let mut i: usize = 0;
    while i < n
        invariant
            n == vs.len(),
            vs == chapters.values(),
            n == chapters.keys().len(),
            i <= n,
            success == count_status(vs.take(i as int), ChapterStatus::Success),
            failed == count_status(vs.take(i as int), ChapterStatus::Failed),
            skipped == count_status(vs.take(i as int), ChapterStatus::Skipped),
            pending == count_status(vs.take(i as int), ChapterStatus::Pending),
            success + failed + skipped + pending == i,
        decreases n - i,
    {
        let (_, state) = chapters.entry_at(i);
        proof {
            assert(vs.take(i + 1).drop_last() =~= vs.take(i as int));
            assert(vs.take(i + 1).last() == vs[i as int]);
        }
        match state.status {
            ChapterStatus::Success => success = success + 1,
            ChapterStatus::Failed => failed = failed + 1,
            ChapterStatus::Skipped => skipped = skipped + 1,
            ChapterStatus::Pending => pending = pending + 1,
        }
        i = i + 1;
    }
    assert(vs.take(n as int) =~= vs);
    proof {
        lemma_count_status_sum(vs);
    }
    RunSummary { total: n, success, failed, skipped, pending }
}

/// The positions, in key order, of the chapters that failed.
pub open spec fn failed_positions(states: Seq<ChapterState>) -> Seq<int>
    decreases states.len(),
{
    if states.len() == 0 {
        Seq::empty()
    } else if states.last().status == ChapterStatus::Failed {
        failed_positions(states.drop_last()).push(states.len() - 1)
    } else {
        failed_positions(states.drop_last())
    }
}

/// As many positions fail as chapters have the failed status.
proof fn lemma_failed_positions_len(states: Seq<ChapterState>)
    ensures
        failed_positions(states).len() == count_status(states, ChapterStatus::Failed),
    decreases states.len(),
{
    if states.len() > 0 {
        lemma_failed_positions_len(states.drop_last());
    }
}

/// The list of failed chapters has as many entries as the chapter summary
/// counts failed chapters.
pub proof fn law_failed_list_matches_summary(chapters: StrMap<ChapterState>)
    ensures
        failed_positions(chapters.values()).len() == count_status(chapters.values(), ChapterStatus::Failed),
{
    lemma_failed_positions_len(chapters.values());
}

/// The failed chapters, in key order, as (chapter path, state) pairs.
pub fn failed_chapters(chapters: &StrMap<ChapterState>) -> (r: Vec<(&String, &ChapterState)>)
    ensures
        r@.len() == failed_positions(chapters.values()).len(),
        forall|k: int|
            0 <= k < r@.len() ==> {
                let p = failed_positions(chapters.values())[k];
                &&& (#[trigger] r@[k]).0@ == chapters.keys()[p]
                &&& *r@[k].1 == chapters.values()[p]
            },
{
    let ghost vs = chapters.values();
    let ghost ks = chapters.keys();
    let mut r: Vec<(&String, &ChapterState)> = Vec::new();
    let n = chapters.len();
    let mut i: usize = 0;
    let ghost mut pos: Seq<int> = Seq::empty();
    while i < n
        invariant
            n == vs.len(),
            vs == chapters.values(),
            ks == chapters.keys(),
            n == ks.len(),
            i <= n,
            pos == failed_positions(vs.take(i as int)),
            r@.len() == pos.len(),
            forall|k: int|
                0 <= k < r@.len() ==> 0 <= #[trigger] pos[k] < i && r@[k].0@ == ks[pos[k]] && *r@[k].1
                    == vs[pos[k]],
        decreases n - i,
    {
        let (key, state) = chapters.entry_at(i);
        proof {
            assert(vs.take(i + 1).drop_last() =~= vs.take(i as int));
            assert(vs.take(i + 1).last() == vs[i as int]);
            assert(vs.take(i + 1).len() - 1 == i);
        }
        if state.status == ChapterStatus::Failed {
            let ghost old_r = r@;
            let ghost old_pos = pos;
            r.push((key, state));
            proof {
                pos = pos.push(i as int);
                assert forall|k: int| 0 <= k < r@.len() implies 0 <= #[trigger] pos[k] < i + 1 && r@[k].0@
                    == ks[pos[k]] && *r@[k].1 == vs[pos[k]] by {
                    if k < old_r.len() {
                        assert(r@[k] == old_r[k]);
                        assert(pos[k] == old_pos[k]);
                    }
                }
            }
        }
        i = i + 1;
    }
    assert(vs.take(n as int) =~= vs);
    r
}

/// `s` with every `\r\n` and then every remaining `\r` turned into `\n`.
pub open spec fn normalize_newlines(s: Seq<char>) -> Seq<char>
    decreases s.len(),
{
    if s.len() == 0 {
        s
    } else if s[0] == '\r' && s.len() > 1 && s[1] == '\n' {
        normalize_newlines(s.drop_first())
    } else if s[0] == '\r' {
        seq!['\n'] + normalize_newlines(s.drop_first())
    } else {
        seq![s[0]] + normalize_newlines(s.drop_first())
    }
}

/// `s` without its trailing `\n` characters.
pub open spec fn trim_trailing_newlines(s: Seq<char>) -> Seq<char>
    decreases s.len(),
{
    if s.len() > 0 && s.last() == '\n' {
        trim_trailing_newlines(s.drop_last())
    } else {
        s
    }
}

/// The text whose hash identifies a chapter's source: line endings made
/// `\n`, trailing newlines dropped.
pub open spec fn normalized_source(s: Seq<char>) -> Seq<char> {
    trim_trailing_newlines(normalize_newlines(s))
}

/// The SHA-256 digest of some bytes.
pub uninterp spec fn sha256_digest(bytes: Seq<u8>) -> Seq<u8>;

/// `sha2::Sha256` over `bytes`: the 32-byte digest.
#[verifier::external_body]
fn sha256(bytes: &[u8]) -> (r: Vec<u8>)
    ensures
        r@ == sha256_digest(bytes@),
        r@.len() == 32,
{
    let digest = <sha2::Sha256 as sha2::Digest>::digest(bytes);
    digest.to_vec()
}

/// The lower-case hexadecimal digit for `n < 16`.
pub open spec fn hex_digit(n: u8) -> char {
    if n < 10 {
        (48 + n) as char
    } else {
        (87 + n) as char
    }
}

/// Bytes as lower-case hexadecimal, two digits per byte.
pub open spec fn hex(bytes: Seq<u8>) -> Seq<char>
    decreases bytes.len(),
{
    if bytes.len() == 0 {
        Seq::empty()
    } else {
        hex(bytes.drop_last()) + seq![hex_digit(bytes.last() / 16), hex_digit(bytes.last() % 16)]
    }
}

fn hex_digit_exec(n: u8) -> (c: char)
    requires
        n < 16,
    ensures
        c == hex_digit(n),
{
    if n < 10 {
        (48u8 + n) as char
    } else {
        (87u8 + n) as char
    }
}

/// Bytes as lower-case hexadecimal.
pub fn hex_string(bytes: &Vec<u8>) -> (r: String)
    ensures
        r@ == hex(bytes@),
{
    let mut out = String::new();
    let mut i: usize = 0;
    while i < bytes.len()
        invariant
            i <= bytes.len(),
            out@ == hex(bytes@.take(i as int)),
        decreases bytes.len() - i,
    {
        let b = bytes[i];
        push_char(&mut out, hex_digit_exec(b / 16));
        push_char(&mut out, hex_digit_exec(b % 16));
        proof {
            assert(bytes@.take(i + 1).drop_last() =~= bytes@.take(i as int));
            assert(bytes@.take(i + 1).last() == b);
        }
        i = i + 1;
        assert(out@ =~= hex(bytes@.take(i as int)));
    }
    assert(bytes@.take(bytes.len() as int) =~= bytes@);
    out
}

/// The normalized form of a chapter's source text.
pub fn normalize_source_text(content: &str) -> (r: String)
    ensures
        r@ == normalized_source(content@),
{
    let v = crate::text::chars_of(content);
    let n = v.len();
    let mut out: Vec<char> = Vec::new();
    let mut i: usize = 0;
    assert(v@.skip(0) =~= v@);
    while i < n
        invariant
            n == v.len(),
            i <= n,
            out@ + normalize_newlines(v@.skip(i as int)) == normalize_newlines(v@),
        decreases n - i,
    {
        let ghost rest = v@.skip(i as int);
        assert(rest.drop_first() =~= v@.skip(i + 1));
        let c = v[i];
        if c == '\r' && i + 1 < n && v[i + 1] == '\n' {
            assert(rest[1] == v@[i + 1]);
        } else if c == '\r' {
            out.push('\n');
            assert(out@ + normalize_newlines(v@.skip(i + 1)) =~= out@.drop_last() + normalize_newlines(rest));
        } else {
            out.push(c);
            assert(out@ + normalize_newlines(v@.skip(i + 1)) =~= out@.drop_last() + normalize_newlines(rest));
        }
        i = i + 1;
    }
    assert(v@.skip(n as int) =~= Seq::<char>::empty());
    assert(out@ =~= normalize_newlines(v@));
    let mut end = out.len();
    assert(out@.take(end as int) =~= out@);
    while end > 0 && out[end - 1] == '\n'
        invariant
            end <= out.len(),
            trim_trailing_newlines(out@.take(end as int)) == trim_trailing_newlines(out@),
        decreases end,
    {
        assert(out@.take(end as int).drop_last() =~= out@.take(end - 1));
        end = end - 1;
    }
    assert(out@.take(out.len() as int) =~= out@);
    crate::text::string_from_range(&out, 0, end)
}

/// The hash of a chapter's source text.
pub open spec fn source_hash_of(content: Seq<char>) -> Seq<char> {
    hex(sha256_digest(vstd::utf8::encode_utf8(normalized_source(content))))
}

/// The hash that identifies a chapter's source text: the hexadecimal
/// SHA-256 digest of the UTF-8 bytes of its normalized form.
pub fn normalized_source_text_hash(content: &str) -> (r: String)
    ensures
        r@ == source_hash_of(content@),
{
    let normalized = normalize_source_text(content);
    let digest = sha256(normalized.as_str().as_bytes());
    hex_string(&digest)
}

/// The path segments that are names (not empty, `.` or `..`), in order.
pub open spec fn name_segments(segs: Seq<Seq<char>>) -> Seq<Seq<char>> {
    segs.filter(|s: Seq<char>| s.len() > 0 && s != seq!['.'] && s != seq!['.', '.'])
}

/// The pieces of `s[i..]` between `/` characters.
pub open spec fn split_from(s: Seq<char>, i: int) -> Seq<Seq<char>>
    decreases s.len() - i,
{
    let e = crate::text::next_index_of(s, '/', i);
    if i < 0 || i > s.len() || e >= s.len() {
        seq![s.subrange(i, s.len() as int)]
    } else {
        proof {
            crate::text::lemma_next_index_of(s, '/', i);
        }
        seq![s.subrange(i, e)] + split_from(s, e + 1)
    }
}

/// The pieces of `s` between `/` characters.
pub open spec fn split_slash(s: Seq<char>) -> Seq<Seq<char>> {
    split_from(s, 0)
}

/// `s` with each `\\` replaced by `/`.
pub open spec fn backslashes_to_slashes(s: Seq<char>) -> Seq<char> {
    s.map_values(|c: char| if c == '\\' { '/' } else { c })
}

/// A chapter path in the form state files use: its name segments joined by
/// `/`, or, when it has none, the path with `\\` made `/`.
pub open spec fn normalized_chapter_path(p: Seq<char>) -> Seq<char> {
    let names = name_segments(split_slash(p));
    if names.len() == 0 {
        backslashes_to_slashes(p)
    } else {
        join(names, seq!['/'])
    }
}

/// Normalizes a relative chapter path.
pub fn normalize_chapter_path(path: &str) -> (r: String)
    ensures
        r@ == normalized_chapter_path(path@),
{
    let v = crate::text::chars_of(path);
    let n = v.len();
    let mut names: Vec<String> = Vec::new();
    let mut start: usize = 0;
    let ghost mut pieces: Seq<Seq<char>> = Seq::empty();
    let ghost pred = |s: Seq<char>| s.len() > 0 && s != seq!['.'] && s != seq!['.', '.'];
    let mut done = false;
    proof {
        reveal_strlit(".");
        reveal_strlit("..");
        assert("."@ =~= seq!['.']);
        assert(".."@ =~= seq!['.', '.']);
    }
    while !done
        invariant
            n == v.len(),
            v@ == path@,
            start <= n,
            "."@ == seq!['.'],
            ".."@ == seq!['.', '.'],
            pred == (|s: Seq<char>| s.len() > 0 && s != seq!['.'] && s != seq!['.', '.']),
            !done ==> pieces + split_from(v@, start as int) == split_slash(v@),
            done ==> pieces == split_slash(v@),
            crate::text::views(names@) == pieces.filter(pred),
        decreases n - start + if done { 0int } else { 1int },
    {
        let e = crate::text::next_index_of_exec(&v, '/', start);
        proof {
            crate::text::lemma_next_index_of(v@, '/', start as int);
        }
        let seg = crate::text::string_from_range(&v, start, e);
        let ghost segv = seg@;
        let keep = !seg.as_str().is_empty() && !crate::strmap::str_eq(seg.as_str(), ".")
            && !crate::strmap::str_eq(seg.as_str(), "..");
        proof {
            pieces.lemma_filter_push(segv, pred);
            assert(keep == pred(segv));
        }
        if keep {
            proof {
                assert(crate::text::views(names@.push(seg)) =~= crate::text::views(names@).push(segv));
            }
            names.push(seg);
        }
        proof {
            pieces = pieces.push(segv);
        }
        if e >= n {
            done = true;
            proof {
                assert(split_from(v@, start as int) == seq![segv]);
                assert(pieces =~= split_slash(v@));
            }
        } else {
            proof {
                assert(split_from(v@, start as int) == seq![segv] + split_from(v@, e + 1));
                assert(pieces + split_from(v@, e + 1) =~= split_slash(v@));
            }
            start = e + 1;
        }
    }
    assert(name_segments(pieces) == pieces.filter(pred));
    proof {
        reveal_strlit("/");
        assert("/"@ =~= seq!['/']);
    }
    if names.len() == 0 {
        let mut out = String::new();
        let mut i: usize = 0;
        while i < n
            invariant
                i <= n == v.len(),
                out@ == backslashes_to_slashes(v@.take(i as int)),
            decreases n - i,
        {
            let c = v[i];
            push_char(&mut out, if c == '\\' { '/' } else { c });
            i = i + 1;
            assert(out@ =~= backslashes_to_slashes(v@.take(i as int)));
        }
        assert(v@.take(n as int) =~= v@);
        assert(v@ == path@);
        out
    } else {
        crate::text::join_strings(&names, "/")
    }
}


/// Normalizing line endings of `s` followed by a newline.
proof fn lemma_normalize_push_newline(s: Seq<char>)
    ensures
        normalize_newlines(s.push('\n')) == if s.len() > 0 && s.last() == '\r' {
            normalize_newlines(s)
        } else {
            normalize_newlines(s).push('\n')
        },
    decreases s.len(),
{
    let t = s.push('\n');
    if s.len() == 0 {
        assert(t.drop_first() =~= Seq::<char>::empty());
        assert(normalize_newlines(t) == seq!['\n'] + normalize_newlines(t.drop_first()));
        assert(seq!['\n'] + Seq::<char>::empty() =~= Seq::<char>::empty().push('\n'));
    } else {
        let rest = s.drop_first();
        assert(t.drop_first() =~= rest.push('\n'));
        lemma_normalize_push_newline(rest);
        if s[0] == '\r' && s.len() == 1 {
            assert(t =~= seq!['\r', '\n']);
            assert(rest =~= Seq::<char>::empty());
            assert(rest.push('\n') =~= seq!['\n']);
            assert(seq!['\n'].drop_first() =~= Seq::<char>::empty());
            assert(normalize_newlines(seq!['\n']) == seq!['\n'] + normalize_newlines(Seq::<char>::empty()));
            assert(seq!['\n'] + Seq::<char>::empty() =~= seq!['\n']);
        } else if s[0] == '\r' && s[1] == '\n' {
            assert(rest.last() == s.last());
        } else {
            let head = if s[0] == '\r' { seq!['\n'] } else { seq![s[0]] };
            assert(normalize_newlines(s) == head + normalize_newlines(rest));
            assert(normalize_newlines(t) == head + normalize_newlines(rest.push('\n')));
            if rest.len() > 0 {
                assert(rest.last() == s.last());
            }
            assert(head + normalize_newlines(rest).push('\n') =~= (head + normalize_newlines(rest)).push('\n'));
        }
    }
}

/// A text followed by a newline hashes like the text: trailing newlines
/// are not part of a chapter's source.
pub proof fn law_trailing_newline_keeps_source_hash(s: Seq<char>)
    ensures
        normalized_source(s.push('\n')) == normalized_source(s),
        source_hash_of(s.push('\n')) == source_hash_of(s),
{
    lemma_normalize_push_newline(s);
    let n = normalize_newlines(s);
    assert(n.push('\n').drop_last() =~= n);
}

/// `s` with every `\n` written as `\r\n`.
pub open spec fn with_crlf(s: Seq<char>) -> Seq<char>
    decreases s.len(),
{
    if s.len() == 0 {
        s
    } else if s[0] == '\n' {
        seq!['\r', '\n'] + with_crlf(s.drop_first())
    } else {
        seq![s[0]] + with_crlf(s.drop_first())
    }
}

/// A text without `\r` is its own line-ending normalization, and so is the
/// same text written with `\r\n` line endings.
proof fn lemma_normalize_without_cr(s: Seq<char>)
    requires
        !s.contains('\r'),
    ensures
        normalize_newlines(s) == s,
        normalize_newlines(with_crlf(s)) == s,
    decreases s.len(),
{
    if s.len() > 0 {
        let rest = s.drop_first();
        assert(!rest.contains('\r')) by {
            if rest.contains('\r') {
                let i = choose|i: int| 0 <= i < rest.len() && rest[i] == '\r';
                assert(s[i + 1] == '\r');
            }
        }
        assert(s[0] != '\r') by {
            if s[0] == '\r' {
                assert(s.contains('\r'));
            }
        }
        lemma_normalize_without_cr(rest);
        assert(seq![s[0]] + rest =~= s);
        let w = with_crlf(rest);
        if s[0] == '\n' {
            let x = seq!['\r', '\n'] + w;
            assert(x.drop_first() =~= seq!['\n'] + w);
            assert((seq!['\n'] + w).drop_first() =~= w);
            assert(normalize_newlines(seq!['\n'] + w) == seq!['\n'] + normalize_newlines(w));
        } else {
            let x = seq![s[0]] + w;
            assert(x.drop_first() =~= w);
        }
    }
}

/// Writing a text's line endings as `\r\n` does not change its source hash.
pub proof fn law_crlf_keeps_source_hash(s: Seq<char>)
    requires
        !s.contains('\r'),
    ensures
        normalized_source(with_crlf(s)) == normalized_source(s),
        source_hash_of(with_crlf(s)) == source_hash_of(s),
{
    lemma_normalize_without_cr(s);
}

} // verus!
