//! The glossary facts that rerun decisions compare: fingerprints by key,
//! the terms a chapter used, and the keys whose fingerprints changed.

use vstd::prelude::*;

use crate::glossary::{
    keys_of, lemma_keys_of_push, lemma_selection_members, glossary_term_key, glossary_term_prompt_fingerprint, prompt_fingerprint, select_terms_for_text,
    selection_fallback, selection_terms, term_key, GlossaryTerm, InjectionMode, SelectionResult,
};
use crate::state::{ChapterGlossaryTerm, ChapterGlossaryUsage, ChapterState, GlossaryState, GlossaryStateTerm};
use crate::strmap::{lemma_index_of_unique, same_string_map, sorted_keys, StrMap};
use crate::text::trim;

verus! {

/// The last term of `g` with each key.
pub open spec fn terms_by_key(g: Seq<GlossaryTerm>) -> Map<Seq<char>, GlossaryTerm>
    decreases g.len(),
{
    if g.len() == 0 {
        Map::empty()
    } else {
        terms_by_key(g.drop_last()).insert(term_key(g.last()), g.last())
    }
}

/// The prompt fingerprint of the last term of `g` with each key.
pub open spec fn fingerprints_by_key(g: Seq<GlossaryTerm>) -> Map<Seq<char>, Seq<char>>
    decreases g.len(),
{
    if g.len() == 0 {
        Map::empty()
    } else {
        fingerprints_by_key(g.drop_last()).insert(term_key(g.last()), prompt_fingerprint(g.last()))
    }
}

/// The fingerprint recorded last for each key in a chapter's terms.
pub open spec fn usage_view(terms: Seq<ChapterGlossaryTerm>) -> Map<Seq<char>, Seq<char>>
    decreases terms.len(),
{
    if terms.len() == 0 {
        Map::empty()
    } else {
        usage_view(terms.drop_last()).insert(terms.last().key@, terms.last().fingerprint@)
    }
}

/// `m` holds the keys of `v`, with values whose text is `v`'s.
pub open spec fn represents(m: Map<Seq<char>, String>, v: Map<Seq<char>, Seq<char>>) -> bool {
    &&& forall|k: Seq<char>| #[trigger] m.contains_key(k) <==> v.contains_key(k)
    &&& forall|k: Seq<char>| m.contains_key(k) ==> (#[trigger] m[k])@ == v[k]
}

/// A state term records `t` and its prompt fingerprint.
pub open spec fn records_term(s: GlossaryStateTerm, t: GlossaryTerm) -> bool {
    &&& s.term == t.term
    &&& s.og_term == t.og_term
    &&& s.definition == t.definition
    &&& s.fingerprint@ == prompt_fingerprint(t)
}

/// Key `k` is in either map, and not in both with the same value.
pub open spec fn key_changed(a: Map<Seq<char>, Seq<char>>, b: Map<Seq<char>, Seq<char>>, k: Seq<char>) -> bool {
    (a.contains_key(k) || b.contains_key(k)) && !(a.contains_key(k) && b.contains_key(k) && a[k] == b[k])
}

/// The fingerprints of a map of state terms, by key.
pub open spec fn state_fingerprints(m: Map<Seq<char>, GlossaryStateTerm>) -> Map<Seq<char>, Seq<char>> {
    Map::new(|k: Seq<char>| m.contains_key(k), |k: Seq<char>| m[k].fingerprint@)
}

/// Represented maps are equal exactly when they hold the same strings.
pub proof fn lemma_represents_equal(
    a: Map<Seq<char>, String>,
    b: Map<Seq<char>, String>,
    va: Map<Seq<char>, Seq<char>>,
    vb: Map<Seq<char>, Seq<char>>,
)
    requires
        represents(a, va),
        represents(b, vb),
    ensures
        same_string_map(a, b) <==> va == vb,
{
    if same_string_map(a, b) {
        assert forall|k: Seq<char>| va.contains_key(k) implies vb.contains_key(k) && va[k] == vb[k] by {
            assert(a.contains_key(k));
            assert(b[k]@ == a[k]@);
            assert(a[k]@ == va[k]);
            assert(b[k]@ == vb[k]);
        }
        assert forall|k: Seq<char>| #[trigger] va.dom().contains(k) == vb.dom().contains(k) by {
            if vb.contains_key(k) {
                assert(b.contains_key(k));
                assert(a[k]@ == b[k]@);
                assert(a.contains_key(k));
            }
            if va.contains_key(k) {
                assert(a.contains_key(k));
                assert(b[k]@ == a[k]@);
            }
        }
        assert(va.dom() =~= vb.dom());
        assert(va =~= vb);
    }
    if va == vb {
        assert forall|k: Seq<char>| a.contains_key(k) implies b.contains_key(k) && (#[trigger] b[k])@ == a[k]@ by {
            assert(va.contains_key(k));
        }
        assert forall|k: Seq<char>| b.contains_key(k) implies a.contains_key(k) && (#[trigger] a[k])@ == b[k]@ by {
            assert(vb.contains_key(k));
        }
    }
}

/// The prompt fingerprints of `terms` by key (the last term with a key wins).
pub fn selection_fingerprints(terms: &[GlossaryTerm]) -> (r: StrMap<String>)
    ensures
        represents(r.map(), fingerprints_by_key(terms@)),
{
    let mut m: StrMap<String> = StrMap::new();
    let mut i: usize = 0;
    while i < terms.len()
        invariant
            i <= terms.len(),
            represents(m.map(), fingerprints_by_key(terms@.take(i as int))),
        decreases terms.len() - i,
    {
        let key = glossary_term_key(&terms[i]);
        let fp = glossary_term_prompt_fingerprint(&terms[i]);
        proof {
            assert(terms@.take(i + 1).drop_last() =~= terms@.take(i as int));
            assert(terms@.take(i + 1).last() == terms@[i as int]);
        }
        m.insert(key, fp);
        i = i + 1;
    }
    assert(terms@.take(terms.len() as int) =~= terms@);
    m
}

/// The fingerprints a chapter recorded, by key.
pub fn usage_fingerprint_map(usage: &ChapterGlossaryUsage) -> (r: StrMap<String>)
    ensures
        represents(r.map(), usage_view(usage.terms@)),
{
    let terms = &usage.terms;
    let mut m: StrMap<String> = StrMap::new();
    let mut i: usize = 0;
    while i < terms.len()
        invariant
            i <= terms.len(),
            represents(m.map(), usage_view(terms@.take(i as int))),
        decreases terms.len() - i,
    {
        proof {
            assert(terms@.take(i + 1).drop_last() =~= terms@.take(i as int));
            assert(terms@.take(i + 1).last() == terms@[i as int]);
        }
        m.insert(terms[i].key.clone(), terms[i].fingerprint.clone());
        i = i + 1;
    }
    assert(terms@.take(terms.len() as int) =~= terms@);
    m
}

/// `s` is the glossary baseline of `g` under `mode`: the current format,
/// the mode, and for each key of `g` its last term, recorded with its prompt
/// fingerprint, and no other key.
pub open spec fn is_state_of(s: GlossaryState, g: Seq<GlossaryTerm>, mode: InjectionMode) -> bool {
    &&& s.version == crate::state::GLOSSARY_STATE_VERSION
    &&& s.injection_mode == mode
    &&& forall|k: Seq<char>| #[trigger] s.terms.map().contains_key(k) <==> terms_by_key(g).contains_key(k)
    &&& forall|k: Seq<char>| s.terms.map().contains_key(k) ==> records_term(#[trigger] s.terms.map()[k], terms_by_key(g)[k])
}

/// The glossary baseline of `glossary`: each key's last term, recorded
/// with its prompt fingerprint.
pub fn build_glossary_state(glossary: &[GlossaryTerm], injection_mode: InjectionMode) -> (r: GlossaryState)
    ensures
        is_state_of(r, glossary@, injection_mode),
{
    let mut m: StrMap<GlossaryStateTerm> = StrMap::new();
    let mut i: usize = 0;
    while i < glossary.len()
        invariant
            i <= glossary.len(),
            forall|k: Seq<char>| #[trigger] m.map().contains_key(k) <==> terms_by_key(glossary@.take(i as int)).contains_key(k),
            forall|k: Seq<char>| m.map().contains_key(k) ==> records_term(#[trigger] m.map()[k], terms_by_key(glossary@.take(i as int))[k]),
        decreases glossary.len() - i,
    {
        let t = &glossary[i];
        let key = glossary_term_key(t);
        let st = GlossaryStateTerm {
            term: t.term.clone(),
            og_term: crate::glossary::copy_opt(&t.og_term),
            definition: t.definition.clone(),
            fingerprint: glossary_term_prompt_fingerprint(t),
        };
        proof {
            assert(glossary@.take(i + 1).drop_last() =~= glossary@.take(i as int));
            assert(glossary@.take(i + 1).last() == glossary@[i as int]);
        }
        m.insert(key, st);
        i = i + 1;
    }
    assert(glossary@.take(glossary.len() as int) =~= glossary@);
    GlossaryState::new(injection_mode, m)
}

/// The record of the terms a selection gave a chapter.
pub fn build_chapter_glossary_usage(selection: &SelectionResult, injection_mode: InjectionMode) -> (r:
    ChapterGlossaryUsage)
    ensures
        r.injection_mode == injection_mode,
        r.used_fallback_to_full == selection.used_fallback_to_full,
        r.terms@.len() == selection.terms@.len(),
        forall|i: int|
            0 <= i < r.terms@.len() ==> (#[trigger] r.terms@[i]).key@ == term_key(selection.terms@[i])
                && r.terms@[i].fingerprint@ == prompt_fingerprint(selection.terms@[i]),
{
    let mut terms: Vec<ChapterGlossaryTerm> = Vec::new();
    let mut i: usize = 0;
    while i < selection.terms.len()
        invariant
            i <= selection.terms.len(),
            terms@.len() == i,
            forall|j: int|
                0 <= j < i ==> (#[trigger] terms@[j]).key@ == term_key(selection.terms@[j])
                    && terms@[j].fingerprint@ == prompt_fingerprint(selection.terms@[j]),
        decreases selection.terms.len() - i,
    {
        let t = &selection.terms[i];
        terms.push(ChapterGlossaryTerm {
            key: glossary_term_key(t),
            fingerprint: glossary_term_prompt_fingerprint(t),
        });
        i = i + 1;
    }
    ChapterGlossaryUsage {
        injection_mode,
        used_fallback_to_full: selection.used_fallback_to_full,
        terms,
    }
}

/// The terms of a glossary baseline, in key order, without notes.
pub fn glossary_terms_from_state(glossary_state: &GlossaryState) -> (r: Vec<GlossaryTerm>)
    ensures
        r@.len() == glossary_state.terms.values().len(),
        forall|i: int|
            0 <= i < r@.len() ==> {
                let s = glossary_state.terms.values()[i];
                &&& (#[trigger] r@[i]).term == s.term
                &&& r@[i].og_term == s.og_term
                &&& r@[i].definition == s.definition
                &&& r@[i].notes.is_none()
            },
{
    let n = glossary_state.terms.len();
    let mut r: Vec<GlossaryTerm> = Vec::new();
    let mut i: usize = 0;
    while i < n
        invariant
            n == glossary_state.terms.values().len(),
            n == glossary_state.terms.keys().len(),
            i <= n,
            r@.len() == i,
            forall|j: int|
                0 <= j < i ==> {
                    let s = glossary_state.terms.values()[j];
                    &&& (#[trigger] r@[j]).term == s.term
                    &&& r@[j].og_term == s.og_term
                    &&& r@[j].definition == s.definition
                    &&& r@[j].notes.is_none()
                },
        decreases n - i,
    {
        let (_, s) = glossary_state.terms.entry_at(i);
        r.push(GlossaryTerm {
            term: s.term.clone(),
            og_term: crate::glossary::copy_opt(&s.og_term),
            definition: s.definition.clone(),
            notes: None,
        });
        i = i + 1;
    }
    r
}

/// The fingerprints of a map of state terms, in the same key order.
fn fingerprint_view(m: &StrMap<GlossaryStateTerm>) -> (r: StrMap<String>)
    ensures
        represents(r.map(), state_fingerprints(m.map())),
{
    proof {
        use_type_invariant(m);
        m.lemma_keys_sorted();
    }
    let n = m.len();
    let mut r: StrMap<String> = StrMap::new();
    let mut i: usize = 0;
    while i < n
        invariant
            n == m.keys().len(),
            n == m.values().len(),
            sorted_keys(m.keys()),
            i <= n,
            r.keys() == m.keys().take(i as int),
            r.values().len() == i,
            forall|j: int| 0 <= j < i ==> (#[trigger] r.values()[j])@ == m.values()[j].fingerprint@,
        decreases n - i,
    {
        let (k, v) = m.entry_at(i);
        proof {
            if i > 0 {
                assert(r.keys().last() == m.keys()[i - 1]);
            }
        }
        r.push_greatest(k.clone(), v.fingerprint.clone());
        i = i + 1;
        assert(r.keys() =~= m.keys().take(i as int));
    }
    proof {
        assert(m.keys().take(n as int) =~= m.keys());
        use_type_invariant(&r);
        r.lemma_keys_sorted();
        m.lemma_keys_sorted();
        let v = state_fingerprints(m.map());
        assert forall|k: Seq<char>| #[trigger] r.map().contains_key(k) <==> v.contains_key(k) by {}
        assert forall|k: Seq<char>| r.map().contains_key(k) implies (#[trigger] r.map()[k])@ == v[k] by {
            let j = r.keys().index_of(k);
            assert(r.keys().contains(k));
            lemma_index_of_unique(r.keys(), k, j);
            lemma_index_of_unique(m.keys(), k, j);
        }
    }
    r
}

/// The keys that are in either map and not in both with equal values, as
/// a set in key order.
pub fn changed_selected_term_keys(previous_terms: &StrMap<String>, current_terms: &StrMap<String>) -> (r: StrMap<()>)
    ensures
        forall|k: Seq<char>|
            #[trigger] r.map().contains_key(k) <==> key_changed(
                crate::strmap::string_view(previous_terms.map()),
                crate::strmap::string_view(current_terms.map()),
                k,
            ),
{
    let ghost va = crate::strmap::string_view(previous_terms.map());
    let ghost vb = crate::strmap::string_view(current_terms.map());
    let mut out: StrMap<()> = StrMap::new();
    let n = previous_terms.len();
    let mut i: usize = 0;
    while i < n
        invariant
            n == previous_terms.keys().len(),
            i <= n,
            va == crate::strmap::string_view(previous_terms.map()),
            vb == crate::strmap::string_view(current_terms.map()),
            forall|k: Seq<char>| #[trigger] out.map().contains_key(k) <==> (previous_terms.keys().take(i as int).contains(k) && key_changed(va, vb, k)),
        decreases n - i,
    {
        let (k, v) = previous_terms.entry_at(i);
        proof {
            use_type_invariant(previous_terms);
            previous_terms.lemma_keys_sorted();
            lemma_index_of_unique(previous_terms.keys(), k@, i as int);
            assert(previous_terms.keys().take(i + 1) =~= previous_terms.keys().take(i as int).push(k@));
        }
        let changed = match current_terms.get(k.as_str()) {
            Some(w) => *w != *v,
            None => true,
        };
        if changed {
            out.insert(k.clone(), ());
        }
        proof {
            assert forall|q: Seq<char>| #[trigger] out.map().contains_key(q) <==> (previous_terms.keys().take(i + 1).contains(q) && key_changed(va, vb, q)) by {
                crate::glossary::lemma_push_contains(previous_terms.keys().take(i as int), k@, q);
            }
        }
        i = i + 1;
    }
    let m = current_terms.len();
    let mut j: usize = 0;
    assert(previous_terms.keys().take(n as int) =~= previous_terms.keys());
    while j < m
        invariant
            m == current_terms.keys().len(),
            j <= m,
            va == crate::strmap::string_view(previous_terms.map()),
            vb == crate::strmap::string_view(current_terms.map()),
            forall|k: Seq<char>| #[trigger] out.map().contains_key(k) <==> ((previous_terms.keys().contains(k) || current_terms.keys().take(j as int).contains(k)) && key_changed(va, vb, k)),
        decreases m - j,
    {
        let (k, v) = current_terms.entry_at(j);
        proof {
            use_type_invariant(current_terms);
            current_terms.lemma_keys_sorted();
            lemma_index_of_unique(current_terms.keys(), k@, j as int);
            assert(current_terms.keys().take(j + 1) =~= current_terms.keys().take(j as int).push(k@));
        }
        let changed = match previous_terms.get(k.as_str()) {
            Some(w) => *w != *v,
            None => true,
        };
        if changed {
            out.insert(k.clone(), ());
        }
        proof {
            assert forall|q: Seq<char>| #[trigger] out.map().contains_key(q) <==> ((previous_terms.keys().contains(q) || current_terms.keys().take(j + 1).contains(q)) && key_changed(va, vb, q)) by {
                crate::glossary::lemma_push_contains(current_terms.keys().take(j as int), k@, q);
            }
        }
        j = j + 1;
    }
    assert(current_terms.keys().take(m as int) =~= current_terms.keys());
    out
}

/// The keys whose prompt fingerprint differs between two baselines (or
/// that only one of them has).
pub fn changed_prompt_relevant_keys(
    previous_terms: &StrMap<GlossaryStateTerm>,
    current_terms: &StrMap<GlossaryStateTerm>,
) -> (r: StrMap<()>)
    ensures
        forall|k: Seq<char>|
            #[trigger] r.map().contains_key(k) <==> key_changed(
                state_fingerprints(previous_terms.map()),
                state_fingerprints(current_terms.map()),
                k,
            ),
{
    let a = fingerprint_view(previous_terms);
    let b = fingerprint_view(current_terms);
    let r = changed_selected_term_keys(&a, &b);
    proof {
        crate::strmap::lemma_string_view_of(a.map(), state_fingerprints(previous_terms.map()));
        crate::strmap::lemma_string_view_of(b.map(), state_fingerprints(current_terms.map()));
    }
    r
}

/// The usage recorded from a selection maps each selected key to the
/// fingerprint of the last selected term with that key.
pub proof fn lemma_usage_view_of_selection(terms: Seq<ChapterGlossaryTerm>, sel: Seq<GlossaryTerm>)
    requires
        terms.len() == sel.len(),
        forall|i: int|
            0 <= i < terms.len() ==> (#[trigger] terms[i]).key@ == term_key(sel[i])
                && terms[i].fingerprint@ == prompt_fingerprint(sel[i]),
    ensures
        usage_view(terms) == fingerprints_by_key(sel),
    decreases terms.len(),
{
    if terms.len() > 0 {
        lemma_usage_view_of_selection(terms.drop_last(), sel.drop_last());
        assert(terms.last() == terms[terms.len() - 1]);
    }
}

/// The fingerprints of a glossary's baseline are its fingerprints by key.
pub proof fn lemma_fingerprints_by_key(g: Seq<GlossaryTerm>)
    ensures
        forall|k: Seq<char>| #[trigger] fingerprints_by_key(g).contains_key(k) <==> terms_by_key(g).contains_key(k),
        forall|k: Seq<char>| #[trigger] fingerprints_by_key(g).contains_key(k) ==> fingerprints_by_key(g)[k] == prompt_fingerprint(terms_by_key(g)[k]),
    decreases g.len(),
{
    if g.len() > 0 {
        let p = g.drop_last();
        lemma_fingerprints_by_key(p);
        let kl = term_key(g.last());
        assert forall|k: Seq<char>| #[trigger] fingerprints_by_key(g).contains_key(k) <==> terms_by_key(g).contains_key(k) by {
            assert(fingerprints_by_key(g) == fingerprints_by_key(p).insert(kl, prompt_fingerprint(g.last())));
            assert(terms_by_key(g) == terms_by_key(p).insert(kl, g.last()));
            if k != kl {
                assert(fingerprints_by_key(p).contains_key(k) <==> terms_by_key(p).contains_key(k));
            }
        }
        assert forall|k: Seq<char>| #[trigger] fingerprints_by_key(g).contains_key(k) implies fingerprints_by_key(g)[k] == prompt_fingerprint(terms_by_key(g)[k]) by {
            assert(fingerprints_by_key(g) == fingerprints_by_key(p).insert(kl, prompt_fingerprint(g.last())));
            assert(terms_by_key(g) == terms_by_key(p).insert(kl, g.last()));
            if k != kl {
                assert(fingerprints_by_key(p).contains_key(k));
            }
        }
    }
}

/// The view of the usage a chapter would get now: the fingerprints of the
/// terms selected for its text.
pub open spec fn expected_view(g: Seq<GlossaryTerm>, text: Seq<char>, mode: InjectionMode) -> Map<Seq<char>, Seq<char>> {
    fingerprints_by_key(selection_terms(g, text, mode))
}

/// The glossary usage that translating `chapter_text` now would record, or
/// `None` for a blank chapter.
pub fn current_expected_glossary_usage(
    chapter_text: &str,
    current_glossary: &[GlossaryTerm],
    injection_mode: InjectionMode,
) -> (r: Option<ChapterGlossaryUsage>)
    ensures
        trim(chapter_text@).len() == 0 <==> r.is_none(),
        r.is_some() ==> {
            let u = r.unwrap();
            &&& u.injection_mode == injection_mode
            &&& u.used_fallback_to_full == selection_fallback(current_glossary@, chapter_text@, injection_mode)
            &&& usage_view(u.terms@) == expected_view(current_glossary@, chapter_text@, injection_mode)
        },
{
    if crate::text::is_blank(chapter_text) {
        return None;
    }
    let selection = select_terms_for_text(current_glossary, chapter_text, injection_mode);
    let usage = build_chapter_glossary_usage(&selection, injection_mode);
    proof {
        lemma_usage_view_of_selection(usage.terms@, selection.terms@);
    }
    Some(usage)
}

/// No key changed between two maps exactly when they are equal.
pub proof fn lemma_no_changed_keys(a: Map<Seq<char>, Seq<char>>, b: Map<Seq<char>, Seq<char>>)
    ensures
        (forall|k: Seq<char>| !#[trigger] key_changed(a, b, k)) <==> a == b,
{
    if forall|k: Seq<char>| !#[trigger] key_changed(a, b, k) {
        assert forall|k: Seq<char>| #[trigger] a.dom().contains(k) == b.dom().contains(k) by {
            assert(!key_changed(a, b, k));
        }
        assert forall|k: Seq<char>| a.contains_key(k) implies a[k] == b[k] by {
            assert(!key_changed(a, b, k));
        }
        assert(a.dom() =~= b.dom());
        assert(a =~= b);
    }
}

/// Whether a chapter's recorded glossary usage still matches what the
/// current glossary would give it.
pub open spec fn matches_current(text: Seq<char>, state: ChapterState, g: Seq<GlossaryTerm>, mode: InjectionMode) -> bool {
    match state.glossary_usage {
        None => false,
        Some(u) => {
            &&& crate::translate::rerun::decisions::stale_term_keys(u.terms@ + state.exported_terms@, fingerprints_by_key(g)).len() == 0
            &&& (trim(text).len() == 0 || {
                &&& usage_view(u.terms@) == expected_view(g, text, mode)
                &&& (u.injection_mode == InjectionMode::Full || u.used_fallback_to_full == selection_fallback(g, text, mode))
            })
        },
    }
}

/// Whether the chapter's recorded glossary usage still matches the current
/// glossary.
pub fn chapter_matches_current_glossary(
    chapter_text: &str,
    chapter_state: &ChapterState,
    current_glossary: &[GlossaryTerm],
    injection_mode: InjectionMode,
) -> (r: bool)
    ensures
        r == matches_current(chapter_text@, *chapter_state, current_glossary@, injection_mode),
{
    let usage = match &chapter_state.glossary_usage {
        Some(u) => u,
        None => return false,
    };
    let fps = selection_fingerprints(current_glossary);
    let ghost v = fingerprints_by_key(current_glossary@);
    let mut stale: Vec<String> = Vec::new();
    assert(crate::text::views(stale@) =~= crate::translate::rerun::decisions::stale_term_keys(Seq::<ChapterGlossaryTerm>::empty(), v));
    crate::translate::rerun::decisions::push_stale_keys(&mut stale, &usage.terms, &fps, Ghost(Seq::empty()), Ghost(v));
    assert(Seq::<ChapterGlossaryTerm>::empty() + usage.terms@ =~= usage.terms@);
    crate::translate::rerun::decisions::push_stale_keys(&mut stale, &chapter_state.exported_terms, &fps, Ghost(usage.terms@), Ghost(v));
    if stale.len() > 0 {
        return false;
    }
    let expected_usage = match current_expected_glossary_usage(chapter_text, current_glossary, injection_mode) {
        Some(e) => e,
        None => return true,
    };
    let recorded = usage_fingerprint_map(usage);
    let expected = usage_fingerprint_map(&expected_usage);
    let same = crate::strmap::str_maps_equal(&recorded, &expected);
    proof {
        lemma_represents_equal(recorded.map(), expected.map(), usage_view(usage.terms@), expected_view(current_glossary@, chapter_text@, injection_mode));
    }
    match usage.injection_mode {
        InjectionMode::Full => same,
        InjectionMode::Smart => same && usage.used_fallback_to_full == expected_usage.used_fallback_to_full,
    }
}

/// Whether a chapter still needs translating for the current glossary: it
/// has a translation and either no state or a state that no longer matches.
pub open spec fn still_stale(
    ch: crate::translate::rerun::types::ChapterSource,
    states: Map<Seq<char>, ChapterState>,
    g: Seq<GlossaryTerm>,
    mode: InjectionMode,
) -> bool {
    let key = ch.chapter_path@;
    ch.has_output && (!states.contains_key(key) || !matches_current(ch.text@, states[key], g, mode))
}

/// How many of `chapters` are still stale.
pub open spec fn stale_count(
    chapters: Seq<crate::translate::rerun::types::ChapterSource>,
    states: Map<Seq<char>, ChapterState>,
    g: Seq<GlossaryTerm>,
    mode: InjectionMode,
) -> nat
    decreases chapters.len(),
{
    if chapters.len() == 0 {
        0
    } else {
        stale_count(chapters.drop_last(), states, g, mode) + if still_stale(chapters.last(), states, g, mode) {
            1nat
        } else {
            0nat
        }
    }
}

/// Counts the translated chapters that the current glossary leaves stale.
pub fn count_chapters_still_stale_for_current_glossary(
    chapters: &[crate::translate::rerun::types::ChapterSource],
    chapter_states: &StrMap<ChapterState>,
    current_glossary: &[GlossaryTerm],
    injection_mode: InjectionMode,
) -> (r: usize)
    ensures
        r == stale_count(chapters@, chapter_states.map(), current_glossary@, injection_mode),
{
    let mut remaining: usize = 0;
    let mut i: usize = 0;
    while i < chapters.len()
        invariant
            i <= chapters.len(),
            remaining <= i,
            remaining == stale_count(chapters@.take(i as int), chapter_states.map(), current_glossary@, injection_mode),
        decreases chapters.len() - i,
    {
        let ch = &chapters[i];
        proof {
            assert(chapters@.take(i + 1).drop_last() =~= chapters@.take(i as int));
            assert(chapters@.take(i + 1).last() == *ch);
        }
        if ch.has_output {
            match chapter_states.get(ch.chapter_path.as_str()) {
                None => {
                    remaining = remaining + 1;
                },
                Some(state) => {
                    if !chapter_matches_current_glossary(ch.text.as_str(), state, current_glossary, injection_mode) {
                        remaining = remaining + 1;
                    }
                },
            }
        }
        i = i + 1;
    }
    assert(chapters@.take(chapters.len() as int) =~= chapters@);
    remaining
}


/// In a glossary without duplicate keys, the fingerprint of a term's key
/// is that term's fingerprint.
pub proof fn lemma_fingerprint_of_member(g: Seq<GlossaryTerm>, t: GlossaryTerm)
    requires
        keys_of(g).no_duplicates(),
        g.contains(t),
    ensures
        fingerprints_by_key(g).contains_key(term_key(t)),
        fingerprints_by_key(g)[term_key(t)] == prompt_fingerprint(t),
    decreases g.len(),
{
    let p = g.drop_last();
    let l = g.last();
    assert(g =~= p.push(l));
    lemma_keys_of_push(p, l);
    if t != l {
        let i = choose|i: int| 0 <= i < g.len() && g[i] == t;
        assert(i < g.len() - 1);
        assert(p[i] == t);
        assert(keys_of(p) =~= keys_of(g).drop_last());
        lemma_fingerprint_of_member(p, t);
        assert(keys_of(g)[i] == term_key(t));
        assert(keys_of(g)[g.len() - 1] == term_key(l));
    }
}

/// No recorded term is stale when each key maps to its fingerprint.
pub proof fn lemma_no_stale_terms(terms: Seq<ChapterGlossaryTerm>, fps: Map<Seq<char>, Seq<char>>)
    requires
        forall|i: int|
            0 <= i < terms.len() ==> fps.contains_key((#[trigger] terms[i]).key@) && fps[terms[i].key@]
                == terms[i].fingerprint@,
    ensures
        crate::translate::rerun::decisions::stale_term_keys(terms, fps).len() == 0,
    decreases terms.len(),
{
    if terms.len() > 0 {
        let p = terms.drop_last();
        assert forall|i: int| 0 <= i < p.len() implies fps.contains_key((#[trigger] p[i]).key@) && fps[p[i].key@]
            == p[i].fingerprint@ by {
            assert(p[i] == terms[i]);
        }
        lemma_no_stale_terms(p, fps);
        assert(terms.last() == terms[terms.len() - 1]);
    }
}

/// A chapter's recorded usage is what translating `text` with `g` in `mode`
/// records: the mode, the fallback and each selected term's key and
/// fingerprint, in order.
pub open spec fn records_selection(u: ChapterGlossaryUsage, g: Seq<GlossaryTerm>, text: Seq<char>, mode: InjectionMode) -> bool {
    let sel = selection_terms(g, text, mode);
    &&& u.injection_mode == mode
    &&& u.used_fallback_to_full == selection_fallback(g, text, mode)
    &&& u.terms@.len() == sel.len()
    &&& forall|i: int|
        0 <= i < sel.len() ==> (#[trigger] u.terms@[i]).key@ == term_key(sel[i]) && u.terms@[i].fingerprint@
            == prompt_fingerprint(sel[i])
}

/// A chapter whose state records what translating it with the current
/// glossary records, and whose exported terms the glossary still holds
/// unchanged, matches the current glossary, and the exact glossary rerun
/// check gives it no reason to rerun. The glossary has no two terms with
/// one key, as merging keeps it.
pub proof fn law_recorded_usage_matches_current(
    text: Seq<char>,
    state: ChapterState,
    g: Seq<GlossaryTerm>,
    mode: InjectionMode,
)
    requires
        keys_of(g).no_duplicates(),
        state.glossary_usage matches Some(u) && records_selection(u, g, text, mode),
        forall|i: int|
            0 <= i < state.exported_terms@.len() ==> fingerprints_by_key(g).contains_key(
                (#[trigger] state.exported_terms@[i]).key@,
            ) && fingerprints_by_key(g)[state.exported_terms@[i].key@] == state.exported_terms@[i].fingerprint@,
    ensures
        matches_current(text, state, g, mode),
        crate::translate::rerun::decisions::exact_decision(text, state, g, mode).is_none(),
{
    let u = state.glossary_usage.unwrap();
    let sel = selection_terms(g, text, mode);
    let fps = fingerprints_by_key(g);
    lemma_selection_members(g, text, mode);
    let all = u.terms@ + state.exported_terms@;
    assert forall|i: int| 0 <= i < all.len() implies fps.contains_key((#[trigger] all[i]).key@) && fps[all[i].key@]
        == all[i].fingerprint@ by {
        if i < u.terms@.len() {
            assert(all[i] == u.terms@[i]);
            assert(g.contains(sel[i]));
            lemma_fingerprint_of_member(g, sel[i]);
        } else {
            assert(all[i] == state.exported_terms@[i - u.terms@.len()]);
        }
    }
    lemma_no_stale_terms(all, fps);
    lemma_usage_view_of_selection(u.terms@, sel);
}

} // verus!
