//! Which chapters a rerun translates again, and why.

use vstd::prelude::*;

use crate::glossary::{selection_fallback, selection_terms, select_terms_for_text, GlossaryTerm, InjectionMode};
use crate::state::{source_hash_of, normalized_source_text_hash, ChapterGlossaryTerm, ChapterState, GlossaryState, GlossaryStateTerm};
use crate::strmap::{sorted_keys, sorted_set, StrMap};
use crate::text::{join, join_strings, lit, trim, views};
use crate::translate::rerun::glossary::{
    build_glossary_state, changed_prompt_relevant_keys, changed_selected_term_keys,
    current_expected_glossary_usage, expected_view, fingerprints_by_key, glossary_terms_from_state,
    key_changed, lemma_fingerprints_by_key, lemma_no_changed_keys, represents,
    selection_fingerprints, state_fingerprints, terms_by_key, usage_fingerprint_map, usage_view,
};
use crate::translate::rerun::types::{ChapterSource, GlossaryRerunPlan, RerunDecision, SourceRerunPlan};

verus! {

/// How a chapter's glossary usage is described in messages.
pub open spec fn usage_label(mode: InjectionMode, fallback: bool) -> Seq<char> {
    if mode == InjectionMode::Full {
        "full"@
    } else if fallback {
        "fallback"@
    } else {
        "smart"@
    }
}

fn usage_label_exec(mode: InjectionMode, fallback: bool) -> (r: String)
    ensures
        r@ == usage_label(mode, fallback),
{
    match mode {
        InjectionMode::Full => lit("full"),
        InjectionMode::Smart => if fallback {
            lit("fallback")
        } else {
            lit("smart")
        },
    }
}

/// The keys of `terms`, in order, whose fingerprint is not the one `fps`
/// gives now.
pub open spec fn stale_term_keys(terms: Seq<ChapterGlossaryTerm>, fps: Map<Seq<char>, Seq<char>>) -> Seq<Seq<char>>
    decreases terms.len(),
{
    if terms.len() == 0 {
        Seq::empty()
    } else {
        let rest = stale_term_keys(terms.drop_last(), fps);
        let t = terms.last();
        if fps.contains_key(t.key@) && fps[t.key@] == t.fingerprint@ {
            rest
        } else {
            rest.push(t.key@)
        }
    }
}

/// The keys that changed between two fingerprint maps, in key order.
pub open spec fn changed_between(a: Map<Seq<char>, Seq<char>>, b: Map<Seq<char>, Seq<char>>) -> Seq<Seq<char>> {
    sorted_set(|k: Seq<char>| key_changed(a, b, k))
}

/// A decision as its reason text and whether it is approximate.
pub open spec fn decision_is(d: Option<RerunDecision>, s: Option<(Seq<char>, bool)>) -> bool {
    match (d, s) {
        (None, None) => true,
        (Some(x), Some(y)) => x.reason@ == y.0 && x.is_approximate == y.1,
        _ => false,
    }
}

/// The exact decision for a chapter that recorded its glossary usage: a
/// recorded term whose fingerprint changed forces a rerun; otherwise the
/// selection the text would get now is compared with the recorded one.
pub open spec fn exact_decision(
    text: Seq<char>,
    state: ChapterState,
    g: Seq<GlossaryTerm>,
    mode: InjectionMode,
) -> Option<(Seq<char>, bool)> {
    match state.glossary_usage {
        None => None,
        Some(u) => {
            let stale = stale_term_keys(u.terms@ + state.exported_terms@, fingerprints_by_key(g));
            if stale.len() > 0 {
                Some(("Glossary term changed: "@ + join(stale, ", "@), false))
            } else if trim(text).len() == 0 {
                None
            } else {
                let recorded = usage_view(u.terms@);
                let expected = expected_view(g, text, mode);
                let efb = selection_fallback(g, text, mode);
                let fb_msg = "Fallback behavior: "@ + usage_label(u.injection_mode, u.used_fallback_to_full)
                    + " -> "@ + usage_label(mode, efb);
                if recorded == expected {
                    if u.injection_mode == InjectionMode::Full || u.used_fallback_to_full == efb {
                        None
                    } else {
                        Some((fb_msg, false))
                    }
                } else if u.injection_mode == InjectionMode::Full || u.used_fallback_to_full != efb {
                    Some((fb_msg, false))
                } else {
                    Some(("Glossary selection changed: "@ + join(changed_between(recorded, expected), ", "@), false))
                }
            }
        },
    }
}

/// No term is stale when each has its current fingerprint.
proof fn lemma_no_stale_keys(terms: Seq<ChapterGlossaryTerm>, fps: Map<Seq<char>, Seq<char>>)
    requires
        forall|i: int| 0 <= i < terms.len() ==> fps.contains_key((#[trigger] terms[i]).key@) && fps[terms[i].key@]
            == terms[i].fingerprint@,
    ensures
        stale_term_keys(terms, fps).len() == 0,
    decreases terms.len(),
{
    if terms.len() > 0 {
        let p = terms.drop_last();
        assert forall|i: int| 0 <= i < p.len() implies fps.contains_key((#[trigger] p[i]).key@) && fps[p[i].key@]
            == p[i].fingerprint@ by {
            assert(p[i] == terms[i]);
        }
        lemma_no_stale_keys(p, fps);
        assert(terms.last() == terms[terms.len() - 1]);
    }
}

/// A chapter whose recorded usage came from smart selection without
/// fallback, whose recorded and exported terms all still carry their
/// current fingerprints, and whose text is not blank, is forced to rerun
/// (exactly, not approximately) when the terms the current glossary selects
/// for its text differ, by key or fingerprint, from the recorded ones; when
/// the current selection does not fall back either, the reason names the
/// keys that changed.
pub proof fn law_changed_selection_forces_rerun(
    text: Seq<char>,
    state: ChapterState,
    g: Seq<GlossaryTerm>,
    mode: InjectionMode,
    r: Option<RerunDecision>,
)
    requires
        decision_is(r, exact_decision(text, state, g, mode)),
        state.glossary_usage is Some,
        state.glossary_usage->0.injection_mode == InjectionMode::Smart,
        !state.glossary_usage->0.used_fallback_to_full,
        forall|i: int|
            0 <= i < (state.glossary_usage->0.terms@ + state.exported_terms@).len() ==> fingerprints_by_key(g).contains_key(
                (#[trigger] (state.glossary_usage->0.terms@ + state.exported_terms@)[i]).key@,
            ) && fingerprints_by_key(g)[(state.glossary_usage->0.terms@ + state.exported_terms@)[i].key@]
                == (state.glossary_usage->0.terms@ + state.exported_terms@)[i].fingerprint@,
        trim(text).len() > 0,
        usage_view(state.glossary_usage->0.terms@) != fingerprints_by_key(selection_terms(g, text, mode)),
    ensures
        r is Some,
        !r->0.is_approximate,
        !selection_fallback(g, text, mode) ==> r->0.reason@ == "Glossary selection changed: "@ + join(
            changed_between(usage_view(state.glossary_usage->0.terms@), fingerprints_by_key(selection_terms(g, text, mode))),
            ", "@,
        ),
{
    let u = state.glossary_usage->0;
    lemma_no_stale_keys(u.terms@ + state.exported_terms@, fingerprints_by_key(g));
}

/// Appends the keys of `terms` whose fingerprint is not the current one.
pub fn push_stale_keys(
    stale: &mut Vec<String>,
    terms: &Vec<ChapterGlossaryTerm>,
    fps: &StrMap<String>,
    Ghost(prefix): Ghost<Seq<ChapterGlossaryTerm>>,
    Ghost(v): Ghost<Map<Seq<char>, Seq<char>>>,
)
    requires
        represents(fps.map(), v),
        views(old(stale)@) == stale_term_keys(prefix, v),
    ensures
        views(final(stale)@) == stale_term_keys(prefix + terms@, v),
{
    let mut i: usize = 0;
    assert(prefix + terms@.take(0) =~= prefix);
    while i < terms.len()
        invariant
            i <= terms.len(),
            represents(fps.map(), v),
            views(stale@) == stale_term_keys(prefix + terms@.take(i as int), v),
        decreases terms.len() - i,
    {
        let t = &terms[i];
        let ghost s1 = prefix + terms@.take(i as int);
        let ghost s2 = prefix + terms@.take(i + 1);
        proof {
            assert(s2 =~= s1.push(terms@[i as int]));
            assert(s2.drop_last() =~= s1);
            assert(s2.last() == *t);
        }
        let fresh = match fps.get(t.key.as_str()) {
            Some(fp) => *fp == t.fingerprint,
            None => false,
        };
        assert(fresh == (v.contains_key(t.key@) && v[t.key@] == t.fingerprint@));
        if !fresh {
            proof {
                assert(views(stale@.push(t.key)) =~= views(stale@).push(t.key@));
            }
            stale.push(t.key.clone());
        }
        i = i + 1;
    }
    assert(terms@.take(terms.len() as int) =~= terms@);
}

/// The exact rerun decision for a chapter that recorded its glossary usage.
pub fn exact_rerun_decision(
    chapter_text: &str,
    chapter_state: &ChapterState,
    current_glossary: &[GlossaryTerm],
    injection_mode: InjectionMode,
) -> (r: Option<RerunDecision>)
    ensures
        decision_is(r, exact_decision(chapter_text@, *chapter_state, current_glossary@, injection_mode)),
{
    let usage = match &chapter_state.glossary_usage {
        Some(u) => u,
        None => return None,
    };
    let fps = selection_fingerprints(current_glossary);
    let ghost v = fingerprints_by_key(current_glossary@);
    let mut stale: Vec<String> = Vec::new();
    assert(views(stale@) =~= stale_term_keys(Seq::<ChapterGlossaryTerm>::empty(), v));
    push_stale_keys(&mut stale, &usage.terms, &fps, Ghost(Seq::empty()), Ghost(v));
    assert(Seq::<ChapterGlossaryTerm>::empty() + usage.terms@ =~= usage.terms@);
    push_stale_keys(&mut stale, &chapter_state.exported_terms, &fps, Ghost(usage.terms@), Ghost(v));
    if stale.len() > 0 {
        let mut reason = lit("Glossary term changed: ");
        let joined = join_strings(&stale, ", ");
        reason.append(joined.as_str());
        return Some(RerunDecision { reason, is_approximate: false });
    }
    let expected_usage = match current_expected_glossary_usage(chapter_text, current_glossary, injection_mode) {
        Some(e) => e,
        None => return None,
    };
    let recorded = usage_fingerprint_map(usage);
    let expected = usage_fingerprint_map(&expected_usage);
    let changed = changed_selected_term_keys(&recorded, &expected);
    let ghost tv = usage_view(usage.terms@);
    let ghost ev = expected_view(current_glossary@, chapter_text@, injection_mode);
    proof {
        crate::strmap::lemma_string_view_of(recorded.map(), tv);
        crate::strmap::lemma_string_view_of(expected.map(), ev);
        lemma_no_changed_keys(tv, ev);
        use_type_invariant(&changed);
        changed.lemma_sorted();
        if changed.keys().len() > 0 {
            assert(changed.map().contains_key(changed.keys()[0]));
        } else {
            assert forall|k: Seq<char>| !#[trigger] key_changed(tv, ev, k) by {
                assert(!changed.map().contains_key(k));
            }
        }
    }
    let same = changed.is_empty();
    let efb = expected_usage.used_fallback_to_full;
    let tracked_full = match usage.injection_mode {
        InjectionMode::Full => true,
        InjectionMode::Smart => false,
    };
    if same && (tracked_full || usage.used_fallback_to_full == efb) {
        return None;
    }
    if tracked_full || usage.used_fallback_to_full != efb {
        let mut reason = lit("Fallback behavior: ");
        let a = usage_label_exec(usage.injection_mode, usage.used_fallback_to_full);
        reason.append(a.as_str());
        reason.append(" -> ");
        let b = usage_label_exec(expected_usage.injection_mode, efb);
        reason.append(b.as_str());
        return Some(RerunDecision { reason, is_approximate: false });
    }
    let keys = changed.key_list();
    proof {
        changed.lemma_is_sorted_set(|k: Seq<char>| key_changed(tv, ev, k));
    }
    let mut reason = lit("Glossary selection changed: ");
    let joined = join_strings(&keys, ", ");
    reason.append(joined.as_str());
    Some(RerunDecision { reason, is_approximate: false })
}

/// The glossary a baseline holds, in key order, without notes.
pub open spec fn state_glossary(vs: Seq<GlossaryStateTerm>) -> Seq<GlossaryTerm> {
    vs.map_values(|t: GlossaryStateTerm| GlossaryTerm { term: t.term, og_term: t.og_term, definition: t.definition, notes: None })
}

/// The estimated decision for a chapter that did not record its glossary
/// usage, from smart selection under the baseline and under the current
/// glossary.
pub open spec fn approximate_decision(
    text: Seq<char>,
    previous: GlossaryState,
    g: Seq<GlossaryTerm>,
    changed: Seq<Seq<char>>,
) -> Option<(Seq<char>, bool)> {
    if trim(text).len() == 0 {
        None
    } else {
        let pg = state_glossary(previous.terms.values());
        if selection_fallback(pg, text, InjectionMode::Smart) || selection_fallback(g, text, InjectionMode::Smart) {
            if changed.len() == 0 {
                None
            } else {
                Some(("Full glossary changed (approx): "@ + join(changed, ", "@), true))
            }
        } else {
            let a = fingerprints_by_key(selection_terms(pg, text, InjectionMode::Smart));
            let b = fingerprints_by_key(selection_terms(g, text, InjectionMode::Smart));
            if a == b {
                None
            } else {
                Some(("Glossary selection changed (approx): "@ + join(changed_between(a, b), ", "@), true))
            }
        }
    }
}

/// The approximate rerun decision for a chapter without recorded usage.
pub fn approximate_smart_rerun_decision(
    chapter_text: &str,
    previous_glossary_state: &GlossaryState,
    current_glossary: &[GlossaryTerm],
    changed_term_keys: &StrMap<()>,
) -> (r: Option<RerunDecision>)
    ensures
        decision_is(
            r,
            approximate_decision(chapter_text@, *previous_glossary_state, current_glossary@, changed_term_keys.keys()),
        ),
{
    if crate::text::is_blank(chapter_text) {
        return None;
    }
    let previous_glossary = glossary_terms_from_state(previous_glossary_state);
    assert(previous_glossary@ =~= state_glossary(previous_glossary_state.terms.values()));
    let previous_selection = select_terms_for_text(previous_glossary.as_slice(), chapter_text, InjectionMode::Smart);
    let current_selection = select_terms_for_text(current_glossary, chapter_text, InjectionMode::Smart);
    if previous_selection.used_fallback_to_full || current_selection.used_fallback_to_full {
        if changed_term_keys.is_empty() {
            return None;
        }
        let keys = changed_term_keys.key_list();
        let mut reason = lit("Full glossary changed (approx): ");
        let joined = join_strings(&keys, ", ");
        reason.append(joined.as_str());
        return Some(RerunDecision { reason, is_approximate: true });
    }
    let previous_terms = selection_fingerprints(previous_selection.terms.as_slice());
    let current_terms = selection_fingerprints(current_selection.terms.as_slice());
    let changed = changed_selected_term_keys(&previous_terms, &current_terms);
    let ghost a = fingerprints_by_key(previous_selection.terms@);
    let ghost b = fingerprints_by_key(current_selection.terms@);
    proof {
        crate::strmap::lemma_string_view_of(previous_terms.map(), a);
        crate::strmap::lemma_string_view_of(current_terms.map(), b);
        lemma_no_changed_keys(a, b);
        use_type_invariant(&changed);
        changed.lemma_sorted();
        if changed.keys().len() > 0 {
            assert(changed.map().contains_key(changed.keys()[0]));
        } else {
            assert forall|k: Seq<char>| !#[trigger] key_changed(a, b, k) by {
                assert(!changed.map().contains_key(k));
            }
        }
    }
    if changed.is_empty() {
        return None;
    }
    let keys = changed.key_list();
    proof {
        changed.lemma_is_sorted_set(|k: Seq<char>| key_changed(a, b, k));
    }
    let mut reason = lit("Glossary selection changed (approx): ");
    let joined = join_strings(&keys, ", ");
    reason.append(joined.as_str());
    Some(RerunDecision { reason, is_approximate: true })
}

/// The glossary decision for one chapter.
pub open spec fn chapter_glossary_decision(
    ch: ChapterSource,
    previous: Option<GlossaryState>,
    states: Map<Seq<char>, ChapterState>,
    g: Seq<GlossaryTerm>,
    mode: InjectionMode,
    changed: Seq<Seq<char>>,
) -> Option<(Seq<char>, bool)> {
    let key = ch.chapter_path@;
    if !ch.has_output {
        None
    } else if states.contains_key(key) && states[key].glossary_usage.is_some() {
        exact_decision(ch.text@, states[key], g, mode)
    } else {
        match previous {
            None => None,
            Some(p) => if p.injection_mode == InjectionMode::Full {
                if changed.len() > 0 {
                    Some(("Full glossary changed: "@ + join(changed, ", "@), false))
                } else {
                    None
                }
            } else {
                approximate_decision(ch.text@, p, g, changed)
            },
        }
    }
}

/// Whether a chapter is checked by the approximate smart comparison.
pub open spec fn checked_approximately(
    ch: ChapterSource,
    previous: Option<GlossaryState>,
    states: Map<Seq<char>, ChapterState>,
) -> bool {
    let key = ch.chapter_path@;
    &&& ch.has_output
    &&& !(states.contains_key(key) && states[key].glossary_usage.is_some())
    &&& previous.is_some()
    &&& previous.unwrap().injection_mode == InjectionMode::Smart
}

/// The decisions for the first `n` chapters, by chapter path (a later
/// chapter with the same path replaces an earlier one).
pub open spec fn glossary_decisions(
    chapters: Seq<ChapterSource>,
    previous: Option<GlossaryState>,
    states: Map<Seq<char>, ChapterState>,
    g: Seq<GlossaryTerm>,
    mode: InjectionMode,
    changed: Seq<Seq<char>>,
) -> Map<Seq<char>, (Seq<char>, bool)>
    decreases chapters.len(),
{
    if chapters.len() == 0 {
        Map::empty()
    } else {
        let m = glossary_decisions(chapters.drop_last(), previous, states, g, mode, changed);
        match chapter_glossary_decision(chapters.last(), previous, states, g, mode, changed) {
            Some(d) => m.insert(chapters.last().chapter_path@, d),
            None => m,
        }
    }
}

/// How many of `chapters` are checked approximately.
pub open spec fn approximate_count(
    chapters: Seq<ChapterSource>,
    previous: Option<GlossaryState>,
    states: Map<Seq<char>, ChapterState>,
) -> nat
    decreases chapters.len(),
{
    if chapters.len() == 0 {
        0
    } else {
        approximate_count(chapters.drop_last(), previous, states) + if checked_approximately(
            chapters.last(),
            previous,
            states,
        ) {
            1nat
        } else {
            0nat
        }
    }
}

/// A map of decisions holds the given reasons.
pub open spec fn decisions_are(m: Map<Seq<char>, RerunDecision>, v: Map<Seq<char>, (Seq<char>, bool)>) -> bool {
    &&& forall|k: Seq<char>| #[trigger] m.contains_key(k) <==> v.contains_key(k)
    &&& forall|k: Seq<char>| m.contains_key(k) ==> (#[trigger] m[k]).reason@ == v[k].0 && m[k].is_approximate == v[k].1
}

/// The keys whose fingerprint changed since a baseline.
pub open spec fn changed_since(previous: Option<GlossaryState>, g: Seq<GlossaryTerm>) -> Seq<Seq<char>> {
    match previous {
        Some(p) => changed_between(state_fingerprints(p.terms.map()), fingerprints_by_key(g)),
        None => Seq::empty(),
    }
}

/// The warning given when there is no glossary baseline.
pub open spec fn no_baseline_warning() -> Seq<char> {
    "No glossary tracking state found; changed-term counts start after this run."@
}

/// The chapters with a translation that glossary changes force to be
/// translated again.
pub fn build_glossary_rerun_plan(
    chapters: &[ChapterSource],
    previous_glossary_state: Option<&GlossaryState>,
    previous_chapter_states: &StrMap<ChapterState>,
    current_glossary: &[GlossaryTerm],
    injection_mode: InjectionMode,
) -> (r: GlossaryRerunPlan)
    ensures
        ({
            let prev = match previous_glossary_state {
                Some(p) => Some(*p),
                None => None,
            };
            let changed = changed_since(prev, current_glossary@);
            &&& r.changed_term_count == changed.len()
            &&& previous_glossary_state.is_none() ==> r.warnings@.len() == 1 && r.warnings@[0]@ == no_baseline_warning()
            &&& previous_glossary_state.is_some() ==> r.warnings@.len() == 0
            &&& r.approximate_smart_checks == approximate_count(chapters@, prev, previous_chapter_states.map())
            &&& decisions_are(
                r.forced_chapters.map(),
                glossary_decisions(chapters@, prev, previous_chapter_states.map(), current_glossary@, injection_mode, changed),
            )
        }),
{
    let ghost prev = match previous_glossary_state {
        Some(p) => Some(*p),
        None => None,
    };
    let current_glossary_state = build_glossary_state(current_glossary, injection_mode);
    let changed_term_keys = match previous_glossary_state {
        Some(glossary) => changed_prompt_relevant_keys(&glossary.terms, &current_glossary_state.terms),
        None => StrMap::new(),
    };
    let ghost changed = changed_since(prev, current_glossary@);
    proof {
        lemma_fingerprints_by_key(current_glossary@);
        let cur = state_fingerprints(current_glossary_state.terms.map());
        let fk = fingerprints_by_key(current_glossary@);
        let tk = terms_by_key(current_glossary@);
        assert forall|k: Seq<char>| #[trigger] cur.dom().contains(k) == fk.dom().contains(k) by {
            assert(current_glossary_state.terms.map().contains_key(k) == tk.contains_key(k));
            assert(fk.contains_key(k) == tk.contains_key(k));
        }
        assert forall|k: Seq<char>| cur.contains_key(k) implies #[trigger] cur[k] == fk[k] by {
            assert(tk.contains_key(k));
            assert(crate::translate::rerun::glossary::records_term(current_glossary_state.terms.map()[k], tk[k]));
            assert(fk.contains_key(k));
        }
        assert(cur.dom() =~= fk.dom());
        assert(cur =~= fk);
        use_type_invariant(&changed_term_keys);
        match previous_glossary_state {
            Some(p) => {
                changed_term_keys.lemma_is_sorted_set(|k: Seq<char>| key_changed(state_fingerprints(p.terms.map()), fingerprints_by_key(current_glossary@), k));
            },
            None => {
                assert(changed_term_keys.keys() =~= Seq::<Seq<char>>::empty());
            },
        }
    }
    let mut warnings: Vec<String> = Vec::new();
    if previous_glossary_state.is_none() {
        warnings.push(lit("No glossary tracking state found; changed-term counts start after this run."));
    }
    let mut forced: StrMap<RerunDecision> = StrMap::new();
    let mut approximate: usize = 0;
    let mut i: usize = 0;
    while i < chapters.len()
        invariant
            i <= chapters.len(),
            changed_term_keys.keys() == changed,
            changed == changed_since(prev, current_glossary@),
            prev == (match previous_glossary_state {
                Some(p) => Some(*p),
                None => None,
            }),
            approximate <= i,
            approximate == approximate_count(chapters@.take(i as int), prev, previous_chapter_states.map()),
            decisions_are(
                forced.map(),
                glossary_decisions(chapters@.take(i as int), prev, previous_chapter_states.map(), current_glossary@, injection_mode, changed),
            ),
        decreases chapters.len() - i,
    {
        let ch = &chapters[i];
        proof {
            assert(chapters@.take(i + 1).drop_last() =~= chapters@.take(i as int));
            assert(chapters@.take(i + 1).last() == *ch);
        }
        let mut decision: Option<RerunDecision> = None;
        let mut approx = false;
        if ch.has_output {
            let recorded_usage = match previous_chapter_states.get(ch.chapter_path.as_str()) {
                Some(state) => state.glossary_usage.is_some(),
                None => false,
            };
            if recorded_usage {
                let state = previous_chapter_states.get(ch.chapter_path.as_str()).unwrap();
                decision = exact_rerun_decision(ch.text.as_str(), state, current_glossary, injection_mode);
            } else {
                match previous_glossary_state {
                    None => {},
                    Some(p) => {
                        match p.injection_mode {
                            InjectionMode::Full => {
                                if !changed_term_keys.is_empty() {
                                    let keys = changed_term_keys.key_list();
                                    let mut reason = lit("Full glossary changed: ");
                                    let joined = join_strings(&keys, ", ");
                                    reason.append(joined.as_str());
                                    decision = Some(RerunDecision { reason, is_approximate: false });
                                }
                            },
                            InjectionMode::Smart => {
                                decision = approximate_smart_rerun_decision(
                                    ch.text.as_str(),
                                    p,
                                    current_glossary,
                                    &changed_term_keys,
                                );
                                approx = true;
                            },
                        }
                    },
                }
            }
        }
        assert(decision_is(decision, chapter_glossary_decision(*ch, prev, previous_chapter_states.map(), current_glossary@, injection_mode, changed)));
        assert(approx == checked_approximately(*ch, prev, previous_chapter_states.map()));
        if approx {
            approximate = approximate + 1;
        }
        match decision {
            Some(d) => {
                forced.insert(ch.chapter_path.clone(), d);
            },
            None => {},
        }
        i = i + 1;
    }
    assert(chapters@.take(chapters.len() as int) =~= chapters@);
    GlossaryRerunPlan {
        forced_chapters: forced,
        warnings,
        changed_term_count: changed_term_keys.len(),
        approximate_smart_checks: approximate,
    }
}

/// The source decision for one chapter: a recorded source hash that the
/// current text no longer has.
pub open spec fn chapter_source_changed(ch: ChapterSource, states: Map<Seq<char>, ChapterState>) -> bool {
    let key = ch.chapter_path@;
    &&& ch.has_output
    &&& states.contains_key(key)
    &&& states[key].source_text_hash.is_some()
    &&& states[key].source_text_hash.unwrap()@ != source_hash_of(ch.text@)
}

/// Whether a chapter has a translation and a state but no source hash.
pub open spec fn chapter_source_untracked(ch: ChapterSource, states: Map<Seq<char>, ChapterState>) -> bool {
    let key = ch.chapter_path@;
    ch.has_output && states.contains_key(key) && states[key].source_text_hash.is_none()
}

/// The chapter paths whose source changed, among the first `n` chapters.
pub open spec fn source_changed_paths(chapters: Seq<ChapterSource>, states: Map<Seq<char>, ChapterState>) -> Set<Seq<char>>
    decreases chapters.len(),
{
    if chapters.len() == 0 {
        Set::empty()
    } else {
        let s = source_changed_paths(chapters.drop_last(), states);
        if chapter_source_changed(chapters.last(), states) {
            s.insert(chapters.last().chapter_path@)
        } else {
            s
        }
    }
}

/// How many chapters have no recorded source hash.
pub open spec fn untracked_count(chapters: Seq<ChapterSource>, states: Map<Seq<char>, ChapterState>) -> nat
    decreases chapters.len(),
{
    if chapters.len() == 0 {
        0
    } else {
        untracked_count(chapters.drop_last(), states) + if chapter_source_untracked(chapters.last(), states) {
            1nat
        } else {
            0nat
        }
    }
}

/// The reason a changed source gives.
pub open spec fn source_changed_reason() -> Seq<char> {
    "Chapter source changed"@
}

/// The chapters with a translation whose source text changed since it was
/// recorded.
pub fn build_source_rerun_plan(chapters: &[ChapterSource], previous_chapter_states: &StrMap<ChapterState>) -> (r:
    SourceRerunPlan)
    ensures
        forall|k: Seq<char>| #[trigger] r.forced_chapters.map().contains_key(k) <==> source_changed_paths(chapters@, previous_chapter_states.map()).contains(k),
        forall|k: Seq<char>|
            r.forced_chapters.map().contains_key(k) ==> (#[trigger] r.forced_chapters.map()[k]).reason@
                == source_changed_reason() && !r.forced_chapters.map()[k].is_approximate,
        r.untracked_chapters == untracked_count(chapters@, previous_chapter_states.map()),
{
    let mut forced: StrMap<RerunDecision> = StrMap::new();
    let mut untracked: usize = 0;
    let mut i: usize = 0;
    while i < chapters.len()
        invariant
            i <= chapters.len(),
            untracked <= i,
            untracked == untracked_count(chapters@.take(i as int), previous_chapter_states.map()),
            forall|k: Seq<char>| #[trigger] forced.map().contains_key(k) <==> source_changed_paths(chapters@.take(i as int), previous_chapter_states.map()).contains(k),
            forall|k: Seq<char>|
                forced.map().contains_key(k) ==> (#[trigger] forced.map()[k]).reason@ == source_changed_reason()
                    && !forced.map()[k].is_approximate,
        decreases chapters.len() - i,
    {
        let ch = &chapters[i];
        proof {
            assert(chapters@.take(i + 1).drop_last() =~= chapters@.take(i as int));
            assert(chapters@.take(i + 1).last() == *ch);
        }
        if ch.has_output {
            match previous_chapter_states.get(ch.chapter_path.as_str()) {
                Some(state) => {
                    match &state.source_text_hash {
                        None => {
                            untracked = untracked + 1;
                        },
                        Some(previous_hash) => {
                            let current_hash = normalized_source_text_hash(ch.text.as_str());
                            if current_hash != *previous_hash {
                                forced.insert(
                                    ch.chapter_path.clone(),
                                    RerunDecision { reason: lit("Chapter source changed"), is_approximate: false },
                                );
                            }
                        },
                    }
                },
                None => {},
            }
        }
        i = i + 1;
    }
    assert(chapters@.take(chapters.len() as int) =~= chapters@);
    SourceRerunPlan { forced_chapters: forced, untracked_chapters: untracked }
}

/// A path is among the changed sources exactly when some chapter at that
/// path is changed.
proof fn lemma_source_changed_paths(chapters: Seq<ChapterSource>, states: Map<Seq<char>, ChapterState>, k: Seq<char>)
    ensures
        source_changed_paths(chapters, states).contains(k) <==> exists|i: int|
            0 <= i < chapters.len() && (#[trigger] chapters[i]).chapter_path@ == k && chapter_source_changed(
                chapters[i],
                states,
            ),
    decreases chapters.len(),
{
    if chapters.len() > 0 {
        let p = chapters.drop_last();
        lemma_source_changed_paths(p, states, k);
        if source_changed_paths(p, states).contains(k) {
            let i = choose|i: int| 0 <= i < p.len() && (#[trigger] p[i]).chapter_path@ == k && chapter_source_changed(p[i], states);
            assert(chapters[i] == p[i]);
        }
        if exists|i: int| 0 <= i < chapters.len() && (#[trigger] chapters[i]).chapter_path@ == k && chapter_source_changed(chapters[i], states) {
            let i = choose|i: int| 0 <= i < chapters.len() && (#[trigger] chapters[i]).chapter_path@ == k && chapter_source_changed(chapters[i], states);
            if i < p.len() {
                assert(p[i] == chapters[i]);
            }
        }
    }
}

/// A source rerun plan forces a chapter exactly when the chapter has a
/// translation and a recorded source hash that differs from the hash of its
/// current normalized text: every such chapter is forced for "Chapter source
/// changed" (exactly), and every forced path belongs to such a chapter, so
/// a chapter whose recorded hash is its current one is not forced (unless
/// another chapter at the same path changed).
pub proof fn law_source_plan_forces_changed_sources(
    chapters: Seq<ChapterSource>,
    states: Map<Seq<char>, ChapterState>,
    plan: SourceRerunPlan,
)
    requires
        forall|k: Seq<char>| #[trigger] plan.forced_chapters.map().contains_key(k) <==> source_changed_paths(chapters, states).contains(k),
        forall|k: Seq<char>|
            plan.forced_chapters.map().contains_key(k) ==> (#[trigger] plan.forced_chapters.map()[k]).reason@
                == source_changed_reason() && !plan.forced_chapters.map()[k].is_approximate,
    ensures
        forall|i: int|
            0 <= i < chapters.len() && (#[trigger] chapters[i]).has_output && states.contains_key(chapters[i].chapter_path@)
                && states[chapters[i].chapter_path@].source_text_hash is Some
                && states[chapters[i].chapter_path@].source_text_hash->0@ != source_hash_of(chapters[i].text@)
                ==> plan.forced_chapters.map().contains_key(chapters[i].chapter_path@)
                && plan.forced_chapters.map()[chapters[i].chapter_path@].reason@ == "Chapter source changed"@
                && !plan.forced_chapters.map()[chapters[i].chapter_path@].is_approximate,
        forall|k: Seq<char>| #[trigger]
            plan.forced_chapters.map().contains_key(k) ==> exists|i: int|
                0 <= i < chapters.len() && (#[trigger] chapters[i]).chapter_path@ == k && chapters[i].has_output
                    && states.contains_key(k) && states[k].source_text_hash is Some
                    && states[k].source_text_hash->0@ != source_hash_of(chapters[i].text@),
{
    assert forall|i: int|
        0 <= i < chapters.len() && (#[trigger] chapters[i]).has_output && states.contains_key(chapters[i].chapter_path@)
            && states[chapters[i].chapter_path@].source_text_hash is Some
            && states[chapters[i].chapter_path@].source_text_hash->0@ != source_hash_of(chapters[i].text@)
        implies plan.forced_chapters.map().contains_key(chapters[i].chapter_path@) by {
        lemma_source_changed_paths(chapters, states, chapters[i].chapter_path@);
        assert(chapter_source_changed(chapters[i], states));
    }
    assert forall|k: Seq<char>| #[trigger] plan.forced_chapters.map().contains_key(k) implies exists|i: int|
        0 <= i < chapters.len() && (#[trigger] chapters[i]).chapter_path@ == k && chapters[i].has_output
            && states.contains_key(k) && states[k].source_text_hash is Some
            && states[k].source_text_hash->0@ != source_hash_of(chapters[i].text@) by {
        lemma_source_changed_paths(chapters, states, k);
    }
}

/// The decision that a glossary decision and a source decision make
/// together: either one alone, or both reasons joined by `; `, approximate
/// when either is.
pub open spec fn combined_decision(g: Option<RerunDecision>, s: Option<RerunDecision>) -> Option<(Seq<char>, bool)> {
    match (g, s) {
        (None, None) => None,
        (Some(a), None) => Some((a.reason@, a.is_approximate)),
        (None, Some(b)) => Some((b.reason@, b.is_approximate)),
        (Some(a), Some(b)) => Some((a.reason@ + "; "@ + b.reason@, a.is_approximate || b.is_approximate)),
    }
}

/// Combines the glossary and source decisions for a chapter.
pub fn combine_rerun_decisions(
    glossary_decision: Option<&RerunDecision>,
    source_decision: Option<&RerunDecision>,
) -> (r: Option<RerunDecision>)
    ensures
        decision_is(
            r,
            combined_decision(
                match glossary_decision {
                    Some(d) => Some(*d),
                    None => None,
                },
                match source_decision {
                    Some(d) => Some(*d),
                    None => None,
                },
            ),
        ),
{
    match (glossary_decision, source_decision) {
        (None, None) => None,
        (Some(g), None) => Some(g.clone()),
        (None, Some(s)) => Some(s.clone()),
        (Some(g), Some(s)) => {
            let mut reason = g.reason.clone();
            reason.append("; ");
            reason.append(s.reason.as_str());
            Some(RerunDecision { reason, is_approximate: g.is_approximate || s.is_approximate })
        },
    }
}

/// The injection mode a chapter is translated with: the book's, whatever
/// forced a rerun of the chapter.
pub fn chapter_translation_injection_mode(injection_mode: InjectionMode, rerun_decision: Option<&RerunDecision>) -> (r:
    InjectionMode)
    ensures
        r == injection_mode,
{
    injection_mode
}

} // verus!
