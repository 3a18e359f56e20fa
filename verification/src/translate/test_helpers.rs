//! Small builders of sample values: a glossary term, the default run
//! options and a sample glossary with a text that mentions every term.

use vstd::prelude::*;

use crate::glossary::GlossaryTerm;
use crate::text::lit;
use crate::translate::cmd::TranslateOptions;
use crate::RerunMode;

verus! {

/// A glossary term without notes.
pub fn glossary_term(term: &str, og_term: Option<&str>, definition: &str) -> (r: GlossaryTerm)
    ensures
        r.term@ == term@,
        r.definition@ == definition@,
        r.notes.is_none(),
        r.og_term.is_some() == og_term.is_some(),
        og_term.is_some() ==> r.og_term.unwrap()@ == og_term.unwrap()@,
{
    let og = match og_term {
        Some(s) => Some(lit(s)),
        None => None,
    };
    GlossaryTerm { term: lit(term), og_term: og, definition: lit(definition), notes: None }
}

/// Run options with every flag off and no profile override.
pub fn translate_options(rerun: Option<RerunMode>) -> (r: TranslateOptions)
    ensures
        r.rerun == rerun,
        r.profile.is_none(),
        r.repair_profile.is_none(),
        r.glossary_profile.is_none(),
        !r.overwrite,
        !r.fail_fast,
        !r.dry_run,
{
    TranslateOptions {
        profile: None,
        repair_profile: None,
        glossary_profile: None,
        overwrite: false,
        fail_fast: false,
        rerun,
        dry_run: false,
    }
}

/// A glossary of five terms, each with an original term, the first with
/// the given definition.
pub fn smart_glossary(hero_definition: &str) -> (r: Vec<GlossaryTerm>)
    ensures
        r@.len() == 5,
        r@[0].term@ == "Hero"@,
        r@[0].definition@ == hero_definition@,
        forall|i: int| 0 <= i < 5 ==> (#[trigger] r@[i]).og_term.is_some(),
{
    let mut v: Vec<GlossaryTerm> = Vec::new();
    v.push(glossary_term("Hero", Some("勇者"), hero_definition));
    v.push(glossary_term("Mage", Some("魔導士"), "Mage definition"));
    v.push(glossary_term("Holy Sword", Some("聖剣"), "Sword definition"));
    v.push(glossary_term("Royal Castle", Some("王城"), "Castle definition"));
    v.push(glossary_term("Dragon King", Some("竜王"), "Dragon definition"));
    v
}

/// A sentence that mentions every original term of `smart_glossary`.
pub fn smart_text() -> (r: &'static str)
    ensures
        r@ == "勇者は魔導士と聖剣を手に王城で竜王と戦った。"@,
{
    "勇者は魔導士と聖剣を手に王城で竜王と戦った。"
}

} // verus!
