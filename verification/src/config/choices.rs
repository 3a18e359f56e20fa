//! The decisions behind the interactive profile set-up: the menus it
//! shows, what an answer selects, and which answers are accepted.

use vstd::prelude::*;

use crate::config::profile::{display_name, label_used, provider_display_name};
use crate::config::{ApiKey, GlobalConfig, ProviderConfig, ProviderKind};
use crate::text::{decimal, lit, trim, trim_str, usize_to_string, views};

verus! {

/// The last entry of the provider menu.
pub open spec fn create_provider_item() -> Seq<char> {
    "Create new provider"@
}

/// The last entry of the key menu.
pub open spec fn add_key_item() -> Seq<char> {
    "Add new API key"@
}

/// The provider menu: each configured provider's display name, in name
/// order, then the entry that creates a provider.
pub open spec fn provider_menu(config: GlobalConfig) -> Seq<Seq<char>> {
    Seq::new(
        config.providers.keys().len(),
        |i: int| display_name(config.providers.keys()[i], config.providers.values()[i]),
    ).push(create_provider_item())
}

/// The entries of the provider menu.
pub fn provider_menu_items(config: &GlobalConfig) -> (r: Vec<String>)
    ensures
        views(r@) == provider_menu(*config),
{
    let n = config.providers.len();
    let mut items: Vec<String> = Vec::new();
    let mut i: usize = 0;
    while i < n
        invariant
            i <= n,
            n == config.providers.keys().len(),
            items@.len() == i,
            forall|j: int|
                0 <= j < i ==> (#[trigger] items@[j])@ == display_name(
                    config.providers.keys()[j],
                    config.providers.values()[j],
                ),
        decreases n - i,
    {
        let (name, cfg) = config.providers.entry_at(i);
        items.push(provider_display_name(name.as_str(), cfg));
        i = i + 1;
    }
    items.push(lit("Create new provider"));
    assert(views(items@) =~= provider_menu(*config));
    items
}

/// The provider a menu answer selects: the configured provider at that
/// position, or none for the create entry (or beyond).
pub fn chosen_provider(config: &GlobalConfig, selection: usize) -> (r: Option<String>)
    ensures
        selection < config.providers.keys().len() ==> r.is_some() && r.unwrap()@
            == config.providers.keys()[selection as int],
        selection >= config.providers.keys().len() ==> r.is_none(),
{
    if selection < config.providers.len() {
        let (name, _) = config.providers.entry_at(selection);
        Some(name.clone())
    } else {
        None
    }
}

/// How a key is listed: its label, or `(unnamed) # n` for the `n`-th key.
pub open spec fn key_item(k: ApiKey, i: int) -> Seq<char> {
    match k.name {
        Some(n) => n@,
        None => "(unnamed) # "@ + decimal((i + 1) as nat),
    }
}

/// The key menu: each key as listed, then the entry that adds a key.
pub open spec fn key_menu(keys: Seq<ApiKey>) -> Seq<Seq<char>> {
    Seq::new(keys.len(), |i: int| key_item(keys[i], i)).push(add_key_item())
}

/// The entries of the key menu.
pub fn key_menu_items(keys: &[ApiKey]) -> (r: Vec<String>)
    requires
        keys@.len() < usize::MAX,
    ensures
        views(r@) == key_menu(keys@),
{
    let mut items: Vec<String> = Vec::new();
    let mut i: usize = 0;
    while i < keys.len()
        invariant
            i <= keys@.len() < usize::MAX,
            items@.len() == i,
            forall|j: int| 0 <= j < i ==> (#[trigger] items@[j])@ == key_item(keys@[j], j),
        decreases keys.len() - i,
    {
        let item = match &keys[i].name {
            Some(n) => n.clone(),
            None => {
                let mut s = lit("(unnamed) # ");
                let d = usize_to_string(i + 1);
                s.append(d.as_str());
                s
            },
        };
        items.push(item);
        i = i + 1;
    }
    items.push(lit("Add new API key"));
    assert(views(items@) =~= key_menu(keys@));
    items
}

/// Messages for rejected provider names.
pub open spec fn empty_provider_name_message() -> Seq<char> {
    "Provider name cannot be empty. Please try again."@
}

pub open spec fn provider_name_space_message() -> Seq<char> {
    "Provider name cannot contain spaces. Please try again."@
}

/// The result is the error `m`.
pub open spec fn fails_with(r: Result<String, String>, m: Seq<char>) -> bool {
    match r {
        Err(e) => e@ == m,
        Ok(_) => false,
    }
}

/// The result is the value `v`.
pub open spec fn gives(r: Result<String, String>, v: Seq<char>) -> bool {
    match r {
        Ok(x) => x@ == v,
        Err(_) => false,
    }
}

/// Checks a new provider's name: trimmed, it must be non-empty and have no
/// space. Gives the trimmed name, or the message to show before asking
/// again.
pub fn check_provider_name(input: &str) -> (r: Result<String, String>)
    ensures
        trim(input@).len() == 0 ==> fails_with(r, empty_provider_name_message()),
        trim(input@).len() > 0 && trim(input@).contains(' ') ==> fails_with(r, provider_name_space_message()),
        trim(input@).len() > 0 && !trim(input@).contains(' ') ==> gives(r, trim(input@)),
{
    let name = trim_str(input);
    if name.as_str().is_empty() {
        return Err(lit("Provider name cannot be empty. Please try again."));
    }
    let v = crate::text::chars_of(name.as_str());
    let mut i: usize = 0;
    while i < v.len()
        invariant
            i <= v.len(),
            v@ == trim(input@),
            forall|j: int| 0 <= j < i ==> v@[j] != ' ',
        decreases v.len() - i,
    {
        if v[i] == ' ' {
            assert(v@.contains(' ')) by {
                assert(v@[i as int] == ' ');
            }
            return Err(lit("Provider name cannot contain spaces. Please try again."));
        }
        i = i + 1;
    }
    Ok(name)
}

/// What a key label answer leads to.
pub enum KeyLabelAnswer {
    /// Use this label.
    Label(String),
    /// Go on without a label.
    NoLabel,
    /// Show the message and ask again.
    AskAgain(String),
}

/// The answer asks again with message `m`.
pub open spec fn asks_again(r: KeyLabelAnswer, m: Seq<char>) -> bool {
    match r {
        KeyLabelAnswer::AskAgain(x) => x@ == m,
        _ => false,
    }
}

/// The answer uses label `l`.
pub open spec fn uses_label(r: KeyLabelAnswer, l: Seq<char>) -> bool {
    match r {
        KeyLabelAnswer::Label(x) => x@ == l,
        _ => false,
    }
}

pub open spec fn empty_label_message() -> Seq<char> {
    "Key label cannot be empty. Please try again."@
}

pub open spec fn used_label_message() -> Seq<char> {
    "That key label is already used for this provider. Please choose another."@
}

/// Checks a key label answer: trimmed; an empty one is refused when a
/// label is required and else means no label; one that a key of the
/// provider already has is refused.
pub fn check_key_label(existing: &[ApiKey], input: &str, require_label: bool) -> (r: KeyLabelAnswer)
    ensures
        trim(input@).len() == 0 && require_label ==> asks_again(r, empty_label_message()),
        trim(input@).len() == 0 && !require_label ==> r is NoLabel,
        trim(input@).len() > 0 && label_used(existing@, trim(input@)) ==> asks_again(r, used_label_message()),
        trim(input@).len() > 0 && !label_used(existing@, trim(input@)) ==> uses_label(r, trim(input@)),
{
    let label = trim_str(input);
    if label.as_str().is_empty() {
        if require_label {
            return KeyLabelAnswer::AskAgain(lit("Key label cannot be empty. Please try again."));
        }
        return KeyLabelAnswer::NoLabel;
    }
    let mut i: usize = 0;
    while i < existing.len()
        invariant
            i <= existing.len(),
            label@ == trim(input@),
            label@.len() > 0,
            forall|j: int|
                0 <= j < i ==> !((#[trigger] existing@[j]).name.is_some() && existing@[j].name.unwrap()@
                    == label@),
        decreases existing.len() - i,
    {
        let hit = match &existing[i].name {
            Some(n) => *n == label,
            None => false,
        };
        if hit {
            return KeyLabelAnswer::AskAgain(
                lit("That key label is already used for this provider. Please choose another."),
            );
        }
        i = i + 1;
    }
    KeyLabelAnswer::Label(label)
}

/// The model a model answer names: the answer trimmed, or `gpt-4o-mini`
/// when that is empty.
pub fn model_or_default(input: &str) -> (r: String)
    ensures
        trim(input@).len() == 0 ==> r@ == "gpt-4o-mini"@,
        trim(input@).len() > 0 ==> r@ == trim(input@),
{
    let model = trim_str(input);
    if model.as_str().is_empty() {
        lit("gpt-4o-mini")
    } else {
        model
    }
}

/// Adds a built-in provider without keys unless one of that name exists;
/// gives its name.
pub fn create_builtin_provider(config: &mut GlobalConfig, name: &str, kind: ProviderKind) -> (r: String)
    ensures
        r@ == name@,
        old(config).providers.map().contains_key(name@) ==> final(config).providers.map() == old(
            config,
        ).providers.map(),
        !old(config).providers.map().contains_key(name@) ==> final(config).providers.map().contains_key(name@)
            && final(config).providers.map()[name@].kind == kind && final(config).providers.map()[name@].keys@.len()
            == 0 && final(config).providers.map()[name@].base_url.is_none() && final(config).providers.map().remove(
            name@,
        ) == old(config).providers.map(),
        final(config).profiles.map() == old(config).profiles.map(),
        final(config).default_profile == old(config).default_profile,
{
    if !config.providers.contains_key(name) {
        let keys: Vec<ApiKey> = Vec::new();
        config.providers.insert(lit(name), ProviderConfig { kind, keys, base_url: None });
    }
    lit(name)
}

/// Makes `name` the default profile when there is none, or when the user
/// confirmed it; says whether it did.
pub fn apply_default_profile_choice(config: &mut GlobalConfig, name: &str, confirmed: bool) -> (r: bool)
    ensures
        r == (old(config).default_profile.is_none() || confirmed),
        r ==> final(config).default_profile.is_some() && final(config).default_profile.unwrap()@ == name@,
        !r ==> final(config).default_profile == old(config).default_profile,
        final(config).profiles.map() == old(config).profiles.map(),
        final(config).providers.map() == old(config).providers.map(),
{
    if config.default_profile.is_none() || confirmed {
        config.default_profile = Some(lit(name));
        true
    } else {
        false
    }
}

} // verus!
