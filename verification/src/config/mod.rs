//! The global configuration: providers with their API keys, and named
//! profiles that pick a provider, a model and a key.

pub mod choices;
pub mod profile;

use vstd::prelude::*;

use crate::strmap::StrMap;
use crate::text::lit;

verus! {

/// The kinds of provider the tool can talk to.
#[derive(Debug, Clone, Copy, PartialEq, Eq, Structural)]
pub enum ProviderKind {
    Gemini,
    Openai,
    Cohere,
    OpenaiCompatible,
}

/// The lower-case identifier of a kind, as error messages use it.
pub open spec fn kind_slug(k: ProviderKind) -> Seq<char> {
    match k {
        ProviderKind::Gemini => "gemini"@,
        ProviderKind::Openai => "openai"@,
        ProviderKind::OpenaiCompatible => "openai"@,
        ProviderKind::Cohere => "cohere"@,
    }
}

/// The display name of a kind.
pub open spec fn kind_name(k: ProviderKind) -> Seq<char> {
    match k {
        ProviderKind::Gemini => "Gemini"@,
        ProviderKind::Openai => "OpenAI"@,
        ProviderKind::Cohere => "Cohere"@,
        ProviderKind::OpenaiCompatible => "OpenAI-compatible"@,
    }
}

/// The built-in kind a provider name stands for.
pub open spec fn kind_of_slug(name: Seq<char>) -> Option<ProviderKind> {
    if name == "gemini"@ {
        Some(ProviderKind::Gemini)
    } else if name == "openai"@ {
        Some(ProviderKind::Openai)
    } else if name == "cohere"@ {
        Some(ProviderKind::Cohere)
    } else {
        None
    }
}

impl ProviderKind {
    /// Lower-case identifier used in error messages; OpenAI-compatible
    /// endpoints report as `openai`, since they share the OpenAI client.
    pub fn slug(&self) -> (r: &'static str)
        ensures
            r@ == kind_slug(*self),
    {
        match self {
            ProviderKind::Gemini => "gemini",
            ProviderKind::Openai => "openai",
            ProviderKind::OpenaiCompatible => "openai",
            ProviderKind::Cohere => "cohere",
        }
    }

    /// The built-in kind for a provider name; unknown names give `None`.
    pub fn from_slug(name: &str) -> (r: Option<ProviderKind>)
        ensures
            r == kind_of_slug(name@),
    {
        if crate::strmap::str_eq(name, "gemini") {
            Some(ProviderKind::Gemini)
        } else if crate::strmap::str_eq(name, "openai") {
            Some(ProviderKind::Openai)
        } else if crate::strmap::str_eq(name, "cohere") {
            Some(ProviderKind::Cohere)
        } else {
            None
        }
    }

    /// The display name of the kind.
    pub fn to_string(&self) -> (r: String)
        ensures
            r@ == kind_name(*self),
    {
        match self {
            ProviderKind::Gemini => lit("Gemini"),
            ProviderKind::Openai => lit("OpenAI"),
            ProviderKind::Cohere => lit("Cohere"),
            ProviderKind::OpenaiCompatible => lit("OpenAI-compatible"),
        }
    }
}

/// An API key, optionally labelled.
#[derive(Debug)]
pub struct ApiKey {
    pub value: String,
    pub name: Option<String>,
}

impl Clone for ApiKey {
    fn clone(&self) -> (r: Self)
        ensures
            r == *self,
    {
        ApiKey { value: self.value.clone(), name: crate::glossary::copy_opt(&self.name) }
    }
}

/// A configured provider.
#[derive(Debug)]
pub struct ProviderConfig {
    pub kind: ProviderKind,
    pub keys: Vec<ApiKey>,
    pub base_url: Option<String>,
}

/// A named profile: a provider, a model, and optionally the label of the
/// key to use.
#[derive(Debug)]
pub struct ProfileConfig {
    pub provider: String,
    pub model: String,
    pub key: Option<String>,
}

/// The global configuration.
pub struct GlobalConfig {
    pub default_profile: Option<String>,
    pub providers: StrMap<ProviderConfig>,
    pub profiles: StrMap<ProfileConfig>,
}

impl Default for GlobalConfig {
    fn default() -> (r: Self)
        ensures
            r.default_profile.is_none(),
            r.providers.keys().len() == 0,
            r.profiles.keys().len() == 0,
    {
        GlobalConfig { default_profile: None, providers: StrMap::new(), profiles: StrMap::new() }
    }
}

/// The first key of `keys` whose label is `label`.
pub open spec fn first_labelled(keys: Seq<ApiKey>, label: Seq<char>) -> Option<int>
    decreases keys.len(),
{
    if keys.len() == 0 {
        None
    } else {
        match first_labelled(keys.drop_last(), label) {
            Some(i) => Some(i),
            None => if keys.last().name.is_some() && keys.last().name.unwrap()@ == label {
                Some(keys.len() - 1)
            } else {
                None
            },
        }
    }
}

pub proof fn lemma_first_labelled(keys: Seq<ApiKey>, label: Seq<char>)
    ensures
        first_labelled(keys, label) matches Some(i) ==> 0 <= i < keys.len() && keys[i].name.is_some()
            && keys[i].name.unwrap()@ == label,
    decreases keys.len(),
{
    if keys.len() > 0 {
        lemma_first_labelled(keys.drop_last(), label);
    }
}

/// The key a provider gives for a label (the first key with that label),
/// or its first key when no label is asked for.
pub open spec fn provider_key(config: GlobalConfig, provider: Seq<char>, label: Option<Seq<char>>) -> Option<Seq<char>> {
    if !config.providers.map().contains_key(provider) {
        None
    } else {
        let keys = config.providers.map()[provider].keys@;
        match label {
            Some(l) => match first_labelled(keys, l) {
                Some(i) => Some(keys[i].value@),
                None => None,
            },
            None => if keys.len() > 0 {
                Some(keys[0].value@)
            } else {
                None
            },
        }
    }
}

/// The view of an optional string slice.
pub open spec fn opt_view(o: Option<&str>) -> Option<Seq<char>> {
    match o {
        Some(s) => Some(s@),
        None => None,
    }
}

/// The view of an optional string.
pub open spec fn opt_string_view(o: Option<String>) -> Option<Seq<char>> {
    match o {
        Some(s) => Some(s@),
        None => None,
    }
}

impl GlobalConfig {
    /// The profile with the given name.
    pub fn resolve_profile(&self, name: &str) -> (r: Option<&ProfileConfig>)
        ensures
            match r {
                Some(p) => self.profiles.map().contains_key(name@) && self.profiles.map()[name@] == *p,
                None => !self.profiles.map().contains_key(name@),
            },
    {
        self.profiles.get(name)
    }

    /// The provider with the given name.
    pub fn resolve_provider(&self, provider: &str) -> (r: Option<&ProviderConfig>)
        ensures
            match r {
                Some(p) => self.providers.map().contains_key(provider@) && self.providers.map()[provider@] == *p,
                None => !self.providers.map().contains_key(provider@),
            },
    {
        self.providers.get(provider)
    }

    /// The API key of a provider: the first key with the given label, or its
    /// first key when no label is given.
    pub fn get_provider_key_by_label(&self, provider: &str, label: Option<&str>) -> (r: Option<&str>)
        ensures
            opt_view(r) == provider_key(*self, provider@, opt_view(label)),
    {
        let cfg = match self.providers.get(provider) {
            Some(c) => c,
            None => return None,
        };
        let keys = &cfg.keys;
        match label {
            Some(l) => {
                let mut i: usize = 0;
                while i < keys.len()
                    invariant
                        i <= keys.len(),
                        first_labelled(keys@.take(i as int), l@).is_none(),
                        self.providers.map().contains_key(provider@),
                        self.providers.map()[provider@].keys@ == keys@,
                        label == Some(l),
                    decreases keys.len() - i,
                {
                    proof {
                        assert(keys@.take(i + 1).drop_last() =~= keys@.take(i as int));
                        assert(keys@.take(i + 1).last() == keys@[i as int]);
                    }
                    let hit = match &keys[i].name {
                        Some(n) => crate::strmap::str_eq(n.as_str(), l),
                        None => false,
                    };
                    if hit {
                        proof {
                            assert(first_labelled(keys@.take(i + 1), l@) == Some(i as int));
                            lemma_first_labelled_prefix(keys@, l@, i as int + 1);
                            assert(self.providers.map()[provider@].keys@ == keys@);
                            assert(first_labelled(keys@, l@) == Some(i as int));
                        }
                        return Some(keys[i].value.as_str());
                    }
                    i = i + 1;
                }
                assert(keys@.take(keys.len() as int) =~= keys@);
                None
            },
            None => {
                if keys.len() > 0 {
                    Some(keys[0].value.as_str())
                } else {
                    None
                }
            },
        }
    }

    /// The profile a book uses: its own setting when that is not empty,
    /// else the default profile.
    pub fn effective_profile_name<'a>(&'a self, book_profile: Option<&'a str>) -> (r: Option<&'a str>)
        ensures
            opt_view(r) == (match book_profile {
                Some(b) if b@.len() > 0 => Some(b@),
                _ => opt_string_view(self.default_profile),
            }),
    {
        match book_profile {
            Some(b) => {
                if !b.is_empty() {
                    return Some(b);
                }
            },
            None => {},
        }
        match &self.default_profile {
            Some(d) => Some(d.as_str()),
            None => None,
        }
    }
}

/// A label found in a prefix of the keys is found, at the same place, in
/// all of them.
proof fn lemma_first_labelled_prefix(keys: Seq<ApiKey>, label: Seq<char>, n: int)
    requires
        0 <= n <= keys.len(),
        first_labelled(keys.take(n), label).is_some(),
    ensures
        first_labelled(keys, label) == first_labelled(keys.take(n), label),
    decreases keys.len() - n,
{
    if n < keys.len() {
        assert(keys.take(n + 1).drop_last() =~= keys.take(n));
        lemma_first_labelled_prefix(keys, label, n + 1);
    } else {
        assert(keys.take(n) =~= keys);
    }
}

/// The outcome of checking a profile.
pub struct ConfigValidation {
    pub profile_exists: bool,
    pub provider_exists: bool,
    pub has_key: bool,
    pub errors: Vec<String>,
}

impl ConfigValidation {
    /// The profile, its provider and its key all exist, and nothing else
    /// is wrong.
    pub fn is_valid(&self) -> (r: bool)
        ensures
            r == (self.profile_exists && self.provider_exists && self.has_key && self.errors@.len() == 0),
    {
        self.profile_exists && self.provider_exists && self.has_key && self.errors.len() == 0
    }
}

/// The messages of profile validation.
pub open spec fn profile_not_found_message(name: Seq<char>) -> Seq<char> {
    "Profile '"@ + name + "' not found"@
}

pub open spec fn base_url_required_message(provider: Seq<char>) -> Seq<char> {
    "OpenAI-compatible provider '"@ + provider + "' requires base_url"@
}

pub open spec fn provider_not_found_message(provider: Seq<char>) -> Seq<char> {
    "Provider '"@ + provider + "' not found"@
}

pub open spec fn no_labelled_key_message(label: Seq<char>, provider: Seq<char>) -> Seq<char> {
    "No API key labeled '"@ + label + "' configured for provider '"@ + provider + "'"@
}

pub open spec fn no_key_message(provider: Seq<char>) -> Seq<char> {
    "No API key configured for provider '"@ + provider + "'"@
}

/// The errors that validating profile `name` reports, in order.
pub open spec fn profile_errors(config: GlobalConfig, name: Seq<char>) -> Seq<Seq<char>> {
    if !config.profiles.map().contains_key(name) {
        seq![profile_not_found_message(name)]
    } else {
        let p = config.profiles.map()[name];
        let pv = p.provider@;
        let provider_errors: Seq<Seq<char>> = if config.providers.map().contains_key(pv) {
            let c = config.providers.map()[pv];
            if c.kind == ProviderKind::OpenaiCompatible && c.base_url.is_none() {
                seq![base_url_required_message(pv)]
            } else {
                Seq::empty()
            }
        } else {
            seq![provider_not_found_message(pv)]
        };
        let key_errors: Seq<Seq<char>> = if provider_key(config, pv, opt_string_view(p.key)).is_none() {
            match p.key {
                Some(l) => seq![no_labelled_key_message(l@, pv)],
                None => seq![no_key_message(pv)],
            }
        } else {
            Seq::empty()
        };
        provider_errors + key_errors
    }
}

fn quoted_message(prefix: &str, value: &str, suffix: &str) -> (r: String)
    ensures
        r@ == prefix@ + value@ + suffix@,
{
    let mut m = lit(prefix);
    m.append(value);
    m.append(suffix);
    m
}

/// Checks that a profile exists and that its provider and key are
/// configured.
pub fn validate_profile(config: &GlobalConfig, profile_name: &str) -> (r: ConfigValidation)
    ensures
        r.profile_exists == config.profiles.map().contains_key(profile_name@),
        r.profile_exists ==> r.provider_exists == config.providers.map().contains_key(
            config.profiles.map()[profile_name@].provider@,
        ),
        r.profile_exists ==> r.has_key == provider_key(
            *config,
            config.profiles.map()[profile_name@].provider@,
            opt_string_view(config.profiles.map()[profile_name@].key),
        ).is_some(),
        !r.profile_exists ==> !r.provider_exists && !r.has_key,
        views_of(r.errors@) == profile_errors(*config, profile_name@),
{
    let profile = match config.resolve_profile(profile_name) {
        None => {
            let mut errors: Vec<String> = Vec::new();
            errors.push(quoted_message("Profile '", profile_name, "' not found"));
            assert(views_of(errors@) =~= profile_errors(*config, profile_name@));
            return ConfigValidation { profile_exists: false, provider_exists: false, has_key: false, errors };
        },
        Some(p) => p,
    };
    let mut errors: Vec<String> = Vec::new();
    let mut provider_exists = false;
    match config.resolve_provider(profile.provider.as_str()) {
        Some(provider) => {
            provider_exists = true;
            if provider.kind == ProviderKind::OpenaiCompatible && provider.base_url.is_none() {
                errors.push(quoted_message("OpenAI-compatible provider '", profile.provider.as_str(), "' requires base_url"));
            }
        },
        None => {
            errors.push(quoted_message("Provider '", profile.provider.as_str(), "' not found"));
        },
    }
    let ghost provider_part = views_of(errors@);
    let label: Option<&str> = match &profile.key {
        Some(k) => Some(k.as_str()),
        None => None,
    };
    let selected = config.get_provider_key_by_label(profile.provider.as_str(), label);
    let mut has_key = false;
    if selected.is_none() {
        match &profile.key {
            Some(l) => {
                let mut m = lit("No API key labeled '");
                m.append(l.as_str());
                m.append("' configured for provider '");
                m.append(profile.provider.as_str());
                m.append("'");
                errors.push(m);
            },
            None => {
                errors.push(quoted_message("No API key configured for provider '", profile.provider.as_str(), "'"));
            },
        }
    } else {
        has_key = true;
    }
    proof {
        assert(opt_view(label) == opt_string_view(profile.key));
        assert(views_of(errors@) =~= profile_errors(*config, profile_name@));
    }
    ConfigValidation { profile_exists: true, provider_exists, has_key, errors }
}

/// The texts of a list of strings.
pub open spec fn views_of(v: Seq<String>) -> Seq<Seq<char>> {
    crate::text::views(v)
}

} // verus!
