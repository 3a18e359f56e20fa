//! Creating profiles, choosing a default, and checking profiles.

use vstd::prelude::*;

use crate::config::{
    kind_name, kind_of_slug, validate_profile, ApiKey, ConfigValidation, GlobalConfig, ProfileConfig,
    ProviderConfig, ProviderKind,
};
use crate::error::Error;
use crate::text::{decimal, lemma_decimal_injective, lit, trim, trim_str, usize_to_string};

verus! {

/// How a provider is shown: its name with its kind (and, for an
/// OpenAI-compatible endpoint, its URL).
pub open spec fn display_name(name: Seq<char>, cfg: ProviderConfig) -> Seq<char> {
    match cfg.kind {
        ProviderKind::OpenaiCompatible => match cfg.base_url {
            Some(url) => name + " (OpenAI-compatible, "@ + url@ + ")"@,
            None => name + " (OpenAI-compatible)"@,
        },
        _ => name + " ("@ + kind_name(cfg.kind) + ")"@,
    }
}

/// The name of a provider as menus show it.
pub fn provider_display_name(name: &str, cfg: &ProviderConfig) -> (r: String)
    ensures
        r@ == display_name(name@, *cfg),
{
    let mut r = lit(name);
    match cfg.kind {
        ProviderKind::OpenaiCompatible => match &cfg.base_url {
            Some(url) => {
                r.append(" (OpenAI-compatible, ");
                r.append(url.as_str());
                r.append(")");
            },
            None => {
                r.append(" (OpenAI-compatible)");
            },
        },
        _ => {
            r.append(" (");
            let k = cfg.kind.to_string();
            r.append(k.as_str());
            r.append(")");
        },
    }
    r
}

/// The label `key-n`.
pub open spec fn numbered_label(n: nat) -> Seq<char> {
    "key-"@ + decimal(n)
}

/// Some key of `keys` has label `l`.
pub open spec fn label_used(keys: Seq<ApiKey>, l: Seq<char>) -> bool {
    exists|i: int| 0 <= i < keys.len() && (#[trigger] keys[i]).name.is_some() && keys[i].name.unwrap()@ == l
}

/// The least `n` from `from` up to 10000 whose label `key-n` is free.
pub open spec fn first_free_number(keys: Seq<ApiKey>, from: nat) -> Option<nat>
    decreases 10001 - from,
{
    if from > 10000 {
        None
    } else if !label_used(keys, numbered_label(from)) {
        Some(from)
    } else {
        first_free_number(keys, from + 1)
    }
}

/// The label a new key gets: `key-n` for the least free `n` from 1 to
/// 10000, else `key`.
pub open spec fn fresh_label(keys: Seq<ApiKey>) -> Seq<char> {
    match first_free_number(keys, 1) {
        Some(n) => numbered_label(n),
        None => "key"@,
    }
}

/// Labels `key-n` of distinct numbers are distinct.
proof fn lemma_numbered_label_injective(a: nat, b: nat)
    requires
        numbered_label(a) == numbered_label(b),
    ensures
        a == b,
{
    reveal_strlit("key-");
    let la = numbered_label(a);
    let lb = numbered_label(b);
    assert(la.subrange(4, la.len() as int) =~= decimal(a));
    assert(lb.subrange(4, lb.len() as int) =~= decimal(b));
    lemma_decimal_injective(a, b);
}

/// What the search for a free number from `from` finds.
proof fn lemma_first_free_number(keys: Seq<ApiKey>, from: nat)
    ensures
        first_free_number(keys, from) matches Some(n) ==> !label_used(keys, numbered_label(n)),
        first_free_number(keys, from).is_none() ==> forall|n: nat|
            from <= n <= 10000 ==> label_used(keys, #[trigger] numbered_label(n)),
    decreases 10001 - from,
{
    if from <= 10000 {
        lemma_first_free_number(keys, from + 1);
    }
}

/// With fewer than 10000 keys some label `key-n` is free, so the label a
/// new key gets is never one that a key of the provider already has.
pub proof fn law_fresh_label_is_unused(keys: Seq<ApiKey>)
    requires
        keys.len() < 10000,
    ensures
        first_free_number(keys, 1).is_some(),
        !label_used(keys, fresh_label(keys)),
{
    lemma_first_free_number(keys, 1);
    if first_free_number(keys, 1).is_none() {
        let f = |n: int|
            choose|i: int|
                0 <= i < keys.len() && (#[trigger] keys[i]).name.is_some() && keys[i].name.unwrap()@ == numbered_label(
                    n as nat,
                );
        let dom = vstd::set_lib::set_int_range(1, 10001);
        let range = vstd::set_lib::set_int_range(0, keys.len() as int);
        vstd::set_lib::lemma_int_range(1, 10001);
        vstd::set_lib::lemma_int_range(0, keys.len() as int);
        assert forall|n: int| dom.contains(n) implies 0 <= #[trigger] f(n) < keys.len() && keys[f(n)].name.is_some()
            && keys[f(n)].name.unwrap()@ == numbered_label(n as nat) by {
            assert(label_used(keys, numbered_label(n as nat)));
        }
        assert forall|x1: int, x2: int| dom.contains(x1) && dom.contains(x2) && #[trigger] f(x1) == #[trigger] f(
            x2,
        ) implies x1 == x2 by {
            lemma_numbered_label_injective(x1 as nat, x2 as nat);
        }
        let img = dom.map(f);
        vstd::set_lib::lemma_map_size(dom, img, f);
        assert(img.subset_of(range)) by {
            assert forall|i: int| img.contains(i) implies range.contains(i) by {
                let n = choose|n: int| dom.contains(n) && f(n) == i;
            }
        }
        vstd::set_lib::lemma_len_subset(img, range);
    }
}

/// Whether some key has the label `l`.
fn label_in_use(keys: &[ApiKey], l: &String) -> (r: bool)
    ensures
        r == label_used(keys@, l@),
{
    let mut i: usize = 0;
    while i < keys.len()
        invariant
            i <= keys.len(),
            forall|j: int| 0 <= j < i ==> !((#[trigger] keys@[j]).name.is_some() && keys@[j].name.unwrap()@ == l@),
        decreases keys.len() - i,
    {
        let hit = match &keys[i].name {
            Some(n) => *n == *l,
            None => false,
        };
        if hit {
            return true;
        }
        i = i + 1;
    }
    false
}

/// A label for a new key that no existing key has (when one of `key-1` to
/// `key-10000` is free).
pub fn generate_unique_key_label(existing: &[ApiKey]) -> (r: String)
    ensures
        r@ == fresh_label(existing@),
        first_free_number(existing@, 1).is_some() ==> !label_used(existing@, r@),
{
    let mut n: usize = 1;
    while n <= 10000
        invariant
            1 <= n <= 10001,
            first_free_number(existing@, 1) == first_free_number(existing@, n as nat),
        decreases 10001 - n,
    {
        let mut candidate = lit("key-");
        let digits = usize_to_string(n);
        candidate.append(digits.as_str());
        if !label_in_use(existing, &candidate) {
            return candidate;
        }
        n = n + 1;
    }
    lit("key")
}

/// The messages of profile creation.
pub open spec fn name_required_message() -> Seq<char> {
    "--name is required for non-interactive profile creation"@
}

pub open spec fn provider_required_message() -> Seq<char> {
    "--provider is required for non-interactive profile creation"@
}

pub open spec fn empty_name_message() -> Seq<char> {
    "Profile name cannot be empty"@
}

pub open spec fn empty_provider_message() -> Seq<char> {
    "Provider name cannot be empty"@
}

pub open spec fn key_file_required_message() -> Seq<char> {
    "--api-key-file is required for non-interactive profile creation"@
}

pub open spec fn unknown_provider_message(provider: Seq<char>) -> Seq<char> {
    "Provider '"@ + provider + "' not found. Create it first or use 'gemini'/'openai'/'cohere'."@
}

/// The result is the validation error with message `m`.
pub open spec fn fails_validation(r: Result<(), Error>, m: Seq<char>) -> bool {
    match r {
        Err(e) => is_validation(e, m),
        Ok(_) => false,
    }
}

/// The validation error with a message.
pub open spec fn is_validation(e: Error, m: Seq<char>) -> bool {
    e matches Error::Validation { message } && message@ == m
}

/// Creates (or replaces) a profile without prompting.
///
/// `api_key_file` is what reading the key file gave, when one was named.
/// A provider that is not configured yet is added when it is a built-in
/// one. The key, trimmed, is added to the provider under `key_label` or a
/// fresh label, and the profile becomes the default when `set_default`
/// says so or, unset, when there is no default yet. The caller saves the
/// configuration.
pub fn create_profile(
    config: &mut GlobalConfig,
    name: Option<String>,
    provider: Option<String>,
    model: Option<String>,
    key_label: Option<String>,
    api_key_file: Option<Result<String, Error>>,
    set_default: Option<bool>,
) -> (r: Result<(), Error>)
    ensures
        name.is_none() ==> fails_validation(r, name_required_message()),
        name.is_some() && provider.is_none() ==> fails_validation(r, provider_required_message()),
        name.is_some() && provider.is_some() && name.unwrap()@.len() == 0 ==> fails_validation(r, empty_name_message()),
        name.is_some() && provider.is_some() && name.unwrap()@.len() > 0 && provider.unwrap()@.len() == 0
            ==> fails_validation(r, empty_provider_message()),
        name.is_some() && provider.is_some() && name.unwrap()@.len() > 0 && provider.unwrap()@.len() > 0
            && api_key_file.is_none() ==> fails_validation(r, key_file_required_message()),
        name.is_some() && provider.is_some() && name.unwrap()@.len() > 0 && provider.unwrap()@.len() > 0
            && api_key_file.is_some() && api_key_file.unwrap() is Err ==> r == Err::<(), Error>(api_key_file.unwrap()->Err_0),
        ({
            let ok_args = name.is_some() && provider.is_some() && name.unwrap()@.len() > 0
                && provider.unwrap()@.len() > 0 && api_key_file.is_some() && api_key_file.unwrap() is Ok;
            let pv = provider.unwrap()@;
            let unknown = !old(config).providers.map().contains_key(pv) && kind_of_slug(pv).is_none();
            &&& ok_args && unknown ==> (match r {
                Err(Error::Config(m)) => m@ == unknown_provider_message(pv),
                _ => false,
            })
            &&& r is Ok <==> ok_args && !unknown
        }),
        r is Err ==> final(config).providers.map() == old(config).providers.map() && final(config).profiles.map()
            == old(config).profiles.map() && final(config).default_profile == old(config).default_profile,
        r is Ok ==> {
            let n = name.unwrap();
            let pv = provider.unwrap()@;
            let old_keys: Seq<ApiKey> = if old(config).providers.map().contains_key(pv) {
                old(config).providers.map()[pv].keys@
            } else {
                Seq::empty()
            };
            let label = match key_label {
                Some(l) => l@,
                None => fresh_label(old_keys),
            };
            let p = final(config).profiles.map()[n@];
            let c = final(config).providers.map()[pv];
            &&& final(config).profiles.map() == old(config).profiles.map().insert(n@, p)
            &&& p.provider@ == pv
            &&& p.model@ == (match model {
                Some(m) => m@,
                None => "gpt-4o-mini"@,
            })
            &&& p.key.is_some() && p.key.unwrap()@ == label
            &&& final(config).providers.map().contains_key(pv)
            &&& forall|k: Seq<char>| k != pv ==> (#[trigger] final(config).providers.map().contains_key(k)
                <==> old(config).providers.map().contains_key(k))
            &&& forall|k: Seq<char>|
                k != pv && old(config).providers.map().contains_key(k) ==> #[trigger] final(config).providers.map()[k]
                    == old(config).providers.map()[k]
            &&& c.keys@.len() == old_keys.len() + 1
            &&& c.keys@.drop_last() == old_keys
            &&& c.keys@.last().value@ == trim(api_key_file.unwrap()->Ok_0@)
            &&& c.keys@.last().name.is_some() && c.keys@.last().name.unwrap()@ == label
            &&& old(config).providers.map().contains_key(pv) ==> c.kind == old(config).providers.map()[pv].kind
                && c.base_url == old(config).providers.map()[pv].base_url
            &&& !old(config).providers.map().contains_key(pv) ==> Some(c.kind) == kind_of_slug(pv) && c.base_url.is_none()
            &&& final(config).default_profile == (if (match set_default {
                Some(b) => b,
                None => old(config).default_profile.is_none(),
            }) {
                Some(n)
            } else {
                old(config).default_profile
            })
        },
{
    let profile_name = match name {
        Some(n) => n,
        None => {
            return Err(Error::Validation { message: lit("--name is required for non-interactive profile creation") });
        },
    };
    let provider = match provider {
        Some(p) => p,
        None => {
            return Err(Error::Validation { message: lit("--provider is required for non-interactive profile creation") });
        },
    };
    if profile_name.as_str().is_empty() {
        return Err(Error::Validation { message: lit("Profile name cannot be empty") });
    }
    if provider.as_str().is_empty() {
        return Err(Error::Validation { message: lit("Provider name cannot be empty") });
    }
    let model_name = match model {
        Some(m) => m,
        None => lit("gpt-4o-mini"),
    };
    let api_key = match api_key_file {
        None => {
            return Err(Error::Validation { message: lit("--api-key-file is required for non-interactive profile creation") });
        },
        Some(Err(e)) => {
            return Err(e);
        },
        Some(Ok(text)) => trim_str(text.as_str()),
    };
    let (kind, base_url, mut keys) = match config.providers.get(provider.as_str()) {
        Some(cfg) => (cfg.kind, crate::glossary::copy_opt(&cfg.base_url), copy_keys(&cfg.keys)),
        None => match ProviderKind::from_slug(provider.as_str()) {
            Some(k) => (k, None, Vec::new()),
            None => {
                let mut m = lit("Provider '");
                m.append(provider.as_str());
                m.append("' not found. Create it first or use 'gemini'/'openai'/'cohere'.");
                return Err(Error::Config(m));
            },
        },
    };
    let resolved_label = match key_label {
        Some(l) => l,
        None => generate_unique_key_label(keys.as_slice()),
    };
    keys.push(ApiKey { value: api_key, name: Some(resolved_label.clone()) });
    config.providers.insert(provider.clone(), ProviderConfig { kind, keys, base_url });
    let is_default = match set_default {
        Some(b) => b,
        None => config.default_profile.is_none(),
    };
    if is_default {
        config.default_profile = Some(profile_name.clone());
    }
    config.profiles.insert(profile_name, ProfileConfig { provider, model: model_name, key: Some(resolved_label) });
    Ok(())
}

/// A copy of a list of keys.
fn copy_keys(v: &Vec<ApiKey>) -> (r: Vec<ApiKey>)
    ensures
        r@ == v@,
{
    let mut r: Vec<ApiKey> = Vec::new();
    let mut i: usize = 0;
    while i < v.len()
        invariant
            i <= v.len(),
            r@ == v@.take(i as int),
        decreases v.len() - i,
    {
        r.push(v[i].clone());
        i = i + 1;
        assert(r@ =~= v@.take(i as int));
    }
    assert(v@.take(v.len() as int) =~= v@);
    r
}

/// Makes an existing profile the default; the caller saves the
/// configuration.
pub fn set_default_profile(config: &mut GlobalConfig, name: &str) -> (r: Result<(), Error>)
    ensures
        r is Err <==> !old(config).profiles.map().contains_key(name@),
        r matches Err(e) ==> e matches Error::ProfileNotFound { name: n } && n@ == name@,
        r is Err ==> final(config).default_profile == old(config).default_profile,
        r is Ok ==> final(config).default_profile.is_some() && final(config).default_profile.unwrap()@ == name@,
        final(config).profiles.map() == old(config).profiles.map(),
        final(config).providers.map() == old(config).providers.map(),
{
    if !config.profiles.contains_key(name) {
        return Err(Error::ProfileNotFound { name: lit(name) });
    }
    config.default_profile = Some(lit(name));
    Ok(())
}

/// Checks a profile for `cipher profile test`.
pub fn test_profile(config: &GlobalConfig, name: &str) -> (r: ConfigValidation)
    ensures
        r.profile_exists == config.profiles.map().contains_key(name@),
        crate::config::views_of(r.errors@) == crate::config::profile_errors(*config, name@),
{
    validate_profile(config, name)
}

/// What the global doctor reports: counts, the default profile, and each
/// profile with whether it is valid, in name order.
pub struct GlobalDoctorReport {
    pub providers: usize,
    pub profiles: usize,
    pub default_profile: Option<String>,
    pub profile_validity: Vec<(String, bool)>,
}

/// The global doctor's findings for an existing configuration file.
pub fn run_global_doctor(config: &GlobalConfig) -> (r: GlobalDoctorReport)
    ensures
        r.providers == config.providers.keys().len(),
        r.profiles == config.profiles.keys().len(),
        r.default_profile == config.default_profile,
        r.profile_validity@.len() == config.profiles.keys().len(),
        forall|i: int|
            0 <= i < r.profile_validity@.len() ==> (#[trigger] r.profile_validity@[i]).0@ == config.profiles.keys()[i]
                && r.profile_validity@[i].1 == (crate::config::profile_errors(*config, config.profiles.keys()[i]).len() == 0
                && provider_and_key_exist(*config, config.profiles.keys()[i])),
{
    let n = config.profiles.len();
    let mut v: Vec<(String, bool)> = Vec::new();
    let mut i: usize = 0;
    while i < n
        invariant
            n == config.profiles.keys().len(),
            i <= n,
            v@.len() == i,
            forall|j: int|
                0 <= j < i ==> (#[trigger] v@[j]).0@ == config.profiles.keys()[j] && v@[j].1 == (
                crate::config::profile_errors(*config, config.profiles.keys()[j]).len() == 0
                    && provider_and_key_exist(*config, config.profiles.keys()[j])),
        decreases n - i,
    {
        let (name, _) = config.profiles.entry_at(i);
        let validation = validate_profile(config, name.as_str());
        proof {
            use_type_invariant(&config.profiles);
            config.profiles.lemma_keys_sorted();
            crate::strmap::lemma_index_of_unique(config.profiles.keys(), name@, i as int);
            assert(config.profiles.map().contains_key(name@));
        }
        v.push((name.clone(), validation.is_valid()));
        i = i + 1;
    }
    GlobalDoctorReport {
        providers: config.providers.len(),
        profiles: n,
        default_profile: crate::glossary::copy_opt(&config.default_profile),
        profile_validity: v,
    }
}

/// A profile's provider exists and its key is configured.
pub open spec fn provider_and_key_exist(config: GlobalConfig, name: Seq<char>) -> bool {
    config.profiles.map().contains_key(name) && {
        let p = config.profiles.map()[name];
        config.providers.map().contains_key(p.provider@) && crate::config::provider_key(
            config,
            p.provider@,
            crate::config::opt_string_view(p.key),
        ).is_some()
    }
}

} // verus!
