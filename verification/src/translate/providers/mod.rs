//! Choosing the provider a profile names, and the user-facing messages for
//! provider HTTP failures.

pub mod shared;

use vstd::prelude::*;

use crate::config::{opt_string_view, provider_key, GlobalConfig, ProviderKind};
use crate::error::Error;
use crate::text::lit;

verus! {

/// What a provider client is built from.
pub struct ProviderParams {
    pub api_key: String,
    pub model: String,
}

/// The provider a profile resolves to: its kind, the client parameters,
/// and the endpoint for an OpenAI-compatible (or configured Cohere)
/// provider.
pub struct ProviderSpec {
    pub kind: ProviderKind,
    pub params: ProviderParams,
    pub base_url: Option<String>,
}

/// The failure `build_provider` reports for a profile, if any.
pub open spec fn build_provider_failure(config: GlobalConfig, profile_name: Seq<char>) -> Option<Seq<char>> {
    if !config.profiles.map().contains_key(profile_name) {
        Some("Profile '"@ + profile_name + "' not found"@)
    } else {
        let p = config.profiles.map()[profile_name];
        let pv = p.provider@;
        if !config.providers.map().contains_key(pv) {
            Some("Provider '"@ + pv + "' not found"@)
        } else if provider_key(config, pv, opt_string_view(p.key)).is_none() {
            match p.key {
                Some(l) => Some("No API key labeled '"@ + l@ + "' for provider '"@ + pv + "'"@),
                None => Some("No API key for provider '"@ + pv + "'"@),
            }
        } else if config.providers.map()[pv].kind == ProviderKind::OpenaiCompatible
            && config.providers.map()[pv].base_url.is_none() {
            Some("OpenAI-compatible provider requires base_url"@)
        } else {
            None
        }
    }
}

/// Resolves a profile to the provider to build: the profile, its provider
/// and its API key must exist, and an OpenAI-compatible provider needs a
/// base URL.
pub fn build_provider(config: &GlobalConfig, profile_name: &str) -> (r: Result<ProviderSpec, Error>)
    ensures
        r is Err <==> build_provider_failure(*config, profile_name@).is_some(),
        r matches Err(e) ==> e matches Error::Other(m) && m@ == build_provider_failure(
            *config,
            profile_name@,
        ).unwrap(),
        r matches Ok(spec) ==> {
            let p = config.profiles.map()[profile_name@];
            let c = config.providers.map()[p.provider@];
            &&& spec.kind == c.kind
            &&& spec.params.model == p.model
            &&& Some(spec.params.api_key@) == provider_key(*config, p.provider@, opt_string_view(p.key))
            &&& spec.base_url == (match c.kind {
                ProviderKind::OpenaiCompatible | ProviderKind::Cohere => c.base_url,
                _ => None,
            })
        },
{
    let profile = match config.resolve_profile(profile_name) {
        Some(p) => p,
        None => {
            let mut m = lit("Profile '");
            m.append(profile_name);
            m.append("' not found");
            return Err(Error::Other(m));
        },
    };
    let provider_config = match config.resolve_provider(profile.provider.as_str()) {
        Some(c) => c,
        None => {
            let mut m = lit("Provider '");
            m.append(profile.provider.as_str());
            m.append("' not found");
            return Err(Error::Other(m));
        },
    };
    let label: Option<&str> = match &profile.key {
        Some(k) => Some(k.as_str()),
        None => None,
    };
    let api_key = match config.get_provider_key_by_label(profile.provider.as_str(), label) {
        Some(k) => k,
        None => {
            let m = match &profile.key {
                Some(l) => {
                    let mut m = lit("No API key labeled '");
                    m.append(l.as_str());
                    m.append("' for provider '");
                    m.append(profile.provider.as_str());
                    m.append("'");
                    m
                },
                None => {
                    let mut m = lit("No API key for provider '");
                    m.append(profile.provider.as_str());
                    m.append("'");
                    m
                },
            };
            return Err(Error::Other(m));
        },
    };
    let params = ProviderParams { api_key: lit(api_key), model: profile.model.clone() };
    match provider_config.kind {
        ProviderKind::Gemini => Ok(ProviderSpec { kind: ProviderKind::Gemini, params, base_url: None }),
        ProviderKind::Openai => Ok(ProviderSpec { kind: ProviderKind::Openai, params, base_url: None }),
        ProviderKind::Cohere => Ok(
            ProviderSpec {
                kind: ProviderKind::Cohere,
                params,
                base_url: crate::glossary::copy_opt(&provider_config.base_url),
            },
        ),
        ProviderKind::OpenaiCompatible => match &provider_config.base_url {
            Some(url) => Ok(
                ProviderSpec { kind: ProviderKind::OpenaiCompatible, params, base_url: Some(url.clone()) },
            ),
            None => Err(Error::Other(lit("OpenAI-compatible provider requires base_url"))),
        },
    }
}

/// The advice a provider gives for each HTTP failure it recognises.
pub struct HttpErrorMessages {
    pub not_found: &'static str,
    pub unauthorized: &'static str,
    pub rate_limited: &'static str,
    pub server_error: &'static str,
}

/// The message for a failed request with an HTTP status: the recognised
/// statuses (404, 401, 403, 429, 500) get a fixed heading and the
/// provider's advice; others have none.
pub open spec fn http_status_message(status: u16, m: HttpErrorMessages) -> Option<Seq<char>> {
    if status == 404 {
        Some("HTTP 404: Not Found - "@ + m.not_found@)
    } else if status == 401 || status == 403 {
        Some("HTTP 401/403: Unauthorized - "@ + m.unauthorized@)
    } else if status == 429 {
        Some("HTTP 429: Too Many Requests - "@ + m.rate_limited@)
    } else if status == 500 {
        Some("HTTP 500: Internal Server Error - "@ + m.server_error@)
    } else {
        None
    }
}

/// The message for a request that failed with `status`, when the status is
/// one the provider gives advice for.
pub fn format_http_status(status: u16, http_msgs: &HttpErrorMessages) -> (r: Option<String>)
    ensures
        match r {
            Some(s) => http_status_message(status, *http_msgs) == Some(s@),
            None => http_status_message(status, *http_msgs).is_none(),
        },
{
    let (head, advice) = if status == 404 {
        ("HTTP 404: Not Found - ", http_msgs.not_found)
    } else if status == 401 || status == 403 {
        ("HTTP 401/403: Unauthorized - ", http_msgs.unauthorized)
    } else if status == 429 {
        ("HTTP 429: Too Many Requests - ", http_msgs.rate_limited)
    } else if status == 500 {
        ("HTTP 500: Internal Server Error - ", http_msgs.server_error)
    } else {
        return None;
    };
    let mut m = lit(head);
    m.append(advice);
    Some(m)
}

} // verus!
