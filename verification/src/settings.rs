//! Assistant settings: under which names credentials are filed, which
//! providers are available, and which model is used where none was chosen.

use vstd::prelude::*;
use vstd::string::*;
use crate::text::str_eq;

verus! {

/// The name under which the credential of a provider is filed.
pub open spec fn key_name(provider: Seq<char>) -> Option<Seq<char>> {
    if provider == "anthropic"@ {
        Some("anthropic_api_key"@)
    } else if provider == "openai"@ {
        Some("openai_api_key"@)
    } else {
        None
    }
}

/// The name under which the credential of a provider is filed; an unknown
/// provider is an error whose message quotes it.
pub fn store_key(provider: &str) -> (r: Result<String, String>)
    ensures
        match r {
            Ok(name) => key_name(provider@) == Some(name@),
            Err(e) => key_name(provider@) is None && e@ == "Unknown provider: "@ + provider@,
        },
{
    if str_eq(provider, "anthropic") {
        Ok("anthropic_api_key".to_string())
    } else if str_eq(provider, "openai") {
        Ok("openai_api_key".to_string())
    } else {
        Err("Unknown provider: ".to_string().concat(provider))
    }
}

/// The name under which the credential of the stored provider is looked
/// up: that of Anthropic for any provider but OpenAI.
pub fn store_key_or_default(provider: &str) -> (r: String)
    ensures
        r@ == if provider@ == "openai"@ {
            "openai_api_key"@
        } else {
            "anthropic_api_key"@
        },
{
    if str_eq(provider, "openai") {
        "openai_api_key".to_string()
    } else {
        "anthropic_api_key".to_string()
    }
}

/// The provider in use: the stored one, or Anthropic where none is stored.
pub fn provider_or_default(stored: Option<String>) -> (r: String)
    ensures
        r@ == match stored {
            Some(p) => p@,
            None => "anthropic"@,
        },
{
    match stored {
        Some(p) => p,
        None => "anthropic".to_string(),
    }
}

/// The model used with a provider where none was chosen: a fixed one for
/// OpenAI, and `fallback` for every other provider.
pub open spec fn default_model(provider: Seq<char>, fallback: Seq<char>) -> Seq<char> {
    if provider == "openai"@ {
        "gpt-5"@
    } else {
        fallback
    }
}

/// The model in use: the stored one, or the default of the stored provider,
/// or that of Anthropic where no provider is stored either.
pub fn selected_model(
    stored_model: Option<String>,
    stored_provider: Option<String>,
    fallback: &str,
) -> (r: String)
    ensures
        r@ == match stored_model {
            Some(m) => m@,
            None => default_model(
                match stored_provider {
                    Some(p) => p@,
                    None => "anthropic"@,
                },
                fallback@,
            ),
        },
{
    if let Some(model) = stored_model {
        return model;
    }
    let provider = provider_or_default(stored_provider);
    proof {
        reveal_strlit("anthropic");
        reveal_strlit("openai");
    }
    if str_eq(provider.as_str(), "openai") {
        "gpt-5".to_string()
    } else {
        fallback.to_string()
    }
}

/// The providers that have a credential, Anthropic before OpenAI.
pub fn available_providers(has_anthropic_key: bool, has_openai_key: bool) -> (r: Vec<String>)
    ensures
        r@.len() == (if has_anthropic_key {
            1int
        } else {
            0int
        }) + (if has_openai_key {
            1int
        } else {
            0int
        }),
        has_anthropic_key ==> r@[0]@ == "anthropic"@,
        has_openai_key ==> r@[r@.len() - 1]@ == "openai"@,
{
    let mut providers: Vec<String> = Vec::new();
    if has_anthropic_key {
        providers.push("anthropic".to_string());
    }
    if has_openai_key {
        providers.push("openai".to_string());
    }
    providers
}

/// The credential of a provider, or the message that none is filed.
pub fn require_key(provider: &str, stored: Option<String>) -> (r: Result<String, String>)
    ensures
        match r {
            Ok(key) => stored == Some(key),
            Err(e) => stored is None && e@ == "No API key found for "@ + provider@
                + ". Please set your API key in Settings"@,
        },
{
    match stored {
        Some(key) => Ok(key),
        None => Err(
            "No API key found for ".to_string().concat(provider).concat(
                ". Please set your API key in Settings",
            ),
        ),
    }
}

} // verus!
