//! Technical facts of each supported provider: endpoint, default model and
//! the response headers that report remaining quota.

use vstd::prelude::*;
use crate::text::str_eq;

verus! {

/// Endpoint and quota headers of one provider.
#[derive(Clone, Copy)]
pub struct ProviderMeta {
    pub base_url: &'static str,
    pub default_model: &'static str,
    pub header_rpd: Option<&'static str>,
    pub header_rpm: Option<&'static str>,
    pub header_tpd: Option<&'static str>,
}

/// A provider's facts, by their texts.
pub struct ProviderMetaView {
    pub base_url: Seq<char>,
    pub default_model: Seq<char>,
    pub header_rpd: Option<Seq<char>>,
    pub header_rpm: Option<Seq<char>>,
    pub header_tpd: Option<Seq<char>>,
}

/// The text of an optional header name.
pub open spec fn header_view(h: Option<&'static str>) -> Option<Seq<char>> {
    match h {
        Some(s) => Some(s@),
        None => None,
    }
}

impl View for ProviderMeta {
    type V = ProviderMetaView;

    open spec fn view(&self) -> ProviderMetaView {
        ProviderMetaView {
            base_url: self.base_url@,
            default_model: self.default_model@,
            header_rpd: header_view(self.header_rpd),
            header_rpm: header_view(self.header_rpm),
            header_tpd: header_view(self.header_tpd),
        }
    }
}

/// The facts of the provider named `name`; `None` for a provider the
/// library does not know.
pub open spec fn provider_meta_spec(name: Seq<char>) -> Option<ProviderMetaView> {
    if name == "groq"@ {
        Some(
            ProviderMetaView {
                base_url: "https://api.groq.com/openai/v1"@,
                default_model: "llama-3.3-70b-versatile"@,
                header_rpd: Some("x-ratelimit-remaining-requests"@),
                header_rpm: None,
                header_tpd: None,
            },
        )
    } else if name == "cerebras"@ {
        Some(
            ProviderMetaView {
                base_url: "https://api.cerebras.ai/v1"@,
                default_model: "llama3.1-8b"@,
                header_rpd: Some("x-ratelimit-remaining-requests-day"@),
                header_rpm: Some("x-ratelimit-remaining-tokens-minute"@),
                header_tpd: Some("x-ratelimit-remaining-tokens-day"@),
            },
        )
    } else if name == "sambanova"@ {
        Some(
            ProviderMetaView {
                base_url: "https://api.sambanova.ai/v1"@,
                default_model: "Meta-Llama-3.3-70B-Instruct"@,
                header_rpd: Some("x-ratelimit-remaining-requests-day"@),
                header_rpm: None,
                header_tpd: None,
            },
        )
    } else if name == "openrouter"@ {
        Some(
            ProviderMetaView {
                base_url: "https://openrouter.ai/api/v1"@,
                default_model: "meta-llama/llama-3.3-70b-instruct:free"@,
                header_rpd: Some("x-ratelimit-remaining"@),
                header_rpm: None,
                header_tpd: None,
            },
        )
    } else if name == "mistral"@ {
        Some(
            ProviderMetaView {
                base_url: "https://api.mistral.ai/v1"@,
                default_model: "mistral-small-latest"@,
                header_rpd: Some("x-ratelimit-remaining-requests"@),
                header_rpm: Some("x-ratelimit-remaining-tokens"@),
                header_tpd: None,
            },
        )
    } else if name == "scaleway"@ {
        Some(
            ProviderMetaView {
                base_url: "https://api.scaleway.ai/v1"@,
                default_model: "llama-3.3-70b-instruct"@,
                header_rpd: None,
                header_rpm: None,
                header_tpd: None,
            },
        )
    } else {
        None
    }
}

/// The facts of the provider named `name`, if the library knows it.
pub fn get_provider_meta(name: &str) -> (r: Option<ProviderMeta>)
    ensures
        match r {
            Some(m) => provider_meta_spec(name@) == Some(m@),
            None => provider_meta_spec(name@) is None,
        },
{
    if str_eq(name, "groq") {
        Some(
            ProviderMeta {
                base_url: "https://api.groq.com/openai/v1",
                default_model: "llama-3.3-70b-versatile",
                header_rpd: Some("x-ratelimit-remaining-requests"),
                header_rpm: None,
                header_tpd: None,
            },
        )
    } else if str_eq(name, "cerebras") {
        Some(
            ProviderMeta {
                base_url: "https://api.cerebras.ai/v1",
                default_model: "llama3.1-8b",
                header_rpd: Some("x-ratelimit-remaining-requests-day"),
                header_rpm: Some("x-ratelimit-remaining-tokens-minute"),
                header_tpd: Some("x-ratelimit-remaining-tokens-day"),
            },
        )
    } else if str_eq(name, "sambanova") {
        Some(
            ProviderMeta {
                base_url: "https://api.sambanova.ai/v1",
                default_model: "Meta-Llama-3.3-70B-Instruct",
                header_rpd: Some("x-ratelimit-remaining-requests-day"),
                header_rpm: None,
                header_tpd: None,
            },
        )
    } else if str_eq(name, "openrouter") {
        Some(
            ProviderMeta {
                base_url: "https://openrouter.ai/api/v1",
                default_model: "meta-llama/llama-3.3-70b-instruct:free",
                header_rpd: Some("x-ratelimit-remaining"),
                header_rpm: None,
                header_tpd: None,
            },
        )
    } else if str_eq(name, "mistral") {
        Some(
            ProviderMeta {
                base_url: "https://api.mistral.ai/v1",
                default_model: "mistral-small-latest",
                header_rpd: Some("x-ratelimit-remaining-requests"),
                header_rpm: Some("x-ratelimit-remaining-tokens"),
                header_tpd: None,
            },
        )
    } else if str_eq(name, "scaleway") {
        Some(
            ProviderMeta {
                base_url: "https://api.scaleway.ai/v1",
                default_model: "llama-3.3-70b-instruct",
                header_rpd: None,
                header_rpm: None,
                header_tpd: None,
            },
        )
    } else {
        None
    }
}

} // verus!

verus! {

/// Every provider whose key the library can load has known facts, so no
/// loaded provider is ever skipped for want of an endpoint.
pub proof fn law_known_providers_have_meta(i: int)
    requires
        0 <= i < crate::config::KNOWN_PROVIDER_COUNT,
    ensures
        provider_meta_spec(crate::config::known_name(i)) is Some,
{
    reveal_strlit("groq");
    reveal_strlit("cerebras");
    reveal_strlit("sambanova");
    reveal_strlit("openrouter");
    reveal_strlit("mistral");
    reveal_strlit("scaleway");
}

} // verus!

verus! {

/// The provider table holds exactly these endpoints, default models and
/// quota headers, and nothing for any other name.
pub proof fn law_provider_table(name: Seq<char>)
    ensures
        provider_meta_spec("groq"@) is Some,
        provider_meta_spec("groq"@)->0.base_url == "https://api.groq.com/openai/v1"@,
        provider_meta_spec("groq"@)->0.default_model == "llama-3.3-70b-versatile"@,
        provider_meta_spec("groq"@)->0.header_rpd == Some("x-ratelimit-remaining-requests"@),
        provider_meta_spec("groq"@)->0.header_rpm is None,
        provider_meta_spec("groq"@)->0.header_tpd is None,
        provider_meta_spec("cerebras"@) is Some,
        provider_meta_spec("cerebras"@)->0.base_url == "https://api.cerebras.ai/v1"@,
        provider_meta_spec("cerebras"@)->0.default_model == "llama3.1-8b"@,
        provider_meta_spec("cerebras"@)->0.header_rpd == Some("x-ratelimit-remaining-requests-day"@),
        provider_meta_spec("cerebras"@)->0.header_rpm == Some("x-ratelimit-remaining-tokens-minute"@),
        provider_meta_spec("cerebras"@)->0.header_tpd == Some("x-ratelimit-remaining-tokens-day"@),
        provider_meta_spec("sambanova"@) is Some,
        provider_meta_spec("sambanova"@)->0.base_url == "https://api.sambanova.ai/v1"@,
        provider_meta_spec("sambanova"@)->0.default_model == "Meta-Llama-3.3-70B-Instruct"@,
        provider_meta_spec("sambanova"@)->0.header_rpd == Some("x-ratelimit-remaining-requests-day"@),
        provider_meta_spec("sambanova"@)->0.header_rpm is None,
        provider_meta_spec("sambanova"@)->0.header_tpd is None,
        provider_meta_spec("openrouter"@) is Some,
        provider_meta_spec("openrouter"@)->0.base_url == "https://openrouter.ai/api/v1"@,
        provider_meta_spec("openrouter"@)->0.default_model == "meta-llama/llama-3.3-70b-instruct:free"@,
        provider_meta_spec("openrouter"@)->0.header_rpd == Some("x-ratelimit-remaining"@),
        provider_meta_spec("openrouter"@)->0.header_rpm is None,
        provider_meta_spec("openrouter"@)->0.header_tpd is None,
        provider_meta_spec("mistral"@) is Some,
        provider_meta_spec("mistral"@)->0.base_url == "https://api.mistral.ai/v1"@,
        provider_meta_spec("mistral"@)->0.default_model == "mistral-small-latest"@,
        provider_meta_spec("mistral"@)->0.header_rpd == Some("x-ratelimit-remaining-requests"@),
        provider_meta_spec("mistral"@)->0.header_rpm == Some("x-ratelimit-remaining-tokens"@),
        provider_meta_spec("mistral"@)->0.header_tpd is None,
        provider_meta_spec("scaleway"@) is Some,
        provider_meta_spec("scaleway"@)->0.base_url == "https://api.scaleway.ai/v1"@,
        provider_meta_spec("scaleway"@)->0.default_model == "llama-3.3-70b-instruct"@,
        provider_meta_spec("scaleway"@)->0.header_rpd is None,
        provider_meta_spec("scaleway"@)->0.header_rpm is None,
        provider_meta_spec("scaleway"@)->0.header_tpd is None,
        name != "groq"@ && name != "cerebras"@ && name != "sambanova"@ && name != "openrouter"@
            && name != "mistral"@ && name != "scaleway"@ ==> provider_meta_spec(name) is None,
{
    reveal_strlit("groq");
    reveal_strlit("cerebras");
    reveal_strlit("sambanova");
    reveal_strlit("openrouter");
    reveal_strlit("mistral");
    reveal_strlit("scaleway");
    assert("groq"@.len() == 4);
    assert("cerebras"@.len() == 8);
    assert("sambanova"@.len() == 9);
    assert("openrouter"@.len() == 10);
    assert("mistral"@.len() == 7);
    assert("scaleway"@.len() == 8);
    assert("cerebras"@[0] != "scaleway"@[0]);
}

} // verus!
