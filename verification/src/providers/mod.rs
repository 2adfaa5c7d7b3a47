//! The LLM provider boundary: errors, completion results, provider names.
//!
//! The network clients live outside the library; what stays here is the
//! part every tier relies on: how a failure is reported and classified,
//! how long to back off, how a reply is searched for JSON, and the
//! decisions of the tool-calling loop.

pub mod agent_loop;
pub mod client;
pub mod mock;
pub mod response;

use vstd::prelude::*;

use crate::models::tokens::TokenUsage;
use crate::text::{ascii_lower, ascii_lower_exec, chars_of, eq_str, lower_char, push_str};

verus! {

/// Why a completion call failed.
#[derive(Debug, Clone, PartialEq, Eq)]
pub enum ProviderError {
    /// The provider's API reported an error.
    Api(String),
    /// The reply could not be parsed.
    Parse(String),
    /// The provider is not set up (missing key, unknown name).
    NotConfigured(String),
}

/// The message of a [`ProviderError`].
pub open spec fn provider_error_text(e: ProviderError) -> Seq<char> {
    match e {
        ProviderError::Api(m) => "LLM API error: "@ + m@,
        ProviderError::Parse(m) => "failed to parse LLM response: "@ + m@,
        ProviderError::NotConfigured(m) => "provider not configured: "@ + m@,
    }
}

impl ProviderError {
    /// The error's message.
    pub fn message(&self) -> (r: String)
        ensures
            r@ == provider_error_text(*self),
    {
        let mut out = String::new();
        match self {
            ProviderError::Api(m) => {
                push_str(&mut out, "LLM API error: ");
                push_str(&mut out, m.as_str());
            },
            ProviderError::Parse(m) => {
                push_str(&mut out, "failed to parse LLM response: ");
                push_str(&mut out, m.as_str());
            },
            ProviderError::NotConfigured(m) => {
                push_str(&mut out, "provider not configured: ");
                push_str(&mut out, m.as_str());
            },
        }
        out
    }
}

#[verifier::external_type_specification]
#[verifier::external_body]
pub struct ExJsonValue(serde_json::Value);

/// One completion call as a tier asks for it.
pub struct CompletionRequest<'a> {
    pub system_prompt: &'a str,
    pub user_prompt: &'a str,
    /// JSON schema of the expected reply, passed through to providers
    /// that constrain their output by one.
    pub schema: serde_json::Value,
    pub max_tokens: u64,
    /// Short identifier for logs and audit records.
    pub label: &'a str,
    /// Commits the call covers, for the audit record.
    pub commit_shas: &'a [String],
}

/// The text and token usage of one completion call.
#[derive(Debug, Clone, Default)]
pub struct CompletionResponse {
    pub text: String,
    pub tokens: TokenUsage,
}

/// The providers a configuration can name.
#[derive(Debug, Clone, Copy, PartialEq, Eq, Structural, Default)]
pub enum ProviderName {
    #[default]
    Anthropic,
    OpenAI,
    Azure,
    Cohere,
    DeepSeek,
    Galadriel,
    Gemini,
    GithubModels,
    Groq,
    HuggingFace,
    Hyperbolic,
    Mira,
    Mistral,
    Moonshot,
    Ollama,
    OpenRouter,
    Perplexity,
    Together,
    Xai,
    /// A generic endpoint that speaks the OpenAI API (set `base_url`).
    OpenAICompatible,
}

/// The name a configuration writes for each provider.
pub open spec fn provider_name_text(p: ProviderName) -> Seq<char> {
    match p {
        ProviderName::Anthropic => "anthropic"@,
        ProviderName::OpenAI => "openai"@,
        ProviderName::Azure => "azure"@,
        ProviderName::Cohere => "cohere"@,
        ProviderName::DeepSeek => "deepseek"@,
        ProviderName::Galadriel => "galadriel"@,
        ProviderName::Gemini => "gemini"@,
        ProviderName::GithubModels => "github-models"@,
        ProviderName::Groq => "groq"@,
        ProviderName::HuggingFace => "huggingface"@,
        ProviderName::Hyperbolic => "hyperbolic"@,
        ProviderName::Mira => "mira"@,
        ProviderName::Mistral => "mistral"@,
        ProviderName::Moonshot => "moonshot"@,
        ProviderName::Ollama => "ollama"@,
        ProviderName::OpenRouter => "openrouter"@,
        ProviderName::Perplexity => "perplexity"@,
        ProviderName::Together => "together"@,
        ProviderName::Xai => "xai"@,
        ProviderName::OpenAICompatible => "openai-compatible"@,
    }
}

/// Every provider, in declaration order.
pub open spec fn all_provider_names() -> Seq<ProviderName> {
    seq![
        ProviderName::Anthropic,
        ProviderName::OpenAI,
        ProviderName::Azure,
        ProviderName::Cohere,
        ProviderName::DeepSeek,
        ProviderName::Galadriel,
        ProviderName::Gemini,
        ProviderName::GithubModels,
        ProviderName::Groq,
        ProviderName::HuggingFace,
        ProviderName::Hyperbolic,
        ProviderName::Mira,
        ProviderName::Mistral,
        ProviderName::Moonshot,
        ProviderName::Ollama,
        ProviderName::OpenRouter,
        ProviderName::Perplexity,
        ProviderName::Together,
        ProviderName::Xai,
        ProviderName::OpenAICompatible,
    ]
}

/// The provider whose name equals `s` up to ASCII case, if any.
pub open spec fn provider_named(s: Seq<char>) -> Option<ProviderName> {
    if exists|p: ProviderName| provider_name_text(p) == ascii_lower(s) {
        Some(choose|p: ProviderName| provider_name_text(p) == ascii_lower(s))
    } else {
        None
    }
}

impl ProviderName {
    /// The configuration name of this provider.
    pub fn as_str(&self) -> (r: &'static str)
        ensures
            r@ == provider_name_text(*self),
    {
        match self {
            ProviderName::Anthropic => "anthropic",
            ProviderName::OpenAI => "openai",
            ProviderName::Azure => "azure",
            ProviderName::Cohere => "cohere",
            ProviderName::DeepSeek => "deepseek",
            ProviderName::Galadriel => "galadriel",
            ProviderName::Gemini => "gemini",
            ProviderName::GithubModels => "github-models",
            ProviderName::Groq => "groq",
            ProviderName::HuggingFace => "huggingface",
            ProviderName::Hyperbolic => "hyperbolic",
            ProviderName::Mira => "mira",
            ProviderName::Mistral => "mistral",
            ProviderName::Moonshot => "moonshot",
            ProviderName::Ollama => "ollama",
            ProviderName::OpenRouter => "openrouter",
            ProviderName::Perplexity => "perplexity",
            ProviderName::Together => "together",
            ProviderName::Xai => "xai",
            ProviderName::OpenAICompatible => "openai-compatible",
        }
    }

    /// The provider a configuration names, compared without regard to
    /// ASCII case; `None` for an unknown name.
    pub fn from_name(s: &str) -> (r: Option<ProviderName>)
        ensures
            r == provider_named(s@),
    {
        let lower = ascii_lower_exec(&chars_of(s));
        let mut i: usize = 0;
        let ghost all = all_provider_names();
        while i < 20
            invariant
                i <= 20,
                all == all_provider_names(),
                lower@ == ascii_lower(s@),
                forall|j: int| 0 <= j < i ==> provider_name_text(#[trigger] all[j]) != lower@,
            decreases 20 - i,
        {
            let p = provider_at(i);
            if eq_str(&lower, p.as_str()) {
                proof {
                    let q = choose|q: ProviderName| provider_name_text(q) == ascii_lower(s@);
                    lemma_provider_names_distinct(p, q);
                }
                return Some(p);
            }
            i = i + 1;
        }
        proof {
            if exists|p: ProviderName| provider_name_text(p) == ascii_lower(s@) {
                let p = choose|p: ProviderName| provider_name_text(p) == ascii_lower(s@);
                lemma_provider_index(p);
            }
        }
        None
    }
}

/// The provider at position `i` of [`all_provider_names`].
fn provider_at(i: usize) -> (r: ProviderName)
    requires
        i < 20,
    ensures
        r == all_provider_names()[i as int],
{
    match i {
        0 => ProviderName::Anthropic,
        1 => ProviderName::OpenAI,
        2 => ProviderName::Azure,
        3 => ProviderName::Cohere,
        4 => ProviderName::DeepSeek,
        5 => ProviderName::Galadriel,
        6 => ProviderName::Gemini,
        7 => ProviderName::GithubModels,
        8 => ProviderName::Groq,
        9 => ProviderName::HuggingFace,
        10 => ProviderName::Hyperbolic,
        11 => ProviderName::Mira,
        12 => ProviderName::Mistral,
        13 => ProviderName::Moonshot,
        14 => ProviderName::Ollama,
        15 => ProviderName::OpenRouter,
        16 => ProviderName::Perplexity,
        17 => ProviderName::Together,
        18 => ProviderName::Xai,
        _ => ProviderName::OpenAICompatible,
    }
}

/// Every provider stands in [`all_provider_names`].
proof fn lemma_provider_index(p: ProviderName)
    ensures
        exists|j: int| 0 <= j < 20 && all_provider_names()[j] == p,
{
    let all = all_provider_names();
    match p {
        ProviderName::Anthropic => assert(all[0] == p),
        ProviderName::OpenAI => assert(all[1] == p),
        ProviderName::Azure => assert(all[2] == p),
        ProviderName::Cohere => assert(all[3] == p),
        ProviderName::DeepSeek => assert(all[4] == p),
        ProviderName::Galadriel => assert(all[5] == p),
        ProviderName::Gemini => assert(all[6] == p),
        ProviderName::GithubModels => assert(all[7] == p),
        ProviderName::Groq => assert(all[8] == p),
        ProviderName::HuggingFace => assert(all[9] == p),
        ProviderName::Hyperbolic => assert(all[10] == p),
        ProviderName::Mira => assert(all[11] == p),
        ProviderName::Mistral => assert(all[12] == p),
        ProviderName::Moonshot => assert(all[13] == p),
        ProviderName::Ollama => assert(all[14] == p),
        ProviderName::OpenRouter => assert(all[15] == p),
        ProviderName::Perplexity => assert(all[16] == p),
        ProviderName::Together => assert(all[17] == p),
        ProviderName::Xai => assert(all[18] == p),
        ProviderName::OpenAICompatible => assert(all[19] == p),
    }
}

/// No two providers share a name.
proof fn lemma_provider_names_distinct(p: ProviderName, q: ProviderName)
    requires
        provider_name_text(q) == provider_name_text(p),
    ensures
        q == p,
{
    reveal_strlit("anthropic");
    reveal_strlit("openai");
    reveal_strlit("azure");
    reveal_strlit("cohere");
    reveal_strlit("deepseek");
    reveal_strlit("galadriel");
    reveal_strlit("gemini");
    reveal_strlit("github-models");
    reveal_strlit("groq");
    reveal_strlit("huggingface");
    reveal_strlit("hyperbolic");
    reveal_strlit("mira");
    reveal_strlit("mistral");
    reveal_strlit("moonshot");
    reveal_strlit("ollama");
    reveal_strlit("openrouter");
    reveal_strlit("perplexity");
    reveal_strlit("together");
    reveal_strlit("xai");
    reveal_strlit("openai-compatible");
    let a = provider_name_text(p);
    let b = provider_name_text(q);
    assert(a.len() == b.len());
    assert(a[0] == b[0]);
    assert(a[1] == b[1]);
    match p {
        ProviderName::Anthropic => {},
        ProviderName::OpenAI => {},
        ProviderName::Azure => {},
        ProviderName::Cohere => {},
        ProviderName::DeepSeek => {},
        ProviderName::Galadriel => {},
        ProviderName::Gemini => {},
        ProviderName::GithubModels => {},
        ProviderName::Groq => {},
        ProviderName::HuggingFace => {},
        ProviderName::Hyperbolic => {},
        ProviderName::Mira => {},
        ProviderName::Mistral => {},
        ProviderName::Moonshot => {},
        ProviderName::Ollama => {},
        ProviderName::OpenRouter => {},
        ProviderName::Perplexity => {},
        ProviderName::Together => {},
        ProviderName::Xai => {},
        ProviderName::OpenAICompatible => {},
    }
    match q {
        ProviderName::Anthropic => {},
        ProviderName::OpenAI => {},
        ProviderName::Azure => {},
        ProviderName::Cohere => {},
        ProviderName::DeepSeek => {},
        ProviderName::Galadriel => {},
        ProviderName::Gemini => {},
        ProviderName::GithubModels => {},
        ProviderName::Groq => {},
        ProviderName::HuggingFace => {},
        ProviderName::Hyperbolic => {},
        ProviderName::Mira => {},
        ProviderName::Mistral => {},
        ProviderName::Moonshot => {},
        ProviderName::Ollama => {},
        ProviderName::OpenRouter => {},
        ProviderName::Perplexity => {},
        ProviderName::Together => {},
        ProviderName::Xai => {},
        ProviderName::OpenAICompatible => {},
    }
}

/// Reading a provider's own name gives that provider back.
pub proof fn lemma_provider_name_round_trip(p: ProviderName)
    ensures
        provider_named(provider_name_text(p)) == Some(p),
{
    lemma_provider_name_lowercase(p);
    let t = provider_name_text(p);
    assert(provider_name_text(p) == ascii_lower(t));
    let q = choose|q: ProviderName| provider_name_text(q) == ascii_lower(t);
    lemma_provider_names_distinct(p, q);
}

/// Provider names are written in lower case.
proof fn lemma_provider_name_lowercase(p: ProviderName)
    ensures
        ascii_lower(provider_name_text(p)) == provider_name_text(p),
{
    match p {
        ProviderName::Anthropic => {
            reveal_strlit("anthropic");
            let t = "anthropic"@;
            assert forall|i: int| 0 <= i < t.len() implies lower_char(#[trigger] t[i]) == t[i] by {
                reveal_strlit("anthropic");
            }
            assert(ascii_lower(t) =~= t);
        },
        ProviderName::OpenAI => {
            reveal_strlit("openai");
            let t = "openai"@;
            assert forall|i: int| 0 <= i < t.len() implies lower_char(#[trigger] t[i]) == t[i] by {
                reveal_strlit("openai");
            }
            assert(ascii_lower(t) =~= t);
        },
        ProviderName::Azure => {
            reveal_strlit("azure");
            let t = "azure"@;
            assert forall|i: int| 0 <= i < t.len() implies lower_char(#[trigger] t[i]) == t[i] by {
                reveal_strlit("azure");
            }
            assert(ascii_lower(t) =~= t);
        },
        ProviderName::Cohere => {
            reveal_strlit("cohere");
            let t = "cohere"@;
            assert forall|i: int| 0 <= i < t.len() implies lower_char(#[trigger] t[i]) == t[i] by {
                reveal_strlit("cohere");
            }
            assert(ascii_lower(t) =~= t);
        },
        ProviderName::DeepSeek => {
            reveal_strlit("deepseek");
            let t = "deepseek"@;
            assert forall|i: int| 0 <= i < t.len() implies lower_char(#[trigger] t[i]) == t[i] by {
                reveal_strlit("deepseek");
            }
            assert(ascii_lower(t) =~= t);
        },
        ProviderName::Galadriel => {
            reveal_strlit("galadriel");
            let t = "galadriel"@;
            assert forall|i: int| 0 <= i < t.len() implies lower_char(#[trigger] t[i]) == t[i] by {
                reveal_strlit("galadriel");
            }
            assert(ascii_lower(t) =~= t);
        },
        ProviderName::Gemini => {
            reveal_strlit("gemini");
            let t = "gemini"@;
            assert forall|i: int| 0 <= i < t.len() implies lower_char(#[trigger] t[i]) == t[i] by {
                reveal_strlit("gemini");
            }
            assert(ascii_lower(t) =~= t);
        },
        ProviderName::GithubModels => {
            reveal_strlit("github-models");
            let t = "github-models"@;
            assert forall|i: int| 0 <= i < t.len() implies lower_char(#[trigger] t[i]) == t[i] by {
                reveal_strlit("github-models");
            }
            assert(ascii_lower(t) =~= t);
        },
        ProviderName::Groq => {
            reveal_strlit("groq");
            let t = "groq"@;
            assert forall|i: int| 0 <= i < t.len() implies lower_char(#[trigger] t[i]) == t[i] by {
                reveal_strlit("groq");
            }
            assert(ascii_lower(t) =~= t);
        },
        ProviderName::HuggingFace => {
            reveal_strlit("huggingface");
            let t = "huggingface"@;
            assert forall|i: int| 0 <= i < t.len() implies lower_char(#[trigger] t[i]) == t[i] by {
                reveal_strlit("huggingface");
            }
            assert(ascii_lower(t) =~= t);
        },
        ProviderName::Hyperbolic => {
            reveal_strlit("hyperbolic");
            let t = "hyperbolic"@;
            assert forall|i: int| 0 <= i < t.len() implies lower_char(#[trigger] t[i]) == t[i] by {
                reveal_strlit("hyperbolic");
            }
            assert(ascii_lower(t) =~= t);
        },
        ProviderName::Mira => {
            reveal_strlit("mira");
            let t = "mira"@;
            assert forall|i: int| 0 <= i < t.len() implies lower_char(#[trigger] t[i]) == t[i] by {
                reveal_strlit("mira");
            }
            assert(ascii_lower(t) =~= t);
        },
        ProviderName::Mistral => {
            reveal_strlit("mistral");
            let t = "mistral"@;
            assert forall|i: int| 0 <= i < t.len() implies lower_char(#[trigger] t[i]) == t[i] by {
                reveal_strlit("mistral");
            }
            assert(ascii_lower(t) =~= t);
        },
        ProviderName::Moonshot => {
            reveal_strlit("moonshot");
            let t = "moonshot"@;
            assert forall|i: int| 0 <= i < t.len() implies lower_char(#[trigger] t[i]) == t[i] by {
                reveal_strlit("moonshot");
            }
            assert(ascii_lower(t) =~= t);
        },
        ProviderName::Ollama => {
            reveal_strlit("ollama");
            let t = "ollama"@;
            assert forall|i: int| 0 <= i < t.len() implies lower_char(#[trigger] t[i]) == t[i] by {
                reveal_strlit("ollama");
            }
            assert(ascii_lower(t) =~= t);
        },
        ProviderName::OpenRouter => {
            reveal_strlit("openrouter");
            let t = "openrouter"@;
            assert forall|i: int| 0 <= i < t.len() implies lower_char(#[trigger] t[i]) == t[i] by {
                reveal_strlit("openrouter");
            }
            assert(ascii_lower(t) =~= t);
        },
        ProviderName::Perplexity => {
            reveal_strlit("perplexity");
            let t = "perplexity"@;
            assert forall|i: int| 0 <= i < t.len() implies lower_char(#[trigger] t[i]) == t[i] by {
                reveal_strlit("perplexity");
            }
            assert(ascii_lower(t) =~= t);
        },
        ProviderName::Together => {
            reveal_strlit("together");
            let t = "together"@;
            assert forall|i: int| 0 <= i < t.len() implies lower_char(#[trigger] t[i]) == t[i] by {
                reveal_strlit("together");
            }
            assert(ascii_lower(t) =~= t);
        },
        ProviderName::Xai => {
            reveal_strlit("xai");
            let t = "xai"@;
            assert forall|i: int| 0 <= i < t.len() implies lower_char(#[trigger] t[i]) == t[i] by {
                reveal_strlit("xai");
            }
            assert(ascii_lower(t) =~= t);
        },
        ProviderName::OpenAICompatible => {
            reveal_strlit("openai-compatible");
            let t = "openai-compatible"@;
            assert forall|i: int| 0 <= i < t.len() implies lower_char(#[trigger] t[i]) == t[i] by {
                reveal_strlit("openai-compatible");
            }
            assert(ascii_lower(t) =~= t);
        },
    }
}

} // verus!
