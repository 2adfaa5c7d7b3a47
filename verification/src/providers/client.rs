//! What a provider client checks before it calls, how it retries, and
//! what it records of each call.

use vstd::prelude::*;

use crate::audit::{AuditSink, CallStatus, LlmCallAudit};
use crate::config::ProviderConfig;
use crate::hashing::{hash_hex, hex_of, sha256};
use crate::models::tokens::TokenUsage;
use crate::providers::agent_loop::utf8;
use crate::providers::response::{backoff_secs, error_class, is_retryable, retry_backoff};
use crate::providers::{provider_error_text, provider_name_text, provider_named, CompletionResponse, ProviderError, ProviderName};
use crate::text::{chars_of, push_str};

verus! {

/// The variable that holds the API key.
pub const ENV_API_KEY: &'static str = "CHRONIKL_API_KEY";

/// Retries after the first attempt, at most.
pub const MAX_RETRIES: u32 = 3;

/// The outcome of checking a provider's settings.
pub open spec fn setup_outcome(
    name: Option<Seq<char>>,
    model: Option<Seq<char>>,
    has_key: bool,
) -> Result<(ProviderName, Seq<char>), Seq<char>> {
    match name {
        None => Err("provider name not set"@),
        Some(raw) => match provider_named(raw) {
            None => Err("unknown provider '"@ + raw + "'"@),
            Some(p) => match model {
                None => Err("missing model"@),
                Some(m) => if !has_key && p != ProviderName::Ollama {
                    Err("no API key resolved for provider '"@ + provider_name_text(p)
                        + "'. Set CHRONIKL_API_KEY or the provider-specific env var."@)
                } else {
                    Ok((p, m))
                },
            },
        },
    }
}

/// Check a provider's settings: a known provider, a model, and a key
/// unless the provider is a local Ollama. The error is `NotConfigured`
/// with the reason.
pub fn provider_setup(name: Option<&str>, model: Option<&str>, has_key: bool) -> (r: Result<(ProviderName, String), ProviderError>)
    ensures
        match setup_outcome(
            match name {
                Some(n) => Some(n@),
                None => None,
            },
            match model {
                Some(m) => Some(m@),
                None => None,
            },
            has_key,
        ) {
            Ok((p, m)) => r matches Ok(v) && v.0 == p && v.1@ == m,
            Err(msg) => r matches Err(ProviderError::NotConfigured(e)) && e@ == msg,
        },
{
    let raw = match name {
        None => return Err(ProviderError::NotConfigured(String::from_str("provider name not set"))),
        Some(n) => n,
    };
    let p = match ProviderName::from_name(raw) {
        None => {
            let mut m = String::from_str("unknown provider '");
            push_str(&mut m, raw);
            push_str(&mut m, "'");
            return Err(ProviderError::NotConfigured(m));
        },
        Some(p) => p,
    };
    let model_id = match model {
        None => return Err(ProviderError::NotConfigured(String::from_str("missing model"))),
        Some(m) => String::from_str(m),
    };
    if !has_key && p != ProviderName::Ollama {
        let mut m = String::from_str("no API key resolved for provider '");
        push_str(&mut m, p.as_str());
        push_str(&mut m, "'. Set CHRONIKL_API_KEY or the provider-specific env var.");
        return Err(ProviderError::NotConfigured(m));
    }
    Ok((p, model_id))
}

/// The checked settings of the provider client: the configuration, the
/// provider it names, its model, and where call records go.
pub struct RigProvider {
    config: ProviderConfig,
    name: ProviderName,
    model_id: String,
    audit_sink: Option<AuditSink>,
}

/// `Some` view of an optional string.
pub open spec fn opt_chars(o: Option<String>) -> Option<Seq<char>> {
    match o {
        Some(s) => Some(s@),
        None => None,
    }
}

impl RigProvider {
    pub closed spec fn config(&self) -> ProviderConfig {
        self.config
    }

    pub closed spec fn spec_name(&self) -> ProviderName {
        self.name
    }

    pub closed spec fn spec_model_id(&self) -> Seq<char> {
        self.model_id@
    }

    /// The audit sink the provider records its calls in.
    pub closed spec fn sink(&self) -> Option<AuditSink> {
        self.audit_sink
    }

    pub closed spec fn has_audit_sink(&self) -> bool {
        self.audit_sink is Some
    }

    /// Check a provider configuration (see [`setup_outcome`]).
    pub fn new(config: ProviderConfig) -> (r: Result<Self, ProviderError>)
        ensures
            match setup_outcome(opt_chars(config.name), opt_chars(config.model), config.api_key is Some) {
                Ok((p, m)) => r matches Ok(v) && v.config() == config && v.spec_name() == p && v.spec_model_id() == m
                    && !v.has_audit_sink(),
                Err(msg) => r matches Err(ProviderError::NotConfigured(e)) && e@ == msg,
            },
    {
        let setup = match &config.name {
            Some(n) => match &config.model {
                Some(m) => provider_setup(Some(n.as_str()), Some(m.as_str()), config.api_key.is_some()),
                None => provider_setup(Some(n.as_str()), None, config.api_key.is_some()),
            },
            None => provider_setup(None, None, config.api_key.is_some()),
        };
        match setup {
            Ok((name, model_id)) => Ok(RigProvider { config, name, model_id, audit_sink: None }),
            Err(e) => Err(e),
        }
    }

    /// Send call records to `sink`.
    pub fn with_audit_sink(self, sink: AuditSink) -> (r: Self)
        ensures
            r.config() == self.config(),
            r.spec_name() == self.spec_name(),
            r.spec_model_id() == self.spec_model_id(),
            r.has_audit_sink(),
    {
        RigProvider { audit_sink: Some(sink), ..self }
    }

    pub fn name(&self) -> (r: ProviderName)
        ensures
            r == self.spec_name(),
    {
        self.name
    }

    pub fn model_id(&self) -> (r: &str)
        ensures
            r@ == self.spec_model_id(),
    {
        self.model_id.as_str()
    }

    /// The resolved API key.
    pub fn api_key(&self) -> (r: Result<String, ProviderError>)
        ensures
            match self.config().api_key {
                Some(k) => r matches Ok(v) && v@ == k@,
                None => r matches Err(ProviderError::NotConfigured(m)) && m@ == "missing API key"@,
            },
    {
        match &self.config.api_key {
            Some(k) => Ok(k.clone()),
            None => Err(ProviderError::NotConfigured(String::from_str("missing API key"))),
        }
    }

    /// The configured base URL, which some providers need.
    pub fn require_base_url(&self) -> (r: Result<String, ProviderError>)
        ensures
            match self.config().base_url {
                Some(u) => r matches Ok(v) && v@ == u@,
                None => r matches Err(ProviderError::NotConfigured(m)) && m@ == "provider '"@
                    + provider_name_text(self.spec_name()) + "' requires base_url"@,
            },
    {
        match &self.config.base_url {
            Some(u) => require_base_url(self.name, Some(u.as_str())),
            None => require_base_url(self.name, None),
        }
    }

    /// Record a call, when a sink is attached.
    pub fn record(&mut self, call: LlmCallAudit)
        ensures
            final(self).config() == old(self).config(),
            final(self).spec_name() == old(self).spec_name(),
            final(self).spec_model_id() == old(self).spec_model_id(),
            final(self).has_audit_sink() == old(self).has_audit_sink(),
            match old(self).sink() {
                None => final(self).sink() is None,
                Some(s) => final(self).sink() matches Some(t) && t == (AuditSink { llm_calls: t.llm_calls, ..s })
                    && t.llm_calls@ == if s.enabled {
                    s.llm_calls@.push(call)
                } else {
                    s.llm_calls@
                },
            },
    {
        match &mut self.audit_sink {
            Some(sink) => sink.record_call(call),
            None => {},
        }
    }
}

/// The base URL a provider needs (Azure and generic endpoints).
pub fn require_base_url(name: ProviderName, base_url: Option<&str>) -> (r: Result<String, ProviderError>)
    ensures
        match base_url {
            Some(u) => r matches Ok(v) && v@ == u@,
            None => r matches Err(ProviderError::NotConfigured(m)) && m@ == "provider '"@ + provider_name_text(name)
                + "' requires base_url"@,
        },
{
    match base_url {
        Some(u) => Ok(String::from_str(u)),
        None => {
            let mut m = String::from_str("provider '");
            push_str(&mut m, name.as_str());
            push_str(&mut m, "' requires base_url");
            Err(ProviderError::NotConfigured(m))
        },
    }
}

/// After a failed attempt: the delay before retrying, in seconds, or
/// `None` to give up. Transient errors are retried up to
/// [`MAX_RETRIES`] times.
pub fn retry_after(err: &ProviderError, attempt: u32) -> (r: Option<u64>)
    ensures
        match r {
            Some(d) => !(*err is Parse) && error_class(*err) is Some && attempt < MAX_RETRIES && d == backoff_secs(
                attempt as nat,
            ),
            None => !(!(*err is Parse) && error_class(*err) is Some && attempt < MAX_RETRIES),
        },
{
    if is_retryable(err) && attempt < MAX_RETRIES {
        Some(retry_backoff(attempt))
    } else {
        None
    }
}

/// The audit record of one completion call.
pub fn call_audit(
    label: &str,
    provider: &str,
    model: &str,
    started_at: u64,
    duration_ms: u64,
    system_prompt: &str,
    user_prompt: &str,
    outcome: &Result<CompletionResponse, ProviderError>,
    commit_shas: &Vec<String>,
    retries: usize,
) -> (r: LlmCallAudit)
    ensures
        r.label@ == label@,
        r.provider@ == provider@,
        r.model@ == model@,
        r.started_at_unix_ms == started_at,
        r.duration_ms == duration_ms,
        r.prompt_hash@ == hex_of(sha256(utf8(system_prompt@ + "\n\n"@ + user_prompt@))),
        match outcome {
            Ok(c) => {
                &&& r.status == CallStatus::Success
                &&& r.tokens == c.tokens
                &&& r.response_hash matches Some(h) && h@ == hex_of(sha256(utf8(c.text@)))
            },
            Err(e) => {
                &&& r.status matches CallStatus::Failed { error } && error@ == provider_error_text(*e)
                &&& r.tokens == TokenUsage { input_tokens: 0, output_tokens: 0, cached_input_tokens: 0, total_tokens: 0 }
                &&& r.response_hash is None
            },
        },
        crate::text::string_views(r.commit_shas@) == crate::text::string_views(commit_shas@),
        r.retries == retries,
        r.agent is None,
{
    let mut joined = String::from_str(system_prompt);
    push_str(&mut joined, "\n\n");
    push_str(&mut joined, user_prompt);
    let prompt_hash = hash_hex(joined.as_str());
    let (status, tokens, response_hash) = match outcome {
        Ok(c) => (CallStatus::Success, c.tokens, Some(hash_hex(c.text.as_str()))),
        Err(e) => (
            CallStatus::Failed { error: e.message() },
            TokenUsage { input_tokens: 0, output_tokens: 0, cached_input_tokens: 0, total_tokens: 0 },
            None,
        ),
    };
    LlmCallAudit {
        label: String::from_str(label),
        provider: String::from_str(provider),
        model: String::from_str(model),
        started_at_unix_ms: started_at,
        duration_ms,
        status,
        tokens,
        prompt_hash,
        response_hash,
        commit_shas: crate::models::clone_strings(commit_shas),
        retries,
        agent: None,
    }
}

} // verus!
