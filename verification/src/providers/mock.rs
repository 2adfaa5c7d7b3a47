//! A provider that answers from canned replies and records what it was
//! asked, for exercising the tiers without a network.

use vstd::prelude::*;

use crate::audit::{AuditSink, CallStatus, LlmCallAudit};
use crate::hashing::{hex_of, sha256};
use crate::models::tokens::TokenUsage;
use crate::providers::agent_loop::utf8;
use crate::providers::{provider_error_text, CompletionRequest, CompletionResponse, ProviderError};

verus! {

/// One recorded call.
#[derive(Debug, Clone, PartialEq, Eq)]
pub struct CapturedCall {
    pub label: String,
    pub system_prompt: String,
    pub user_prompt: String,
    pub max_tokens: u64,
}

/// The names reported to the audit record, and where records go.
#[derive(Debug, Clone)]
pub struct MockProviderConfig {
    pub provider_name: String,
    pub model: String,
    pub audit_sink: Option<AuditSink>,
}

/// How the mock answers.
#[derive(Debug, Clone)]
pub enum MockResponse {
    /// Always the same text.
    Static(String),
    /// Replies handed out first to last; an API error once they run out.
    Sequence(Vec<String>),
    /// Always an API error with this message.
    Error(String),
}

/// The message of a call made after a sequence ran out.
pub const SEQUENCE_EXHAUSTED: &'static str = "MockProvider sequence exhausted";

#[derive(Debug, Clone)]
pub struct MockProvider {
    pub config: MockProviderConfig,
    pub response: MockResponse,
    pub captured: Vec<CapturedCall>,
    /// Tokens reported by every call.
    pub tokens_per_call: TokenUsage,
}

/// `c` records `req`.
pub open spec fn captures(c: CapturedCall, req: CompletionRequest) -> bool {
    c.label@ == req.label@ && c.system_prompt@ == req.system_prompt@ && c.user_prompt@ == req.user_prompt@
        && c.max_tokens == req.max_tokens
}

/// `c` is the audit record of answering `req` with `result`.
pub open spec fn audit_of(
    c: LlmCallAudit,
    config: MockProviderConfig,
    req: CompletionRequest,
    result: Result<CompletionResponse, ProviderError>,
    tokens: TokenUsage,
) -> bool {
    &&& c.label@ == req.label@
    &&& c.provider@ == config.provider_name@
    &&& c.model@ == config.model@
    &&& c.tokens == tokens
    &&& c.prompt_hash@ == hex_of(sha256(utf8(req.system_prompt@ + "\n\n"@ + req.user_prompt@)))
    &&& crate::text::string_views(c.commit_shas@) == crate::text::string_views(req.commit_shas@)
    &&& c.retries == 0
    &&& c.agent is None
    &&& match result {
        Ok(r) => c.status == CallStatus::Success && (c.response_hash matches Some(h) && h@ == hex_of(
            sha256(utf8(r.text@)),
        )),
        Err(e) => (c.status matches CallStatus::Failed { error } && error@ == provider_error_text(e))
            && c.response_hash is None,
    }
}

impl MockProvider {
    pub fn new(config: MockProviderConfig, response: MockResponse) -> (r: Self)
        ensures
            r.config == config,
            r.response == response,
            r.captured@.len() == 0,
            r.tokens_per_call == (TokenUsage { input_tokens: 100, output_tokens: 50, cached_input_tokens: 0, total_tokens: 150 }),
    {
        MockProvider { config, response, captured: Vec::new(), tokens_per_call: TokenUsage::new(100, 50, 0) }
    }

    fn named(response: MockResponse) -> (r: Self)
        ensures
            r.config.provider_name@ == "mock"@,
            r.config.model@ == "mock-model"@,
            r.config.audit_sink is None,
            r.response == response,
            r.captured@.len() == 0,
            r.tokens_per_call == (TokenUsage { input_tokens: 100, output_tokens: 50, cached_input_tokens: 0, total_tokens: 150 }),
    {
        Self::new(
            MockProviderConfig {
                provider_name: String::from_str("mock"),
                model: String::from_str("mock-model"),
                audit_sink: None,
            },
            response,
        )
    }

    /// A mock that always answers `text`.
    pub fn returning(text: String) -> (r: Self)
        ensures
            r.config.provider_name@ == "mock"@ && r.config.model@ == "mock-model"@ && r.config.audit_sink is None,
            r.response == MockResponse::Static(text),
            r.captured@.len() == 0,
            r.tokens_per_call == (TokenUsage { input_tokens: 100, output_tokens: 50, cached_input_tokens: 0, total_tokens: 150 }),
    {
        Self::named(MockResponse::Static(text))
    }

    /// A mock that answers `items` in order.
    pub fn returning_sequence(items: Vec<String>) -> (r: Self)
        ensures
            r.config.provider_name@ == "mock"@ && r.config.model@ == "mock-model"@ && r.config.audit_sink is None,
            r.response == MockResponse::Sequence(items),
            r.captured@.len() == 0,
            r.tokens_per_call == (TokenUsage { input_tokens: 100, output_tokens: 50, cached_input_tokens: 0, total_tokens: 150 }),
    {
        Self::named(MockResponse::Sequence(items))
    }

    /// A mock whose every call fails with `message`.
    pub fn failing(message: String) -> (r: Self)
        ensures
            r.config.provider_name@ == "mock"@ && r.config.model@ == "mock-model"@ && r.config.audit_sink is None,
            r.response == MockResponse::Error(message),
            r.captured@.len() == 0,
            r.tokens_per_call == (TokenUsage { input_tokens: 100, output_tokens: 50, cached_input_tokens: 0, total_tokens: 150 }),
    {
        Self::named(MockResponse::Error(message))
    }

    pub fn with_audit_sink(self, sink: AuditSink) -> (r: Self)
        ensures
            r.config.provider_name == self.config.provider_name,
            r.config.model == self.config.model,
            r.config.audit_sink == Some(sink),
            r.response == self.response,
            r.captured == self.captured,
            r.tokens_per_call == self.tokens_per_call,
    {
        let mut m = self;
        m.config.audit_sink = Some(sink);
        m
    }

    pub fn with_tokens(self, tokens: TokenUsage) -> (r: Self)
        ensures
            r == (MockProvider { tokens_per_call: tokens, ..self }),
    {
        let mut m = self;
        m.tokens_per_call = tokens;
        m
    }

    /// Every call so far, first to last.
    pub fn captured_calls(&self) -> (r: &Vec<CapturedCall>)
        ensures
            r == &self.captured,
    {
        &self.captured
    }

    pub fn call_count(&self) -> (r: usize)
        ensures
            r == self.captured@.len(),
    {
        self.captured.len()
    }

    pub fn provider_name(&self) -> (r: &str)
        ensures
            r@ == self.config.provider_name@,
    {
        self.config.provider_name.as_str()
    }

    pub fn model(&self) -> (r: &str)
        ensures
            r@ == self.config.model@,
    {
        self.config.model.as_str()
    }

    /// Answer a request: record it, take the next reply (see
    /// [`MockResponse`]), and hand an audit record to the sink, if any.
    pub fn complete(&mut self, request: &CompletionRequest) -> (r: Result<CompletionResponse, ProviderError>)
        requires
            old(self).captured@.len() < usize::MAX,
        ensures
            final(self).captured@.len() == old(self).captured@.len() + 1,
            final(self).captured@.take(old(self).captured@.len() as int) == old(self).captured@,
            captures(final(self).captured@.last(), *request),
            final(self).tokens_per_call == old(self).tokens_per_call,
            final(self).config.provider_name == old(self).config.provider_name,
            final(self).config.model == old(self).config.model,
            match old(self).response {
                MockResponse::Static(s) => final(self).response == old(self).response && (r matches Ok(c)
                    && c.text@ == s@ && c.tokens == old(self).tokens_per_call),
                MockResponse::Sequence(q) => if q@.len() == 0 {
                    final(self).response == old(self).response && (r matches Err(ProviderError::Api(m)) && m@
                        == SEQUENCE_EXHAUSTED@)
                } else {
                    (final(self).response matches MockResponse::Sequence(q2) && q2@ == q@.drop_first()) && (r matches Ok(
                        c,
                    ) && c.text@ == q@[0]@ && c.tokens == old(self).tokens_per_call)
                },
                MockResponse::Error(m) => final(self).response == old(self).response && (r matches Err(
                    ProviderError::Api(e),
                ) && e@ == m@),
            },
            match old(self).config.audit_sink {
                None => final(self).config.audit_sink is None,
                Some(s) => final(self).config.audit_sink matches Some(t) && t.enabled == s.enabled && if s.enabled {
                    &&& t.llm_calls@.len() == s.llm_calls@.len() + 1
                    &&& t.llm_calls@.drop_last() == s.llm_calls@
                    &&& audit_of(t.llm_calls@.last(), old(self).config, *request, r, old(self).tokens_per_call)
                } else {
                    t.llm_calls@ == s.llm_calls@
                },
            },
    {
        let started = crate::audit::now_unix_ms();
        self.captured.push(
            CapturedCall {
                label: String::from_str(request.label),
                system_prompt: String::from_str(request.system_prompt),
                user_prompt: String::from_str(request.user_prompt),
                max_tokens: request.max_tokens,
            },
        );
        let text: Result<String, ProviderError> = match &mut self.response {
            MockResponse::Static(s) => Ok(s.clone()),
            MockResponse::Sequence(q) => {
                if q.len() == 0 {
                    Err(ProviderError::Api(String::from_str(SEQUENCE_EXHAUSTED)))
                } else {
                    Ok(q.remove(0))
                }
            },
            MockResponse::Error(m) => Err(ProviderError::Api(m.clone())),
        };
        let result = match text {
            Ok(t) => Ok(CompletionResponse { text: t, tokens: self.tokens_per_call }),
            Err(e) => Err(e),
        };
        let finished = crate::audit::now_unix_ms();
        let duration_ms = if finished >= started { finished - started } else { 0 };
        let shas = crate::models::clone_strings_slice(request.commit_shas);
        match &mut self.config.audit_sink {
            Some(sink) => {
                let mut call = crate::providers::client::call_audit(
                    request.label,
                    self.config.provider_name.as_str(),
                    self.config.model.as_str(),
                    started,
                    duration_ms,
                    request.system_prompt,
                    request.user_prompt,
                    &result,
                    &shas,
                    0,
                );
                call.tokens = self.tokens_per_call;
                let ghost before = sink.llm_calls@;
                sink.record_call(call);
                proof {
                    if sink.enabled {
                        assert(sink.llm_calls@.drop_last() =~= before);
                    }
                }
            },
            None => {},
        }
        result
    }
}

} // verus!
