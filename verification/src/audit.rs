//! Per-run audit record.
//!
//! An opt-in, post-hoc record of what a run did: every model call with
//! its token cost and prompt/response hashes, the final classification
//! and the rendered notes. [`AuditSink`] holds the state; recording is a
//! no-op until it is enabled.

use vstd::prelude::*;

use crate::models::{Classified, TokenUsage};
use crate::models::tokens::sat_add;
pub use crate::hashing::hash_hex;

verus! {

/// Version of the audit document layout.
pub const AUDIT_SCHEMA_VERSION: u32 = 1;

/// Static configuration of the run; secrets excluded.
#[derive(Debug, Clone, PartialEq, Eq)]
pub struct ConfigSnapshot {
    pub provider: Option<String>,
    pub model: Option<String>,
    pub agent_fallback: bool,
    pub max_diff_tokens: usize,
    /// In thousandths.
    pub confidence_threshold: u32,
    pub batch_size: usize,
    pub merge_style_override: Option<String>,
}

/// The range the run covered.
#[derive(Debug, Clone, PartialEq, Eq)]
pub struct RangeSnapshot {
    pub from: Option<String>,
    pub to: String,
    pub commit_count: usize,
    pub detected_merge_style: String,
    /// The upper bound is a prerelease tag.
    pub prerelease: bool,
    /// The prerelease label, when `prerelease`.
    pub release_label: Option<String>,
    /// `initial`, `patch`, `minor`, `major` or `unknown`.
    pub version_bump: String,
    /// `semver` or `calver`, when known.
    pub version_scheme: Option<String>,
}

/// Outcome of one model call.
#[derive(Debug, Clone, PartialEq, Eq)]
pub enum CallStatus {
    Success,
    Failed { error: String },
}

/// One tool invocation inside an agent loop.
#[derive(Debug, PartialEq, Eq)]
pub struct ToolCallRecord {
    pub name: String,
    /// SHA-256 of the JSON arguments.
    pub args_hash: String,
    /// Short readable summary of the arguments.
    pub args_summary: String,
    pub duration_ms: u64,
    /// SHA-256 of the result; `None` on tool error.
    pub result_hash: Option<String>,
    /// Short readable summary of the result.
    pub result_summary: String,
    pub failed: bool,
}

impl Clone for ToolCallRecord {
    fn clone(&self) -> (r: Self)
        ensures
            r == *self,
    {
        ToolCallRecord {
            name: self.name.clone(),
            args_hash: self.args_hash.clone(),
            args_summary: self.args_summary.clone(),
            duration_ms: self.duration_ms,
            result_hash: crate::models::clone_opt_string(&self.result_hash),
            result_summary: self.result_summary.clone(),
            failed: self.failed,
        }
    }
}

/// A copy of a list of tool-call records.
pub fn clone_tool_calls(v: &Vec<ToolCallRecord>) -> (r: Vec<ToolCallRecord>)
    ensures
        r@ == v@,
{
    let mut out: Vec<ToolCallRecord> = Vec::new();
    let mut i: usize = 0;
    while i < v.len()
        invariant
            i <= v@.len(),
            out@ == v@.take(i as int),
        decreases v@.len() - i,
    {
        out.push(v[i].clone());
        i = i + 1;
        proof {
            assert(out@ =~= v@.take(i as int));
        }
    }
    proof {
        assert(v@.take(v@.len() as int) =~= v@);
    }
    out
}

/// Shape of a multi-turn agent loop.
#[derive(Debug, Clone, PartialEq, Eq)]
pub struct AgentDiagnostics {
    pub turns: u32,
    /// The terminal tool that ended the loop, if one did.
    pub terminated_via_tool: Option<String>,
    /// A self-repair correction was sent.
    pub self_repair_attempted: bool,
    /// Tool calls in invocation order.
    pub tool_calls: Vec<ToolCallRecord>,
}

/// One model call.
#[derive(Debug, Clone, PartialEq, Eq)]
pub struct LlmCallAudit {
    /// Stage label such as `tier-1-batch` or `prose`.
    pub label: String,
    pub provider: String,
    pub model: String,
    pub started_at_unix_ms: u64,
    pub duration_ms: u64,
    pub status: CallStatus,
    pub tokens: TokenUsage,
    /// SHA-256 of system prompt, blank line, user prompt.
    pub prompt_hash: String,
    /// SHA-256 of the response text.
    pub response_hash: Option<String>,
    /// Commits this call covered.
    pub commit_shas: Vec<String>,
    /// Retries before this terminal status.
    pub retries: usize,
    /// Agent-loop shape, for multi-turn calls.
    pub agent: Option<AgentDiagnostics>,
}

/// The document written at the end of a run.
#[derive(Debug, Clone, PartialEq)]
pub struct RunAudit {
    pub schema: u32,
    pub run_id: String,
    pub started_at_unix_ms: u64,
    pub duration_ms: u64,
    pub chronikl_version: String,
    pub config: ConfigSnapshot,
    pub range: RangeSnapshot,
    pub voice_is_custom: bool,
    /// Bundled voice profile; `None` for a custom voice file.
    pub voice_name: Option<String>,
    pub llm_calls: Vec<LlmCallAudit>,
    pub tokens: TokenUsage,
    pub final_classification: Classified,
    pub rendered_markdown: String,
}

/// Wall-clock time as Unix epoch milliseconds, 0 when the clock is
/// before the epoch.
#[verifier::external_body]
pub fn now_unix_ms() -> (r: u64) {
    match std::time::SystemTime::now().duration_since(std::time::SystemTime::UNIX_EPOCH) {
        Ok(d) => d.as_millis() as u64,
        Err(_) => 0,
    }
}

/// Token usage summed over calls, saturating per field.
pub open spec fn sum_tokens(calls: Seq<LlmCallAudit>) -> TokenUsage
    decreases calls.len(),
{
    if calls.len() == 0 {
        TokenUsage { input_tokens: 0, output_tokens: 0, cached_input_tokens: 0, total_tokens: 0 }
    } else {
        let t = sum_tokens(calls.drop_last());
        let c = calls.last().tokens;
        TokenUsage {
            input_tokens: sat_add(t.input_tokens, c.input_tokens),
            output_tokens: sat_add(t.output_tokens, c.output_tokens),
            cached_input_tokens: sat_add(t.cached_input_tokens, c.cached_input_tokens),
            total_tokens: sat_add(t.total_tokens, c.total_tokens),
        }
    }
}

fn total_tokens(calls: &Vec<LlmCallAudit>) -> (r: TokenUsage)
    ensures
        r == sum_tokens(calls@),
{
    let mut total = TokenUsage { input_tokens: 0, output_tokens: 0, cached_input_tokens: 0, total_tokens: 0 };
    let mut i: usize = 0;
    while i < calls.len()
        invariant
            i <= calls@.len(),
            total == sum_tokens(calls@.take(i as int)),
        decreases calls@.len() - i,
    {
        proof {
            assert(calls@.take(i + 1).drop_last() =~= calls@.take(i as int));
        }
        total = total.plus(calls[i].tokens);
        i = i + 1;
    }
    proof {
        assert(calls@.take(calls@.len() as int) =~= calls@);
    }
    total
}

/// The calls a sink holds after a sequence of events, starting from
/// `enabled` and `calls`: `None` is [`AuditSink::enable`], `Some(c)` is
/// [`AuditSink::record_call`] with `c` (kept only while enabled).
pub open spec fn calls_after(
    enabled: bool,
    calls: Seq<LlmCallAudit>,
    events: Seq<Option<LlmCallAudit>>,
) -> Seq<LlmCallAudit>
    decreases events.len(),
{
    if events.len() == 0 {
        calls
    } else {
        match events[0] {
            None => calls_after(true, calls, events.drop_first()),
            Some(c) => calls_after(
                enabled,
                if enabled {
                    calls.push(c)
                } else {
                    calls
                },
                events.drop_first(),
            ),
        }
    }
}

/// The calls among `events`, in order.
pub open spec fn calls_in(events: Seq<Option<LlmCallAudit>>) -> Seq<LlmCallAudit>
    decreases events.len(),
{
    if events.len() == 0 {
        seq![]
    } else {
        match events[0] {
            None => calls_in(events.drop_first()),
            Some(c) => seq![c] + calls_in(events.drop_first()),
        }
    }
}

/// The calls among `events` after the first enabling event, in order.
pub open spec fn calls_after_first_enable(events: Seq<Option<LlmCallAudit>>) -> Seq<LlmCallAudit>
    decreases events.len(),
{
    if events.len() == 0 {
        seq![]
    } else {
        match events[0] {
            None => calls_in(events.drop_first()),
            Some(_) => calls_after_first_enable(events.drop_first()),
        }
    }
}

proof fn lemma_calls_after_enabled(calls: Seq<LlmCallAudit>, events: Seq<Option<LlmCallAudit>>)
    ensures
        calls_after(true, calls, events) == calls + calls_in(events),
    decreases events.len(),
{
    if events.len() > 0 {
        lemma_calls_after_enabled(
            match events[0] {
                None => calls,
                Some(c) => calls.push(c),
            },
            events.drop_first(),
        );
        match events[0] {
            None => {},
            Some(c) => {
                assert(calls.push(c) + calls_in(events.drop_first()) =~= calls + (seq![c] + calls_in(
                    events.drop_first(),
                )));
            },
        }
    } else {
        assert(calls + seq![] =~= calls);
    }
}

/// A sink made by [`AuditSink::new`] and given any sequence of enable and
/// record events holds, in order, exactly the calls recorded after the
/// first enable (none when it was never enabled); its document then
/// lists those calls with their field-wise, saturating token sum.
pub proof fn lemma_sink_keeps_calls_after_enable(events: Seq<Option<LlmCallAudit>>)
    ensures
        calls_after(false, seq![], events) == calls_after_first_enable(events),
        calls_after_first_enable(events).len() <= calls_in(events).len(),
        (forall|i: int| 0 <= i < events.len() ==> events[i] is Some) ==> calls_after_first_enable(events).len()
            == 0,
    decreases events.len(),
{
    if events.len() > 0 {
        let rest = events.drop_first();
        match events[0] {
            None => {
                lemma_calls_after_enabled(seq![], rest);
                assert(seq![] + calls_in(rest) =~= calls_in(rest));
                lemma_calls_in_len(rest);
            },
            Some(_) => {
                lemma_sink_keeps_calls_after_enable(rest);
                assert forall|i: int| 0 <= i < rest.len() implies (events[i + 1] is Some ==> rest[i] is Some) by {
                    assert(rest[i] == events[i + 1]);
                }
            },
        }
    }
}

proof fn lemma_calls_in_len(events: Seq<Option<LlmCallAudit>>)
    ensures
        calls_in(events).len() <= events.len(),
    decreases events.len(),
{
    if events.len() > 0 {
        lemma_calls_in_len(events.drop_first());
    }
}

/// The configuration snapshot recorded when none was set.
pub open spec fn is_empty_config(c: ConfigSnapshot) -> bool {
    c.provider is None && c.model is None && !c.agent_fallback && c.max_diff_tokens == 0
        && c.confidence_threshold == 0 && c.batch_size == 0 && c.merge_style_override is None
}

/// The range snapshot recorded when none was set.
pub open spec fn is_empty_range(g: RangeSnapshot) -> bool {
    g.from is None && g.to@.len() == 0 && g.commit_count == 0 && g.detected_merge_style@.len() == 0
        && !g.prerelease && g.release_label is None && g.version_bump@ == "unknown"@
        && g.version_scheme is None
}

/// Configuration snapshot used when none was set.
pub fn empty_config_snapshot() -> (r: ConfigSnapshot)
    ensures
        is_empty_config(r),
{
    ConfigSnapshot {
        provider: None,
        model: None,
        agent_fallback: false,
        max_diff_tokens: 0,
        confidence_threshold: 0,
        batch_size: 0,
        merge_style_override: None,
    }
}

/// Range snapshot used when none was set.
pub fn empty_range_snapshot() -> (r: RangeSnapshot)
    ensures
        is_empty_range(r),
{
    RangeSnapshot {
        from: None,
        to: String::new(),
        commit_count: 0,
        detected_merge_style: String::new(),
        prerelease: false,
        release_label: None,
        version_bump: String::from_str("unknown"),
        version_scheme: None,
    }
}

/// The audit state of a run.
#[derive(Debug, Clone)]
pub struct AuditSink {
    pub enabled: bool,
    pub started_at_unix_ms: u64,
    pub chronikl_version: String,
    pub voice_is_custom: bool,
    pub voice_name: Option<String>,
    pub config: Option<ConfigSnapshot>,
    pub range: Option<RangeSnapshot>,
    pub llm_calls: Vec<LlmCallAudit>,
}

impl AuditSink {
    /// A disabled log with nothing recorded.
    pub fn new() -> (r: Self)
        ensures
            !r.enabled,
            r.started_at_unix_ms == 0,
            r.chronikl_version@.len() == 0,
            !r.voice_is_custom,
            r.llm_calls@.len() == 0,
            r.config is None && r.range is None && r.voice_name is None,
    {
        AuditSink {
            enabled: false,
            started_at_unix_ms: 0,
            chronikl_version: String::new(),
            voice_is_custom: false,
            voice_name: None,
            config: None,
            range: None,
            llm_calls: Vec::new(),
        }
    }

    /// Start recording; the first call sets the start time from the
    /// clock, later calls change nothing.
    pub fn enable(&mut self)
        ensures
            final(self).enabled,
            old(self).enabled ==> *final(self) == *old(self),
            !old(self).enabled ==> *final(self) == (AuditSink {
                enabled: true,
                started_at_unix_ms: final(self).started_at_unix_ms,
                ..*old(self)
            }),
    {
        if !self.enabled {
            self.enabled = true;
            self.started_at_unix_ms = now_unix_ms();
        }
    }

    pub fn is_enabled(&self) -> (r: bool)
        ensures
            r == self.enabled,
    {
        self.enabled
    }

    /// Keep a call record, when enabled.
    pub fn record_call(&mut self, call: LlmCallAudit)
        ensures
            *final(self) == (AuditSink { llm_calls: final(self).llm_calls, ..*old(self) }),
            final(self).llm_calls@ == if old(self).enabled {
                old(self).llm_calls@.push(call)
            } else {
                old(self).llm_calls@
            },
    {
        if self.enabled {
            self.llm_calls.push(call);
        }
    }

    /// Number of recorded calls and their summed tokens.
    pub fn totals(&self) -> (r: (usize, TokenUsage))
        ensures
            r.0 == self.llm_calls@.len(),
            r.1 == sum_tokens(self.llm_calls@),
    {
        (self.llm_calls.len(), total_tokens(&self.llm_calls))
    }

    pub fn set_chronikl_version(&mut self, v: String)
        ensures
            *final(self) == (AuditSink { chronikl_version: v, ..*old(self) }),
    {
        self.chronikl_version = v;
    }

    pub fn set_voice_is_custom(&mut self, b: bool)
        ensures
            *final(self) == (AuditSink { voice_is_custom: b, ..*old(self) }),
    {
        self.voice_is_custom = b;
    }

    /// The bundled voice's profile name; `None` for a custom voice.
    pub fn set_voice_name(&mut self, name: Option<String>)
        ensures
            *final(self) == (AuditSink { voice_name: name, ..*old(self) }),
    {
        self.voice_name = name;
    }

    pub fn set_config(&mut self, c: ConfigSnapshot)
        ensures
            *final(self) == (AuditSink { config: Some(c), ..*old(self) }),
    {
        self.config = Some(c);
    }

    pub fn set_range(&mut self, r: RangeSnapshot)
        ensures
            *final(self) == (AuditSink { range: Some(r), ..*old(self) }),
    {
        self.range = Some(r);
    }

    /// The audit document of the run, with a fresh run id and the time
    /// since recording was enabled (0 when it never was).
    pub fn finalize(self, final_classification: Classified, rendered_markdown: String) -> (r: RunAudit)
        ensures
            crate::telemetry::is_uuid_v4_text(r.run_id@),
            !self.enabled ==> r.duration_ms == 0,
            self.documents(r, final_classification, rendered_markdown),
    {
        let run_id = crate::telemetry::new_run_id();
        let duration_ms = if self.enabled {
            let now = now_unix_ms();
            if now >= self.started_at_unix_ms {
                now - self.started_at_unix_ms
            } else {
                0
            }
        } else {
            0
        };
        self.finalize_with(run_id, duration_ms, final_classification, rendered_markdown)
    }

    /// `r` records this state, the final classification and the notes:
    /// every field of the document but its run id and duration.
    pub open spec fn documents(self, r: RunAudit, final_classification: Classified, rendered_markdown: String) -> bool {
        &&& r.schema == AUDIT_SCHEMA_VERSION
        &&& r.started_at_unix_ms == self.started_at_unix_ms
        &&& r.chronikl_version == self.chronikl_version
        &&& match self.config {
            Some(c) => r.config == c,
            None => is_empty_config(r.config),
        }
        &&& match self.range {
            Some(g) => r.range == g,
            None => is_empty_range(r.range),
        }
        &&& r.voice_is_custom == self.voice_is_custom
        &&& r.voice_name == self.voice_name
        &&& r.llm_calls == self.llm_calls
        &&& r.tokens == sum_tokens(self.llm_calls@)
        &&& r.final_classification == final_classification
        &&& r.rendered_markdown == rendered_markdown
    }

    /// The audit document of the run, given its id and duration.
    pub fn finalize_with(
        self,
        run_id: String,
        duration_ms: u64,
        final_classification: Classified,
        rendered_markdown: String,
    ) -> (r: RunAudit)
        ensures
            r.run_id == run_id,
            r.duration_ms == duration_ms,
            self.documents(r, final_classification, rendered_markdown),
    {
        let tokens = total_tokens(&self.llm_calls);
        RunAudit {
            schema: AUDIT_SCHEMA_VERSION,
            run_id,
            started_at_unix_ms: self.started_at_unix_ms,
            duration_ms,
            chronikl_version: self.chronikl_version,
            config: match self.config {
                Some(c) => c,
                None => empty_config_snapshot(),
            },
            range: match self.range {
                Some(g) => g,
                None => empty_range_snapshot(),
            },
            voice_is_custom: self.voice_is_custom,
            voice_name: self.voice_name,
            llm_calls: self.llm_calls,
            tokens,
            final_classification,
            rendered_markdown,
        }
    }
}

} // verus!
