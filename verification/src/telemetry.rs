//! The anonymous usage heartbeat: what it carries and when it is sent.
//!
//! The payload holds aggregate counters only, never commit text,
//! classifications, prose, prompts or keys. Posting it is left to the
//! caller; a failed post never affects a run.

use vstd::prelude::*;

use crate::env::Env;
use crate::text::chars_of;

verus! {

/// The build's version string.
pub const FULL_VERSION: &'static str = "0.1.0";

/// Where heartbeats are posted.
pub const TELEMETRY_URL: &'static str = "https://telemetry.chronikl.dev/v1/heartbeat";

/// The variable that turns on the debug print of the heartbeat.
pub const ENV_DEBUG: &'static str = "CHRONIKL_DEBUG";

/// How many commits each tier touched.
#[derive(Debug, Clone, Copy, Default, PartialEq, Eq, Structural)]
pub struct TierCounts {
    pub tier0: usize,
    pub tier1: usize,
    pub tier2: usize,
    pub tier3: usize,
    /// Commits whose classification came from the cache.
    pub cache_hits: usize,
}

/// The anonymous payload posted at the end of a run.
#[derive(Debug, Clone)]
pub struct HeartbeatPayload {
    /// A fresh UUID v4, for log correlation only.
    pub run_id: String,
    pub commit_count: usize,
    pub tier_counts: TierCounts,
    /// Provider name, when a model ran.
    pub provider: Option<String>,
    /// Model id, when a model ran.
    pub model: Option<String>,
    pub merge_style: String,
    pub prerelease: bool,
    pub version_bump: String,
    pub version_scheme: Option<String>,
    /// A voice of the user's own was used (its text is never sent).
    pub custom_voice: bool,
    pub agent_used: bool,
    pub pr_enrichment: bool,
    pub audit_log: bool,
    pub licensed: bool,
    pub is_ci: bool,
    pub success: bool,
    pub version: &'static str,
}

/// A lower-case hexadecimal digit.
pub open spec fn is_lower_hex(c: char) -> bool {
    ('0' <= c && c <= '9') || ('a' <= c && c <= 'f')
}

/// The text form of a version-4 UUID: 36 characters, hyphens at 8, 13,
/// 18 and 23, lower-case hex digits elsewhere, version digit `4` and a
/// variant digit of `8`, `9`, `a` or `b`.
pub open spec fn is_uuid_v4_text(s: Seq<char>) -> bool {
    &&& s.len() == 36
    &&& forall|i: int|
        0 <= i < 36 ==> if i == 8 || i == 13 || i == 18 || i == 23 {
            s[i] == '-'
        } else {
            is_lower_hex(#[trigger] s[i])
        }
    &&& s[14] == '4'
    &&& (s[19] == '8' || s[19] == '9' || s[19] == 'a' || s[19] == 'b')
}

/// `uuid::Uuid::new_v4().to_string()`: a random UUID in its hyphenated
/// lower-case form. The value is random; the contract claims its shape.
#[verifier::external_body]
pub(crate) fn new_run_id() -> (r: String)
    ensures
        is_uuid_v4_text(r@),
{
    uuid::Uuid::new_v4().to_string()
}

impl HeartbeatPayload {
    /// The payload of a run, from its aggregate counters and a fresh run
    /// id. Whether the run is in CI is read by the caller.
    pub fn from_release(
        commit_count: usize,
        tier_counts: TierCounts,
        provider: Option<String>,
        model: Option<String>,
        merge_style: String,
        prerelease: bool,
        version_bump: String,
        version_scheme: Option<String>,
        custom_voice: bool,
        agent_used: bool,
        pr_enrichment: bool,
        audit_log: bool,
        licensed: bool,
        success: bool,
        is_ci: bool,
    ) -> (r: Self)
        ensures
            is_uuid_v4_text(r.run_id@),
            r.commit_count == commit_count,
            r.tier_counts == tier_counts,
            r.provider == provider,
            r.model == model,
            r.merge_style == merge_style,
            r.prerelease == prerelease,
            r.version_bump == version_bump,
            r.version_scheme == version_scheme,
            r.custom_voice == custom_voice,
            r.agent_used == agent_used,
            r.pr_enrichment == pr_enrichment,
            r.audit_log == audit_log,
            r.licensed == licensed,
            r.is_ci == is_ci,
            r.success == success,
            r.version@ == FULL_VERSION@,
    {
        HeartbeatPayload {
            run_id: new_run_id(),
            commit_count,
            tier_counts,
            provider,
            model,
            merge_style,
            prerelease,
            version_bump,
            version_scheme,
            custom_voice,
            agent_used,
            pr_enrichment,
            audit_log,
            licensed,
            is_ci,
            success,
            version: FULL_VERSION,
        }
    }
}

/// Values of the debug variable that turn debugging on.
pub open spec fn is_truthy_debug(v: Seq<char>) -> bool {
    v == "1"@ || v == "true"@ || v == "yes"@ || v == "on"@
}

/// Whether the debug variable is set to `1`, `true`, `yes` or `on`.
pub fn is_debug(env: &Env) -> (r: bool)
    ensures
        r == (env.lookup(ENV_DEBUG@) matches Some(v) && is_truthy_debug(v)),
{
    match env.var(ENV_DEBUG) {
        Some(v) => {
            let c = chars_of(v.as_str());
            crate::text::eq_str(&c, "1") || crate::text::eq_str(&c, "true") || crate::text::eq_str(&c, "yes")
                || crate::text::eq_str(&c, "on")
        },
        None => false,
    }
}

} // verus!
